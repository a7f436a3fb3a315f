use qr_fountain_gen::make_qr_codes;
use qr_fountain_gen::matrix::{render_packet, ModuleMatrix, RenderError};
use qrcodegen::{QrCode, QrCodeEcc};

fn same_modules(m: &ModuleMatrix, code: &QrCode) -> bool {
    if m.size() != code.size() as usize {
        return false;
    }
    for y in -1..code.size() + 1 {
        for x in -1..code.size() + 1 {
            if m.get_module(x, y) != code.get_module(x, y) {
                return false;
            }
        }
    }
    true
}

#[test]
fn short_packet_gives_smallest_code() {
    let packet = vec![0x80u8, 0, 0, 3, 0, 0, 0, 0, 1, 2, 3];
    let m = render_packet(&packet).unwrap();
    assert_eq!(m.size(), 21);
    let code = QrCode::encode_binary(&packet, QrCodeEcc::Low).unwrap();
    assert!(same_modules(&m, &code));
}

#[test]
fn code_has_finder_pattern_in_the_corner() {
    let m = render_packet(&[1u8, 2, 3]).unwrap();
    // The outer ring of the top-left finder pattern is dark, the next is light.
    for i in 0..7 {
        assert!(m.get_module(i, 0));
        assert!(m.get_module(0, i));
    }
    for i in 1..6 {
        assert!(!m.get_module(i, 1));
        assert!(!m.get_module(1, i));
    }
    assert!(m.get_module(3, 3));
}

#[test]
fn module_outside_the_code_is_light() {
    let m = render_packet(&[1u8, 2, 3]).unwrap();
    assert!(!m.get_module(-1, 0));
    assert!(!m.get_module(0, -1));
    assert!(!m.get_module(21, 0));
    assert!(!m.get_module(0, 21));
    assert!(!m.get_module(i32::MAX, i32::MIN));
}

#[test]
fn largest_packet_gives_largest_code() {
    let packet: Vec<u8> = (0..2953).map(|i| (i % 251) as u8).collect();
    let m = render_packet(&packet).unwrap();
    assert_eq!(m.size(), 177);
    let code = QrCode::encode_binary(&packet, QrCodeEcc::Low).unwrap();
    assert!(same_modules(&m, &code));
}

#[test]
fn packet_over_capacity_is_refused() {
    let packet = vec![7u8; 2954];
    assert_eq!(render_packet(&packet).err(), Some(RenderError::DataTooLong));
}

#[test]
fn codes_keep_the_order_of_the_packets() {
    let packets = vec![vec![1u8; 20], vec![2u8; 20], vec![3u8; 20]];
    let codes = make_qr_codes(packets.clone());
    assert_eq!(codes.len(), 3);
    for (m, p) in codes.iter().zip(packets.iter()) {
        let code = QrCode::encode_binary(p, QrCodeEcc::Low).unwrap();
        assert!(same_modules(m, &code));
    }
    assert!(!same_modules(&codes[0], &QrCode::encode_binary(&packets[1], QrCodeEcc::Low).unwrap()));
}

#[test]
fn no_packets_give_no_codes() {
    assert_eq!(make_qr_codes(Vec::new()).len(), 0);
}

#[test]
fn square_rows_make_a_matrix() {
    let m = ModuleMatrix::from_rows(vec![vec![true, false], vec![false, true]]).unwrap();
    assert_eq!(m.size(), 2);
    assert!(m.get_module(0, 0));
    assert!(!m.get_module(1, 0));
    assert!(!m.get_module(0, 1));
    assert!(m.get_module(1, 1));
}

#[test]
fn module_is_addressed_by_column_then_row() {
    let m = ModuleMatrix::from_rows(vec![vec![false, true], vec![false, false]]).unwrap();
    assert!(m.get_module(1, 0));
    assert!(!m.get_module(0, 1));
}

#[test]
fn ragged_rows_make_no_matrix() {
    assert!(ModuleMatrix::from_rows(vec![vec![true, false], vec![false]]).is_none());
    assert!(ModuleMatrix::from_rows(vec![vec![true, false]]).is_none());
    assert!(ModuleMatrix::from_rows(vec![vec![], vec![]]).is_none());
}

#[test]
fn empty_grid_is_a_matrix() {
    let m = ModuleMatrix::from_rows(Vec::new()).unwrap();
    assert_eq!(m.size(), 0);
    assert!(!m.get_module(0, 0));
}
