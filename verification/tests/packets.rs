use qr_fountain_gen::fountain::{coder_takes, symbol_size};
use qr_fountain_gen::packet::{
    frame_symbols, length_header, repair_packets_per_block, PacketizeError, MAX_PACKET_LEN,
};
use qr_fountain_gen::{make_data_packs, Constants};

fn constants(chunk_size: u16) -> Constants {
    Constants {
        chunk_size,
        main_color: 0x00,
        back_color: 0xff,
        scaling: 4,
        fps_nom: 1,
        fps_den: 30,
        border: 4,
    }
}

fn payload(len: usize) -> Vec<u8> {
    (0..len).map(|i| (i * 7 + 3) as u8).collect()
}

#[test]
fn header_of_small_length() {
    assert_eq!(length_header(10), vec![0x80, 0x00, 0x00, 0x0a]);
}

#[test]
fn header_of_zero_length() {
    assert_eq!(length_header(0), vec![0x80, 0x00, 0x00, 0x00]);
}

#[test]
fn header_of_largest_length() {
    assert_eq!(length_header(0x7fff_ffff), vec![0xff, 0xff, 0xff, 0xff]);
}

#[test]
fn header_is_big_endian() {
    assert_eq!(length_header(0x0102_0304), vec![0x81, 0x02, 0x03, 0x04]);
}

#[test]
fn no_repair_for_one_symbol() {
    assert_eq!(repair_packets_per_block(10, 64), 0);
    assert_eq!(repair_packets_per_block(64, 64), 0);
}

#[test]
fn repair_is_whole_symbols() {
    assert_eq!(repair_packets_per_block(65, 64), 1);
    assert_eq!(repair_packets_per_block(100, 16), 6);
    assert_eq!(repair_packets_per_block(1000, 100), 10);
}

#[test]
fn symbol_size_rounds_down_from_64() {
    assert_eq!(symbol_size(1), 1);
    assert_eq!(symbol_size(63), 63);
    assert_eq!(symbol_size(64), 64);
    assert_eq!(symbol_size(71), 64);
    assert_eq!(symbol_size(100), 96);
    assert_eq!(symbol_size(2953), 2952);
}

#[test]
fn coder_domain() {
    assert!(!coder_takes(0, 64));
    assert!(!coder_takes(10, 0));
    assert!(coder_takes(1, 1));
    assert!(coder_takes(56403 * 255, 1));
    assert!(!coder_takes(56403 * 255 + 1, 1));
    assert!(coder_takes(0x7fff_ffff, 1024));
}

#[test]
fn small_payload_is_one_packet() {
    let data = payload(10);
    let packs = make_data_packs(data.clone(), &constants(64)).unwrap();
    assert_eq!(packs.len(), 1);
    assert_eq!(packs[0].len(), 4 + 4 + 64);
    assert_eq!(&packs[0][..4], &[0x80, 0x00, 0x00, 0x0a]);
    // The source symbol carries the payload, padded with zeros.
    assert_eq!(&packs[0][8..18], &data[..]);
    assert!(packs[0][18..].iter().all(|b| *b == 0));
}

#[test]
fn payload_of_exactly_one_symbol() {
    let packs = make_data_packs(payload(16), &constants(16)).unwrap();
    assert_eq!(packs.len(), 1);
    assert_eq!(packs[0].len(), 24);
}

#[test]
fn longer_payload_gets_repair_packets() {
    let packs = make_data_packs(payload(100), &constants(16)).unwrap();
    // ceil(100 / 16) source symbols and floor(100 / 16) repair symbols.
    assert_eq!(packs.len(), 7 + 6);
    for p in packs.iter() {
        assert_eq!(p.len(), 24);
        assert_eq!(&p[..4], &[0x80, 0x00, 0x00, 0x64]);
    }
}

#[test]
fn rounded_symbol_size_changes_the_count() {
    let packs = make_data_packs(payload(1000), &constants(100)).unwrap();
    // Symbols of 96 bytes: ceil(1000 / 96) = 11 source, floor(1000 / 100) = 10 repair.
    assert_eq!(packs.len(), 21);
    for p in packs.iter() {
        assert_eq!(p.len(), 4 + 4 + 96);
        assert_eq!(&p[..4], &[0x80, 0x00, 0x03, 0xe8]);
    }
}

#[test]
fn source_packets_hold_the_payload_in_order() {
    let data = payload(40);
    let packs = make_data_packs(data.clone(), &constants(16)).unwrap();
    assert_eq!(packs.len(), 3 + 2);
    assert_eq!(&packs[0][8..], &data[0..16]);
    assert_eq!(&packs[1][8..], &data[16..32]);
    assert_eq!(&packs[2][8..16], &data[32..40]);
}

#[test]
fn packets_differ_from_the_payload() {
    let data = payload(10);
    let packs = make_data_packs(data.clone(), &constants(10)).unwrap();
    assert_eq!(packs.len(), 1);
    assert_ne!(packs[0], data);
    assert_eq!(packs[0].len(), data.len() + 8);
}

#[test]
fn empty_payload_is_refused() {
    assert_eq!(make_data_packs(Vec::new(), &constants(64)), Err(PacketizeError::Unencodable));
}

#[test]
fn zero_symbol_size_is_refused() {
    assert_eq!(make_data_packs(payload(10), &constants(0)), Err(PacketizeError::Unencodable));
}

#[test]
fn too_many_source_blocks_are_refused() {
    let data = vec![0u8; 56403 * 255 + 1];
    assert_eq!(make_data_packs(data, &constants(1)), Err(PacketizeError::Unencodable));
}

#[test]
fn largest_symbol_that_fits_a_matrix() {
    let packs = make_data_packs(payload(10), &constants(2951)).unwrap();
    assert_eq!(packs.len(), 1);
    assert_eq!(packs[0].len(), 2952);
    assert!(packs[0].len() <= MAX_PACKET_LEN);
}

#[test]
fn symbol_too_large_for_a_matrix() {
    assert_eq!(
        make_data_packs(payload(10), &constants(2952)),
        Err(PacketizeError::PacketTooLargeForMatrix { len: 2960, limit: 2953 })
    );
    assert_eq!(
        make_data_packs(payload(10), &constants(u16::MAX)),
        Err(PacketizeError::PacketTooLargeForMatrix { len: 65528 + 8, limit: 2953 })
    );
}

#[test]
fn packetizing_twice_gives_the_same_packets() {
    let first = make_data_packs(payload(300), &constants(32));
    let second = make_data_packs(payload(300), &constants(32));
    assert!(first.is_ok());
    assert_eq!(first, second);
}

#[test]
fn framing_puts_the_header_first() {
    let symbols = vec![vec![1u8, 2, 3], vec![4u8, 5, 6]];
    let packs = frame_symbols(&symbols, 5).unwrap();
    assert_eq!(packs, vec![vec![0x80, 0, 0, 5, 1, 2, 3], vec![0x80, 0, 0, 5, 4, 5, 6]]);
}

#[test]
fn framing_refuses_unequal_symbols() {
    let symbols = vec![vec![1u8, 2, 3], vec![4u8, 5]];
    assert_eq!(frame_symbols(&symbols, 5), Err(PacketizeError::UnequalPacketLength));
}

#[test]
fn framing_refuses_long_symbols() {
    let symbols = vec![vec![0u8; 2950], vec![1u8; 2950]];
    assert_eq!(
        frame_symbols(&symbols, 5),
        Err(PacketizeError::PacketTooLargeForMatrix { len: 2954, limit: 2953 })
    );
    let symbols = vec![vec![0u8; 2949]];
    assert_eq!(frame_symbols(&symbols, 5).unwrap()[0].len(), 2953);
}

#[test]
fn unequal_length_is_found_before_size() {
    let symbols = vec![vec![0u8; 3000], vec![1u8; 2999]];
    assert_eq!(frame_symbols(&symbols, 5), Err(PacketizeError::UnequalPacketLength));
}

#[test]
fn payload_of_many_symbols() {
    let packs = make_data_packs(payload(299), &constants(3)).unwrap();
    assert_eq!(packs.len(), 100 + 99);
    assert!(packs.iter().all(|p| p.len() == 11));
    assert!(packs.iter().all(|p| p[..4] == [0x80, 0x00, 0x01, 0x2b]));
}
