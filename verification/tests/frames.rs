use qr_fountain_gen::frame::{canvas_size, render_frame, Animation, CompositeError, Frame};
use qr_fountain_gen::matrix::ModuleMatrix;
use qr_fountain_gen::{make_apng, Constants};

fn constants(scaling: i32, border: i32) -> Constants {
    Constants {
        chunk_size: 64,
        main_color: 0x00,
        back_color: 0xff,
        scaling,
        fps_nom: 1,
        fps_den: 30,
        border,
    }
}

fn chessboard() -> ModuleMatrix {
    ModuleMatrix::from_rows(vec![
        vec![true, false, true],
        vec![false, true, false],
        vec![true, false, true],
    ])
    .unwrap()
}

fn corner() -> ModuleMatrix {
    ModuleMatrix::from_rows(vec![vec![false, true], vec![false, false]]).unwrap()
}

#[test]
fn canvas_of_three_modules_scaled_by_two_with_border_one() {
    assert_eq!(canvas_size(3, &constants(2, 1)), Some(3 * 2 + 2 * 1 * 2));
    assert_eq!(canvas_size(3, &constants(2, 1)), Some(10));
}

#[test]
fn canvas_of_a_code() {
    assert_eq!(canvas_size(21, &constants(4, 4)), Some(116));
    assert_eq!(canvas_size(177, &constants(1, 0)), Some(177));
    assert_eq!(canvas_size(0, &constants(3, 2)), Some(12));
}

#[test]
fn canvas_too_large_is_not_drawn() {
    assert_eq!(canvas_size(177, &constants(i32::MAX, 0)), None);
    assert_eq!(canvas_size(1, &constants(i32::MAX, i32::MAX)), None);
    assert_eq!(canvas_size(usize::MAX, &constants(1, 0)), None);
    assert_eq!(canvas_size(0x8000_0000, &constants(1, 0)), None);
    assert_eq!(canvas_size(1, &constants(i32::MAX, 0)), Some(i32::MAX as u32));
}

#[test]
fn chessboard_frame_has_border_ring_and_scaled_interior() {
    let pixels = render_frame(&chessboard(), &constants(2, 1));
    let b = 0x00u8;
    let w = 0xffu8;
    let expected: [[u8; 10]; 10] = [
        [w, w, w, w, w, w, w, w, w, w],
        [w, w, w, w, w, w, w, w, w, w],
        [w, w, b, b, w, w, b, b, w, w],
        [w, w, b, b, w, w, b, b, w, w],
        [w, w, w, w, b, b, w, w, w, w],
        [w, w, w, w, b, b, w, w, w, w],
        [w, w, b, b, w, w, b, b, w, w],
        [w, w, b, b, w, w, b, b, w, w],
        [w, w, w, w, w, w, w, w, w, w],
        [w, w, w, w, w, w, w, w, w, w],
    ];
    assert_eq!(pixels.len(), 100);
    for py in 0..10 {
        for px in 0..10 {
            assert_eq!(pixels[py * 10 + px], expected[py][px]);
        }
    }
}

#[test]
fn frame_without_border_or_scaling_is_the_matrix() {
    let pixels = render_frame(&chessboard(), &constants(1, 0));
    assert_eq!(pixels, vec![0, 255, 0, 255, 0, 255, 0, 255, 0]);
}

#[test]
fn pixel_of_column_x_row_y_stands_at_y_times_side_plus_x() {
    // The only dark module is in column 1 of row 0.
    let pixels = render_frame(&corner(), &constants(1, 0));
    assert_eq!(pixels, vec![255, 0, 255, 255]);
}

#[test]
fn frame_is_written_row_by_row() {
    // Column 1 of row 0, scaled by two: the right half of the two top rows.
    let pixels = render_frame(&corner(), &constants(2, 0));
    assert_eq!(
        pixels,
        vec![
            0xff, 0xff, 0x00, 0x00, //
            0xff, 0xff, 0x00, 0x00, //
            0xff, 0xff, 0xff, 0xff, //
            0xff, 0xff, 0xff, 0xff,
        ]
    );
}

#[test]
fn frame_of_a_matrix_that_is_not_symmetric() {
    let m = ModuleMatrix::from_rows(vec![
        vec![true, true, true],
        vec![false, false, true],
        vec![false, false, false],
    ])
    .unwrap();
    let pixels = render_frame(&m, &constants(1, 1));
    let b = 0x00u8;
    let w = 0xffu8;
    assert_eq!(
        pixels,
        vec![
            w, w, w, w, w, //
            w, b, b, b, w, //
            w, w, w, b, w, //
            w, w, w, w, w, //
            w, w, w, w, w,
        ]
    );
}

#[test]
fn colours_come_from_the_settings() {
    let mut c = constants(1, 1);
    c.main_color = 0x20;
    c.back_color = 0xd0;
    let pixels = render_frame(&corner(), &c);
    assert_eq!(pixels.len(), 16);
    let dark: Vec<usize> = (0..16).filter(|i| pixels[*i] == 0x20).collect();
    assert_eq!(dark, vec![1 * 4 + 2]);
    assert!(pixels.iter().all(|p| *p == 0x20 || *p == 0xd0));
}

#[test]
fn frame_of_empty_matrix_is_all_border() {
    let m = ModuleMatrix::from_rows(Vec::new()).unwrap();
    let pixels = render_frame(&m, &constants(2, 1));
    assert_eq!(pixels, vec![0xff; 16]);
}

#[test]
fn animation_has_one_frame_per_matrix() {
    let c = constants(2, 1);
    let animation = make_apng(vec![chessboard(), chessboard(), chessboard()], &c).unwrap();
    assert_eq!(animation.width, 10);
    assert_eq!(animation.height, 10);
    assert_eq!(animation.bit_depth, 8);
    assert_eq!(animation.frame_count, 3);
    assert_eq!(animation.frames.len(), 3);
    for frame in animation.frames.iter() {
        assert_eq!(frame.pixels.len(), 100);
        assert_eq!(frame.delay_num, 1);
        assert_eq!(frame.delay_den, 30);
        assert_eq!(frame.pixels, render_frame(&chessboard(), &c));
    }
}

#[test]
fn animation_keeps_the_order_of_the_matrices() {
    let c = constants(1, 0);
    let blank = ModuleMatrix::from_rows(vec![vec![false, false], vec![false, false]]).unwrap();
    let animation = make_apng(vec![corner(), blank], &c).unwrap();
    assert_eq!(
        animation,
        Animation {
            width: 2,
            height: 2,
            bit_depth: 8,
            frame_count: 2,
            frames: vec![
                Frame { pixels: vec![255, 0, 255, 255], delay_num: 1, delay_den: 30 },
                Frame { pixels: vec![255, 255, 255, 255], delay_num: 1, delay_den: 30 },
            ],
        }
    );
}

#[test]
fn matrices_of_different_sizes_are_refused() {
    let c = constants(2, 1);
    assert_eq!(
        make_apng(vec![chessboard(), corner()], &c),
        Err(CompositeError::InconsistentFrameSize)
    );
    assert_eq!(
        make_apng(vec![corner(), corner(), chessboard()], &c),
        Err(CompositeError::InconsistentFrameSize)
    );
}
