use chladni::basis::Basis;
use chladni::field::{
    blank, cell_gray, coordinate, evaluate, evaluate_serial, gray_level, interference_at,
    paint_cell, phase_slot, CHANNELS, MID_GRAY, UNIT_SQ,
};
use chladni::settings::Settings;

fn sampled(side: usize) -> Basis {
    let mut sin = Vec::new();
    let mut cos = Vec::new();
    for k in 0..2 * side {
        let phase = std::f64::consts::PI * (k as f64) / (side as f64);
        sin.push((phase.sin() * 1_000_000.0).round() as i32);
        cos.push((phase.cos() * 1_000_000.0).round() as i32);
    }
    Basis::new(side, sin, cos).expect("sampled tables are well formed")
}

fn pixel(buf: &[u8], side: usize, px: usize, py: usize) -> [u8; 3] {
    let at = CHANNELS * (py * side + px);
    [buf[at], buf[at + 1], buf[at + 2]]
}

#[test]
fn coordinate_runs_from_minus_side_in_steps_of_two() {
    assert_eq!(coordinate(4, 0), -4);
    assert_eq!(coordinate(4, 1), -2);
    assert_eq!(coordinate(4, 2), 0);
    assert_eq!(coordinate(4, 3), 2);
    assert_eq!(coordinate(720, 180), -360);
    assert_eq!(coordinate(1, 0), -1);
}

#[test]
fn phase_slot_wraps_into_one_period() {
    assert_eq!(phase_slot(4, 1, 0), 4);
    assert_eq!(phase_slot(4, 1, 2), 0);
    assert_eq!(phase_slot(4, 3, 1), 2);
    assert_eq!(phase_slot(4, 9, 3), 2);
    assert_eq!(phase_slot(4, 9, 0), 4);
    assert_eq!(phase_slot(8, 2, 5), 4);
}

#[test]
fn gray_level_of_zero_is_white() {
    assert_eq!(gray_level(0), 255);
}

#[test]
fn gray_level_follows_the_magnitude() {
    assert_eq!(gray_level(UNIT_SQ / 4), 192);
    assert_eq!(gray_level(-UNIT_SQ / 4), 192);
    assert_eq!(gray_level(UNIT_SQ / 2), 128);
    assert_eq!(gray_level(-707_107_000_000), 75);
    assert_eq!(gray_level(UNIT_SQ - 1), 1);
    assert_eq!(gray_level(3_921_568_627), 255);
    assert_eq!(gray_level(3_921_568_628), 254);
}

#[test]
fn gray_level_saturates_beyond_one() {
    assert_eq!(gray_level(UNIT_SQ), 0);
    assert_eq!(gray_level(-UNIT_SQ), 0);
    assert_eq!(gray_level(UNIT_SQ + UNIT_SQ / 2), 0);
    assert_eq!(gray_level(-(UNIT_SQ + UNIT_SQ / 2)), 0);
    assert_eq!(gray_level(2 * UNIT_SQ), 0);
    assert_eq!(gray_level(i64::MAX), 0);
    assert_eq!(gray_level(i64::MIN), 0);
}

#[test]
fn centre_of_first_modes_is_white() {
    let basis = sampled(4);
    let s = Settings { n: 1, m: 1, cos: false };
    assert_eq!(interference_at(&basis, s, 2, 2), 0);
    assert_eq!(cell_gray(&basis, s, 2, 2), 255);
}

#[test]
fn cell_values_of_a_cosine_pattern() {
    let basis = sampled(8);
    let s = Settings { n: 1, m: 2, cos: true };
    assert_eq!(interference_at(&basis, s, 5, 6), -707_107_000_000);
    assert_eq!(cell_gray(&basis, s, 5, 6), 75);
}

#[test]
fn cell_values_of_a_sine_pattern() {
    let basis = sampled(8);
    let s = Settings { n: 1, m: 2, cos: false };
    assert_eq!(interference_at(&basis, s, 5, 6), -1_000_000_000_000);
    assert_eq!(cell_gray(&basis, s, 5, 6), 0);
    assert_eq!(interference_at(&basis, s, 5, 7), -1_414_214_000_000);
    assert_eq!(cell_gray(&basis, s, 5, 7), 0);
    assert_eq!(cell_gray(&basis, s, 5, 5), 255);
}

#[test]
fn equal_modes_give_a_white_picture() {
    let basis = sampled(8);
    let buf = evaluate(&basis, Settings { n: 3, m: 3, cos: false });
    assert_eq!(buf.len(), 3 * 8 * 8);
    assert!(buf.iter().all(|&g| g == 255));
    let buf = evaluate(&basis, Settings { n: 7, m: 7, cos: true });
    assert!(buf.iter().all(|&g| g == 255));
}

#[test]
fn evaluate_writes_each_cell_to_three_channels() {
    let side = 8;
    let basis = sampled(side);
    let s = Settings { n: 1, m: 2, cos: true };
    let buf = evaluate(&basis, s);
    assert_eq!(buf.len(), CHANNELS * side * side);
    for py in 0..side {
        for px in 0..side {
            let g = cell_gray(&basis, s, px, py);
            assert_eq!(pixel(&buf, side, px, py), [g, g, g]);
        }
    }
    assert_eq!(pixel(&buf, side, 5, 6), [75, 75, 75]);
}

#[test]
fn evaluate_overwrites_every_byte_of_the_blank_buffer() {
    let basis = sampled(8);
    let buf = evaluate(&basis, Settings { n: 3, m: 3, cos: false });
    assert_ne!(buf, blank(8));
    assert!(buf.iter().all(|&g| g != MID_GRAY));
}

#[test]
fn parallel_and_serial_pictures_agree() {
    let basis = sampled(16);
    for (n, m, cos) in [(1, 2, false), (2, 5, true), (9, 4, false), (6, 6, true)] {
        let s = Settings { n, m, cos };
        assert_eq!(evaluate(&basis, s), evaluate_serial(&basis, s));
    }
}

#[test]
fn two_evaluations_are_identical() {
    let basis = sampled(16);
    let s = Settings { n: 4, m: 7, cos: false };
    assert_eq!(evaluate(&basis, s), evaluate(&basis, s));
    assert_eq!(evaluate(&sampled(16), s), evaluate(&basis, s));
}

#[test]
fn swapping_modes_and_transposing_gives_the_same_picture() {
    let side = 8;
    let basis = sampled(side);
    for (n, m, cos) in [(2, 5, false), (1, 4, true), (9, 3, false)] {
        let a = evaluate(&basis, Settings { n, m, cos });
        let b = evaluate(&basis, Settings { n: m, m: n, cos });
        for py in 0..side {
            for px in 0..side {
                assert_eq!(pixel(&a, side, px, py), pixel(&b, side, py, px));
            }
        }
        assert_eq!(a, b);
    }
}

#[test]
fn a_finer_grid_agrees_on_the_shared_sample_points() {
    let coarse = sampled(4);
    let fine = sampled(8);
    for (n, m, cos) in [(1, 2, false), (2, 3, true), (5, 8, false)] {
        let s = Settings { n, m, cos };
        let a = evaluate(&coarse, s);
        let b = evaluate(&fine, s);
        for py in 0..4 {
            for px in 0..4 {
                assert_eq!(pixel(&a, 4, px, py), pixel(&b, 8, 2 * px, 2 * py));
            }
        }
    }
}

#[test]
fn blank_is_mid_gray_throughout() {
    assert_eq!(MID_GRAY, 128);
    assert_eq!(blank(3), vec![128u8; 27]);
    assert_eq!(blank(0), Vec::<u8>::new());
}

#[test]
fn smallest_grid_has_one_cell() {
    let basis = Basis::new(1, vec![0, 0], vec![1_000_000, -1_000_000]).expect("well formed");
    let buf = evaluate(&basis, Settings { n: 1, m: 2, cos: true });
    assert_eq!(buf, vec![255, 255, 255]);
}

#[test]
fn paint_cell_counts_cells_row_after_row() {
    let basis = sampled(8);
    let s = Settings { n: 1, m: 2, cos: true };
    let mut rgb = [1u8, 2, 3];
    paint_cell(&mut rgb, &basis, s, 6 * 8 + 5);
    assert_eq!(rgb, [75, 75, 75]);
    paint_cell(&mut rgb, &basis, s, 0);
    let g = cell_gray(&basis, s, 0, 0);
    assert_eq!(rgb, [g, g, g]);
}
