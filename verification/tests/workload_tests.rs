use rust_perf_comp::workload::{arg_ratio_to_u16, count_true, fill_vecs, AppArgs};

fn args(ratio: u16, rnd_cmp: bool) -> AppArgs {
    AppArgs { seed: 7, N: 10, ratio, rnd_cmp }
}

#[test]
fn random_ratio_scales_to_byte_threshold() {
    assert_eq!(arg_ratio_to_u16(&args(100, true)), 256);
    assert_eq!(arg_ratio_to_u16(&args(0, true)), 0);
    assert_eq!(arg_ratio_to_u16(&args(50, true)), 127);
    assert_eq!(arg_ratio_to_u16(&args(20, true)), 51);
    assert_eq!(arg_ratio_to_u16(&args(99, true)), 252);
}

#[test]
fn modulo_ratio_maps_to_divisor() {
    assert_eq!(arg_ratio_to_u16(&args(0, false)), u16::MAX);
    assert_eq!(arg_ratio_to_u16(&args(100, false)), 1);
    assert_eq!(arg_ratio_to_u16(&args(51, false)), 1);
    assert_eq!(arg_ratio_to_u16(&args(50, false)), 2);
    assert_eq!(arg_ratio_to_u16(&args(34, false)), 2);
    assert_eq!(arg_ratio_to_u16(&args(33, false)), 3);
    assert_eq!(arg_ratio_to_u16(&args(25, false)), 4);
    assert_eq!(arg_ratio_to_u16(&args(20, false)), 5);
    assert_eq!(arg_ratio_to_u16(&args(17, false)), 6);
    assert_eq!(arg_ratio_to_u16(&args(15, false)), 7);
    assert_eq!(arg_ratio_to_u16(&args(13, false)), 8);
    assert_eq!(arg_ratio_to_u16(&args(1, false)), 20);
}

#[test]
fn byte_threshold_agrees_with_floating_point_scaling() {
    // The integer scaling used for the byte threshold agrees with
    // truncated single-precision scaling over the whole allowed range.
    for ratio in 0..=99u16 {
        let expected = (u8::MAX as f32 / 100.0 * ratio as f32) as u16;
        assert_eq!(arg_ratio_to_u16(&args(ratio, true)), expected);
    }
}

#[test]
fn full_random_ratio_marks_everything() {
    let (_, _, bools) = fill_vecs(&args(100, true));
    assert_eq!(bools, vec![true; 10]);
    let (_, _, bools) = fill_vecs(&args(0, true));
    assert_eq!(bools, vec![false; 10]);
}

#[test]
fn fill_vecs_fills_all_three_vectors() {
    let a = args(50, true);
    let (v1, v2, bools) = fill_vecs(&a);
    assert_eq!(v1.len(), 10);
    assert_eq!(v2.len(), 10);
    assert_eq!(bools.len(), 10);
}

#[test]
fn deterministic_comparison_marks_divisor_multiples() {
    // Ratio 50 turns into divisor 2: every second position is true.
    let a = args(50, false);
    let (_, _, bools) = fill_vecs(&a);
    assert_eq!(
        bools,
        vec![false, true, false, true, false, true, false, true, false, true]
    );
}

#[test]
fn zero_ratio_marks_nothing_for_small_inputs() {
    let a = args(0, false);
    let (_, _, bools) = fill_vecs(&a);
    assert_eq!(bools, vec![false; 10]);
}

#[test]
fn count_true_counts() {
    assert_eq!(count_true(&vec![true, false, true, true]), 3);
    assert_eq!(count_true(&vec![]), 0);
    assert_eq!(count_true(&vec![false]), 0);
}
