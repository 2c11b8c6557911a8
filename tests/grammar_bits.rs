use colag_sim::grammar::{get_param, grammar_of_flips, set_param, toggled, NUM_PARAMS};

#[test]
fn get_param_reads_bit_twelve_minus_p() {
    let g: u16 = 0b1_0000_0000_0001;
    assert_eq!(get_param(&g, 0), 1);
    assert_eq!(get_param(&g, 12), 1);
    for p in 1..12 {
        assert_eq!(get_param(&g, p), 0);
    }
    assert_eq!(get_param(&611, 3), 1);
    assert_eq!(get_param(&611, 4), 0);
}

#[test]
fn set_param_is_bitwise_or() {
    assert_eq!(set_param(0, 0), 0b1_0000_0000_0000);
    assert_eq!(set_param(0, 12), 1);
    // Setting a parameter that is already on leaves the grammar alone.
    assert_eq!(set_param(1, 12), 1);
    assert_eq!(set_param(611, 3), 611);
}

#[test]
fn toggled_flips_one_bit() {
    assert_eq!(toggled(&0, 12), 1);
    assert_eq!(toggled(&1, 12), 0);
    assert_eq!(toggled(&611, 0), 611 + 4096);
}

#[test]
fn set_after_toggle_turns_parameter_on() {
    for g in [0u16, 1, 611, 4095, 8191] {
        for p in 0..NUM_PARAMS {
            let flipped = toggled(&g, p);
            assert_eq!(get_param(&set_param(flipped, p), p), 1);
        }
    }
}

#[test]
fn flips_extremes() {
    assert_eq!(grammar_of_flips(&[false; NUM_PARAMS]), 0);
    assert_eq!(grammar_of_flips(&[true; NUM_PARAMS]), 0b1_1111_1111_1111);
}

#[test]
fn flips_build_english() {
    // 611 = 0b0_0010_0110_0011: parameters 3, 6, 7, 11 and 12
    let mut flips = [false; NUM_PARAMS];
    for p in [3usize, 6, 7, 11, 12] {
        flips[p] = true;
    }
    assert_eq!(grammar_of_flips(&flips), 611);
}
