use reaction_diffusion::kinetics::{
    constrain, laplacian, react, DIFFUSION_A, DIFFUSION_B, FEED, KILL, RATE_UNIT, WEIGHT_CENTER,
    WEIGHT_DIAGONAL, WEIGHT_ORTHOGONAL,
};
use reaction_diffusion::{Cell, SCALE};

#[test]
fn scale_is_two_to_the_twenty_fourth() {
    assert_eq!(SCALE, 1 << 24);
}

#[test]
fn rates_are_the_documented_ones() {
    assert_eq!(DIFFUSION_A as f64 / RATE_UNIT as f64, 1.0);
    assert_eq!(DIFFUSION_B as f64 / RATE_UNIT as f64, 0.5);
    assert_eq!(FEED as f64 / RATE_UNIT as f64, 0.055);
    assert_eq!(KILL as f64 / RATE_UNIT as f64, 0.062);
}

#[test]
fn weights_sum_to_zero() {
    assert_eq!(WEIGHT_CENTER, -1000);
    assert_eq!(WEIGHT_ORTHOGONAL, 200);
    assert_eq!(WEIGHT_DIAGONAL, 50);
    assert_eq!(WEIGHT_CENTER + 4 * WEIGHT_ORTHOGONAL + 4 * WEIGHT_DIAGONAL, 0);
}

#[test]
fn constrain_holds_a_value_within_its_limits() {
    assert_eq!(constrain(-5, 0, 10), 0);
    assert_eq!(constrain(0, 0, 10), 0);
    assert_eq!(constrain(7, 0, 10), 7);
    assert_eq!(constrain(10, 0, 10), 10);
    assert_eq!(constrain(11, 0, 10), 10);
    assert_eq!(constrain(3, 3, 3), 3);
    assert_eq!(constrain(i128::MIN, -1, 1), -1);
    assert_eq!(constrain(i128::MAX, -1, 1), 1);
}

#[test]
fn laplacian_weighs_the_neighbourhood() {
    assert_eq!(laplacian(10, [1, 2, 3, 4], [5, 6, 7, 8]), -6700);
    assert_eq!(laplacian(0, [0, 0, 0, 0], [0, 0, 0, 0]), 0);
    assert_eq!(laplacian(SCALE, [0, 0, 0, 0], [0, 0, 0, 0]), -16_777_216_000);
    assert_eq!(laplacian(0, [SCALE; 4], [SCALE; 4]), 16_777_216_000);
    assert_eq!(laplacian(0, [5, 0, 0, 0], [0, 0, 0, 0]), 1000);
    assert_eq!(laplacian(0, [0, 0, 0, 0], [0, 0, 0, 4]), 200);
}

#[test]
fn laplacian_of_a_flat_neighbourhood_is_zero() {
    for value in [0, 1, 12345, SCALE / 2, SCALE, u32::MAX] {
        assert_eq!(laplacian(value, [value; 4], [value; 4]), 0);
    }
}

#[test]
fn resting_cell_stays_at_rest() {
    let rest = Cell { a: SCALE, b: 0 };
    assert_eq!(react(rest, 0, 0), rest);
}

#[test]
fn react_gives_the_exact_rounded_values() {
    assert_eq!(
        react(Cell { a: SCALE, b: 0 }, 0, 838_860_800),
        Cell { a: SCALE, b: 419_430 }
    );
    assert_eq!(react(Cell { a: 0, b: 0 }, 0, 0), Cell { a: 922_746, b: 0 });
    assert_eq!(
        react(Cell { a: SCALE / 2, b: SCALE / 2 }, 0, 0),
        Cell { a: 6_752_829, b: 9_504_292 }
    );
    assert_eq!(
        react(Cell { a: SCALE / 2, b: SCALE / 4 }, -1_234_567_890, 987_654_321),
        Cell { a: 7_091_125, b: 4_721_685 }
    );
    assert_eq!(
        react(Cell { a: 7_618_376, b: 3_622_909 }, -418_376_000, -422_909_000),
        Cell { a: 7_348_483, b: 3_342_826 }
    );
}

#[test]
fn react_follows_the_formula_in_real_numbers() {
    let (a, b) = (0.5f64, 0.25f64);
    let unit = RATE_UNIT as f64 * SCALE as f64;
    let (lap_a, lap_b) = (-1_234_567_890f64 / unit, 987_654_321f64 / unit);
    let want_a = a + 1.0 * lap_a - a * b * b + 0.055 * (1.0 - a);
    let want_b = b + 0.5 * lap_b + a * b * b - (0.062 + 0.055) * b;
    let got = react(Cell { a: SCALE / 2, b: SCALE / 4 }, -1_234_567_890, 987_654_321);
    assert!((got.a as f64 / SCALE as f64 - want_a).abs() < 1e-6);
    assert!((got.b as f64 / SCALE as f64 - want_b).abs() < 1e-6);
}

#[test]
fn react_clamps_at_both_ends() {
    assert_eq!(
        react(Cell { a: SCALE, b: SCALE }, 0, -9_227_468_800),
        Cell { a: 0, b: SCALE }
    );
    assert_eq!(react(Cell { a: SCALE, b: SCALE }, 0, 0), Cell { a: 0, b: SCALE });
    assert_eq!(
        react(Cell { a: u32::MAX, b: u32::MAX }, i64::MAX, i64::MIN),
        Cell { a: SCALE, b: 0 }
    );
    assert_eq!(
        react(Cell { a: u32::MAX, b: u32::MAX }, i64::MIN, i64::MAX),
        Cell { a: 0, b: SCALE }
    );
}

#[test]
fn react_stays_within_range() {
    let levels = [0, 1, SCALE / 3, SCALE / 2, SCALE - 1, SCALE];
    let laps = [-16_777_216_000i64, -1, 0, 1, 16_777_216_000];
    for a in levels {
        for b in levels {
            for lap_a in laps {
                for lap_b in laps {
                    let next = react(Cell { a, b }, lap_a, lap_b);
                    assert!(next.a <= SCALE && next.b <= SCALE);
                }
            }
        }
    }
}

#[test]
fn default_cell_is_the_resting_cell() {
    assert_eq!(Cell::default(), Cell { a: SCALE, b: 0 });
}

#[test]
fn contrast_gives_the_exact_floor() {
    assert_eq!(Cell { a: SCALE, b: 0 }.contrast(), 255);
    assert_eq!(Cell { a: SCALE, b: 419_430 }.contrast(), 248);
    assert_eq!(Cell { a: SCALE / 2 + SCALE / 4, b: SCALE / 4 }.contrast(), 127);
    assert_eq!(Cell { a: SCALE, b: SCALE / 2 }.contrast(), 127);
    assert_eq!(Cell { a: 13_421_773, b: 0 }.contrast(), 204);
    assert_eq!(Cell { a: 3_355_444, b: 0 }.contrast(), 51);
    assert_eq!(Cell { a: 3_355_443, b: 0 }.contrast(), 50);
}

#[test]
fn contrast_is_held_within_its_range() {
    assert_eq!(Cell { a: 0, b: SCALE }.contrast(), 0);
    assert_eq!(Cell { a: 5, b: 5 }.contrast(), 0);
    assert_eq!(Cell { a: 0, b: 1 }.contrast(), 0);
    assert_eq!(Cell { a: u32::MAX, b: 0 }.contrast(), 255);
    assert_eq!(Cell { a: 0, b: u32::MAX }.contrast(), 0);
}
