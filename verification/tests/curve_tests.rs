use argon_config::{matrix_mapper, ControlPoint, TempMatrixYAML};

fn points(raw: &[(u8, u8)]) -> TempMatrixYAML {
    raw.iter()
        .map(|&(temperature, speed)| ControlPoint { temperature, speed })
        .collect()
}

#[test]
fn compile_yields_101_entries_within_range() {
    let curve = matrix_mapper(&points(&[(55, 10), (60, 40), (65, 100)]));
    assert_eq!(curve.table.len(), 101);
    for &speed in &curve.table {
        assert!(speed <= 100);
    }
}

#[test]
fn compile_of_arbitrary_unordered_input_is_total_and_bounded() {
    let curve = matrix_mapper(&points(&[(90, 5), (10, 99), (40, 0), (40, 100)]));
    assert_eq!(curve.table.len(), 101);
    for &speed in &curve.table {
        assert!(speed <= 100);
    }
}

#[test]
fn monotonic_input_yields_nondecreasing_curve() {
    let curve = matrix_mapper(&points(&[(20, 5), (35, 17), (50, 42), (80, 96)]));
    for t in 1..=100usize {
        assert!(curve.table[t - 1] <= curve.table[t]);
    }
}

#[test]
fn compiling_twice_yields_byte_identical_tables() {
    let input = points(&[(12, 34), (56, 78), (90, 12), (56, 9)]);
    let first = matrix_mapper(&input);
    let second = matrix_mapper(&input);
    assert_eq!(first.table, second.table);
}

#[test]
fn boundary_points_map_exactly() {
    let curve = matrix_mapper(&points(&[(55, 10), (60, 40), (65, 100)]));
    for t in 0..=54usize {
        assert_eq!(curve.table[t], 0, "degree {} must be 0", t);
    }
    assert_eq!(curve.table[55], 10);
    assert_eq!(curve.table[57], 22);
    assert_eq!(curve.table[60], 40);
    for t in 65..=100usize {
        assert_eq!(curve.table[t], 100, "degree {} must be 100", t);
    }
}

#[test]
fn lookup_matches_table() {
    let curve = matrix_mapper(&points(&[(55, 10), (60, 40), (65, 100)]));
    assert_eq!(curve.get(57), 22);
    assert_eq!(curve.get(0), 0);
    assert_eq!(curve.get(100), 100);
}

#[test]
fn duplicate_temperature_keeps_lowest_speed() {
    let curve = matrix_mapper(&points(&[(50, 30), (50, 10), (70, 80)]));
    assert_eq!(curve.table[50], 10);
    assert_eq!(curve.table[70], 80);
    assert_eq!(curve.table[49], 0);
}

#[test]
fn all_points_on_one_temperature_collapse_to_a_step() {
    let curve = matrix_mapper(&points(&[(50, 20), (50, 30)]));
    for t in 0..50usize {
        assert_eq!(curve.table[t], 0);
    }
    for t in 50..=100usize {
        assert_eq!(curve.table[t], 20);
    }
}

#[test]
fn interpolation_rounds_ties_away_from_zero() {
    // between (0,0) and (4,2) the exact value at degree 1 is 0.5
    let curve = matrix_mapper(&points(&[(0, 0), (4, 2)]));
    assert_eq!(curve.table[1], 1);
    assert_eq!(curve.table[2], 1);
    assert_eq!(curve.table[3], 2);
}

#[test]
fn plateau_above_last_point_and_zero_below_first() {
    let curve = matrix_mapper(&points(&[(30, 25), (40, 75)]));
    for t in 0..30usize {
        assert_eq!(curve.table[t], 0);
    }
    assert_eq!(curve.table[30], 25);
    assert_eq!(curve.table[40], 75);
    for t in 41..=100usize {
        assert_eq!(curve.table[t], 75);
    }
}
