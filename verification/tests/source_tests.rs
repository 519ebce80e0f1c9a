use argon_config::source::{load_source, validate_matrix};
use argon_config::ValidationError;

const FULL_DOC: &str = "\
fan_config:
  interval: 2000
  hysteresis:
    amount: 5
    only_way_down: false
  matrix:
    - [55, 10]
    - [60, 40]
    - [65, 100]
shutdown_script:
  location: /usr/local/bin/my-shutdown
  args: [\"-h\", \"now\"]
reboot_script:
  location: /usr/local/bin/my-reboot
  args: []
";

#[test]
fn valid_document_loads_with_all_fields() {
    let cfg = load_source(&FULL_DOC.as_bytes().to_vec()).expect("document must load");
    assert_eq!(cfg.fan_config.interval, 2000);
    assert_eq!(cfg.fan_config.hysteresis.amount, 5);
    assert!(!cfg.fan_config.hysteresis.only_way_down);
    assert_eq!(cfg.fan_config.matrix.len(), 3);
    assert_eq!(cfg.fan_config.matrix[0].temperature, 55);
    assert_eq!(cfg.fan_config.matrix[0].speed, 10);
    assert_eq!(cfg.fan_config.matrix[2].temperature, 65);
    let shutdown = cfg.shutdown_script.expect("shutdown script present");
    assert_eq!(shutdown.location, "/usr/local/bin/my-shutdown");
    assert_eq!(shutdown.args, vec!["-h".to_string(), "now".to_string()]);
    let reboot = cfg.reboot_script.expect("reboot script present");
    assert_eq!(reboot.location, "/usr/local/bin/my-reboot");
    assert!(reboot.args.is_empty());
}

#[test]
fn scripts_are_optional() {
    let doc = "\
fan_config:
  interval: 1000
  hysteresis:
    amount: 4
    only_way_down: true
  matrix:
    - [55, 10]
    - [65, 100]
";
    let cfg = load_source(&doc.as_bytes().to_vec()).expect("document must load");
    assert!(cfg.shutdown_script.is_none());
    assert!(cfg.reboot_script.is_none());
    assert!(cfg.fan_config.hysteresis.only_way_down);
}

#[test]
fn single_control_point_is_too_few() {
    let doc = "\
fan_config:
  interval: 1000
  hysteresis:
    amount: 4
    only_way_down: true
  matrix:
    - [55, 10]
";
    let err = load_source(&doc.as_bytes().to_vec()).unwrap_err();
    assert_eq!(err, ValidationError::TooFewPoints);
}

#[test]
fn value_of_150_is_out_of_range() {
    let doc = "\
fan_config:
  interval: 1000
  hysteresis:
    amount: 4
    only_way_down: true
  matrix:
    - [55, 150]
    - [65, 100]
";
    let err = load_source(&doc.as_bytes().to_vec()).unwrap_err();
    assert_eq!(err, ValidationError::OutOfRange);
}

#[test]
fn temperature_of_300_is_out_of_range() {
    let doc = "\
fan_config:
  interval: 1000
  hysteresis:
    amount: 4
    only_way_down: true
  matrix:
    - [300, 10]
    - [65, 100]
";
    let err = load_source(&doc.as_bytes().to_vec()).unwrap_err();
    assert_eq!(err, ValidationError::OutOfRange);
}

#[test]
fn hysteresis_amount_over_100_is_out_of_range() {
    let doc = "\
fan_config:
  interval: 1000
  hysteresis:
    amount: 150
    only_way_down: true
  matrix:
    - [55, 10]
    - [65, 100]
";
    let err = load_source(&doc.as_bytes().to_vec()).unwrap_err();
    assert_eq!(err, ValidationError::OutOfRange);
}

#[test]
fn garbage_text_is_malformed() {
    let err = load_source(&b"{{{{ not yaml at all".to_vec()).unwrap_err();
    assert_eq!(err, ValidationError::Malformed);
}

#[test]
fn missing_interval_is_malformed() {
    let doc = "\
fan_config:
  hysteresis:
    amount: 4
    only_way_down: true
  matrix:
    - [55, 10]
    - [65, 100]
";
    let err = load_source(&doc.as_bytes().to_vec()).unwrap_err();
    assert_eq!(err, ValidationError::Malformed);
}

#[test]
fn three_element_row_is_malformed() {
    let doc = "\
fan_config:
  interval: 1000
  hysteresis:
    amount: 4
    only_way_down: true
  matrix:
    - [55, 10, 3]
    - [65, 100]
";
    let err = load_source(&doc.as_bytes().to_vec()).unwrap_err();
    assert_eq!(err, ValidationError::Malformed);
}

#[test]
fn negative_value_is_malformed() {
    let doc = "\
fan_config:
  interval: 1000
  hysteresis:
    amount: 4
    only_way_down: true
  matrix:
    - [-3, 10]
    - [65, 100]
";
    let err = load_source(&doc.as_bytes().to_vec()).unwrap_err();
    assert_eq!(err, ValidationError::Malformed);
}

#[test]
fn script_missing_location_is_malformed() {
    let doc = "\
fan_config:
  interval: 1000
  hysteresis:
    amount: 4
    only_way_down: true
  matrix:
    - [55, 10]
    - [65, 100]
shutdown_script:
  args: []
";
    let err = load_source(&doc.as_bytes().to_vec()).unwrap_err();
    assert_eq!(err, ValidationError::Malformed);
}

#[test]
fn validate_matrix_checks_count_before_range() {
    assert_eq!(
        validate_matrix(&vec![]).unwrap_err(),
        ValidationError::TooFewPoints
    );
    // a single out-of-range row still counts as too few first
    assert_eq!(
        validate_matrix(&vec![(200, 10)]).unwrap_err(),
        ValidationError::TooFewPoints
    );
    assert_eq!(
        validate_matrix(&vec![(55, 10), (200, 10)]).unwrap_err(),
        ValidationError::OutOfRange
    );
    let points = validate_matrix(&vec![(55, 10), (65, 100)]).expect("rows are valid");
    assert_eq!(points.len(), 2);
    assert_eq!(points[0].temperature, 55);
    assert_eq!(points[0].speed, 10);
    assert_eq!(points[1].temperature, 65);
    assert_eq!(points[1].speed, 100);
}

#[test]
fn null_script_counts_as_absent() {
    let doc = "\
fan_config:
  interval: 1000
  hysteresis:
    amount: 4
    only_way_down: true
  matrix:
    - [55, 10]
    - [65, 100]
shutdown_script: null
";
    let cfg = load_source(&doc.as_bytes().to_vec()).expect("document must load");
    assert!(cfg.shutdown_script.is_none());
}
