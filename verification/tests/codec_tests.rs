use argon_config::codec::{decode_document, encode_document};
use argon_config::{
    matrix_mapper, ArgonConfigRKYV, ControlPoint, FanConfigRKYV, Hysteresis, PowerScript,
};

fn sample_document() -> ArgonConfigRKYV {
    let points = vec![
        ControlPoint { temperature: 55, speed: 10 },
        ControlPoint { temperature: 60, speed: 40 },
        ControlPoint { temperature: 65, speed: 100 },
    ];
    ArgonConfigRKYV {
        fan_config: FanConfigRKYV {
            interval: 2500,
            hysteresis: Hysteresis { amount: 6, only_way_down: false },
            matrix: matrix_mapper(&points),
        },
        shutdown_script: Some(PowerScript {
            location: "/sbin/halt-now".to_string(),
            args: vec!["-x".to_string(), "später".to_string()],
        }),
        reboot_script: None,
    }
}

#[test]
fn record_round_trips_to_the_same_document() {
    let doc = sample_document();
    let record = encode_document(&doc);
    let decoded = decode_document(&record).expect("own record must decode");
    assert_eq!(decoded, doc);
}

#[test]
fn default_document_round_trips() {
    let doc = ArgonConfigRKYV::default();
    let record = encode_document(&doc);
    let decoded = decode_document(&record).expect("own record must decode");
    assert_eq!(decoded, doc);
}

#[test]
fn encoding_is_deterministic() {
    let doc = sample_document();
    assert_eq!(encode_document(&doc), encode_document(&doc));
}

#[test]
fn empty_record_is_rejected() {
    assert!(decode_document(&Vec::new()).is_none());
}

#[test]
fn truncated_record_is_rejected() {
    let mut record = encode_document(&sample_document());
    record.truncate(record.len() - 1);
    assert!(decode_document(&record).is_none());
    record.truncate(20);
    assert!(decode_document(&record).is_none());
}

#[test]
fn trailing_byte_is_rejected() {
    let mut record = encode_document(&sample_document());
    record.push(0);
    assert!(decode_document(&record).is_none());
}

#[test]
fn wrong_magic_is_rejected() {
    let mut record = encode_document(&sample_document());
    record[0] ^= 0xff;
    assert!(decode_document(&record).is_none());
}

#[test]
fn out_of_range_hysteresis_amount_is_rejected() {
    let mut record = encode_document(&sample_document());
    // the hysteresis amount sits right after the magic and the interval
    record[12] = 150;
    assert!(decode_document(&record).is_none());
}

#[test]
fn out_of_range_curve_entry_is_rejected() {
    let mut record = encode_document(&sample_document());
    // the curve table starts after magic, interval and hysteresis
    record[14] = 101;
    assert!(decode_document(&record).is_none());
}

#[test]
fn invalid_utf8_in_a_script_location_is_rejected() {
    let mut record = encode_document(&sample_document());
    // the shutdown script's location bytes start after the presence
    // byte and the length prefix that follow the 115-byte fixed head
    assert_eq!(record[115], 1);
    record[124] = 0xff;
    assert!(decode_document(&record).is_none());
}

#[test]
fn garbage_bytes_are_rejected() {
    let garbage: Vec<u8> = (0..200u32).map(|i| (i * 37 % 251) as u8).collect();
    assert!(decode_document(&garbage).is_none());
}
