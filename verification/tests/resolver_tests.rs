use argon_config::codec::encode_document;
use argon_config::resolver::{cache_probe, resolve_after_delete, CachedOutcome};
use argon_config::source::load_source;
use argon_config::{
    load_argon_config, ArgonConfigRKYV, ArgonConfigValue, Resolution,
};

const SOURCE_DOC: &str = "\
fan_config:
  interval: 3000
  hysteresis:
    amount: 2
    only_way_down: false
  matrix:
    - [50, 20]
    - [70, 90]
";

fn doc_of(value: &ArgonConfigValue) -> &ArgonConfigRKYV {
    value.document()
}

#[test]
fn no_source_and_no_cache_yields_the_default_document() {
    let resolution = load_argon_config(None, &None, None, &None);
    match resolution {
        Resolution::Ready(value, write) => {
            assert!(write.is_none());
            let doc = doc_of(&value);
            assert_eq!(*doc, ArgonConfigRKYV::default());
            assert_eq!(doc.fan_config.interval, 10000);
            assert_eq!(doc.fan_config.hysteresis.amount, 4);
            assert!(doc.fan_config.hysteresis.only_way_down);
            assert!(doc.shutdown_script.is_none());
            assert!(doc.reboot_script.is_none());
            // the default curve comes from (55,10), (60,40), (65,100)
            assert_eq!(doc.fan_config.matrix.table[54], 0);
            assert_eq!(doc.fan_config.matrix.table[55], 10);
            assert_eq!(doc.fan_config.matrix.table[57], 22);
            assert_eq!(doc.fan_config.matrix.table[100], 100);
        }
        Resolution::CorruptCache => panic!("nothing was cached, nothing can be corrupt"),
    }
}

#[test]
fn valid_source_without_cache_builds_and_offers_a_record() {
    let source = SOURCE_DOC.as_bytes().to_vec();
    let resolution = load_argon_config(Some(100), &Some(source.clone()), None, &None);
    let (value, write) = match resolution {
        Resolution::Ready(value, write) => (value, write),
        Resolution::CorruptCache => panic!("no cache record was supplied"),
    };
    let record = write.expect("a freshly built document comes with its record");

    // the document equals what loading and compiling directly yields
    let raw = load_source(&source).expect("the source document is valid");
    let direct = argon_config::config::build_document(raw);
    assert_eq!(*doc_of(&value), direct);
    assert_eq!(record, encode_document(&direct));

    // a later run that finds the record fresh returns the identical
    // document without looking at the source at all
    let second = load_argon_config(Some(100), &None, Some(200), &Some(record));
    match second {
        Resolution::Ready(cached_value, cached_write) => {
            assert!(cached_write.is_none());
            assert!(matches!(cached_value, ArgonConfigValue::Archived(_)));
            assert_eq!(*doc_of(&cached_value), direct);
        }
        Resolution::CorruptCache => panic!("the record was just written"),
    }
}

#[test]
fn corrupt_fresh_cache_demands_deletion_then_rebuilds() {
    let source = SOURCE_DOC.as_bytes().to_vec();
    let garbage = vec![1u8, 2, 3, 4, 5];
    let resolution = load_argon_config(Some(100), &Some(source.clone()), Some(200), &Some(garbage));
    assert!(matches!(resolution, Resolution::CorruptCache));

    // deletion succeeded: rebuild from the source as on a miss
    let (value, write) = resolve_after_delete(true, &Some(source.clone()));
    let raw = load_source(&source).expect("the source document is valid");
    let direct = argon_config::config::build_document(raw);
    assert_eq!(*doc_of(&value), direct);
    assert!(write.is_some());

    // source unreadable at that point: fall back to the default
    let (value, write) = resolve_after_delete(true, &None);
    assert_eq!(*doc_of(&value), ArgonConfigRKYV::default());
    assert!(write.is_none());
}

#[test]
fn failed_deletion_falls_back_to_the_default() {
    let source = SOURCE_DOC.as_bytes().to_vec();
    let (value, write) = resolve_after_delete(false, &Some(source));
    assert_eq!(*doc_of(&value), ArgonConfigRKYV::default());
    assert!(write.is_none());
}

#[test]
fn stale_cache_is_ignored_and_source_wins() {
    let source = SOURCE_DOC.as_bytes().to_vec();
    let stale_record = encode_document(&ArgonConfigRKYV::default());
    let resolution = load_argon_config(Some(300), &Some(source.clone()), Some(200), &Some(stale_record));
    let (value, write) = match resolution {
        Resolution::Ready(value, write) => (value, write),
        Resolution::CorruptCache => panic!("a stale record is a miss, not a corruption"),
    };
    let raw = load_source(&source).expect("the source document is valid");
    let direct = argon_config::config::build_document(raw);
    assert_eq!(*doc_of(&value), direct);
    assert!(write.is_some());
}

#[test]
fn invalid_source_falls_back_to_the_default() {
    let bad = "\
fan_config:
  interval: 1000
  hysteresis:
    amount: 4
    only_way_down: true
  matrix:
    - [55, 10]
"
    .as_bytes()
    .to_vec();
    let resolution = load_argon_config(Some(1), &Some(bad), None, &None);
    match resolution {
        Resolution::Ready(value, write) => {
            assert_eq!(*doc_of(&value), ArgonConfigRKYV::default());
            assert!(write.is_none());
        }
        Resolution::CorruptCache => panic!("no cache record was supplied"),
    }
}

#[test]
fn probe_classifies_hit_miss_and_corrupt() {
    let record = encode_document(&ArgonConfigRKYV::default());
    match cache_probe(Some(5), Some(5), &Some(record.clone())) {
        CachedOutcome::Hit(doc) => assert_eq!(doc, ArgonConfigRKYV::default()),
        _ => panic!("an equal timestamp counts as fresh"),
    }
    assert!(matches!(cache_probe(Some(6), Some(5), &Some(record.clone())), CachedOutcome::Miss));
    assert!(matches!(cache_probe(None, Some(5), &Some(record.clone())), CachedOutcome::Miss));
    assert!(matches!(cache_probe(Some(5), Some(9), &None), CachedOutcome::Miss));
    assert!(matches!(
        cache_probe(Some(5), Some(9), &Some(vec![0xA7, 0x46])),
        CachedOutcome::Corrupt
    ));
}
