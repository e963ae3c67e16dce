use rift::collections::VecMap;
use rift::ids::{SpaceId, WindowId};
use rift::layout_engine::engine::LayoutEngine;
use rift::layout_engine::snapshot::{Arrangement, Loaded, Snapshot, SNAPSHOT_VERSION};

fn arrangement() -> Arrangement {
    Arrangement {
        engine: LayoutEngine::new(),
        spaces: VecMap::new(),
        windows: VecMap::new(),
        topmost: vec![WindowId::new(1, 1)],
    }
}

/// What parsing the text of a file comes to, for files without arrangements.
fn parse(contents: &str) -> Loaded {
    match ron::from_str::<ron::Value>(contents) {
        Ok(ron::Value::Map(fields)) => {
            for (key, value) in fields {
                if let (ron::Value::String(name), ron::Value::Number(number)) = (key, value) {
                    if name == "version" {
                        return Loaded::Parsed(Snapshot {
                            version: number.into_f64() as u32,
                            arrangements: VecMap::new(),
                        });
                    }
                }
            }
            Loaded::ParseFailed
        }
        _ => Loaded::ParseFailed,
    }
}

#[test]
fn missing_file_loads_fresh_default() {
    let loaded = Snapshot::load_or_default(Loaded::ReadFailed);
    assert_eq!(loaded.version, SNAPSHOT_VERSION);
    assert!(loaded.arrangements.is_empty());
}

#[test]
fn garbage_file_recovers_to_fresh_default() {
    let loaded = Snapshot::load_or_default(parse("this is not valid ron {{{"));
    assert_eq!(loaded.version, SNAPSHOT_VERSION);
    assert!(loaded.arrangements.is_empty());
}

#[test]
fn version_mismatch_discards_and_loads_fresh() {
    // A syntactically valid snapshot from a hypothetical future version.
    let parsed = parse("(version:999,arrangements:{})");
    assert!(matches!(&parsed, Loaded::Parsed(s) if s.version == 999));
    let loaded = Snapshot::load_or_default(parsed);
    assert_eq!(loaded.version, SNAPSHOT_VERSION);
    assert!(loaded.arrangements.is_empty());
}

#[test]
fn a_newer_version_with_arrangements_is_discarded_whole() {
    let mut snapshot = Snapshot::default();
    snapshot.insert_arrangement("display".to_string(), arrangement());
    snapshot.version = SNAPSHOT_VERSION + 1;
    let loaded = Snapshot::load_or_default(Loaded::Parsed(snapshot));
    assert_eq!(loaded.version, SNAPSHOT_VERSION);
    assert!(loaded.arrangements.is_empty());
}

#[test]
fn the_current_version_is_kept() {
    let mut snapshot = Snapshot::default();
    snapshot.insert_arrangement("display".to_string(), arrangement());
    let loaded = Snapshot::load_or_default(Loaded::Parsed(snapshot));
    assert_eq!(loaded.arrangements.len(), 1);
    let kept = loaded.arrangements.get(&"display".to_string()).unwrap();
    assert_eq!(kept.topmost, vec![WindowId::new(1, 1)]);
}

#[test]
fn inserting_an_arrangement_keeps_the_others() {
    let mut snapshot = Snapshot::default();
    snapshot.insert_arrangement("a".to_string(), arrangement());
    snapshot.insert_arrangement("b".to_string(), arrangement());
    let mut newer = arrangement();
    newer.topmost = vec![];
    newer.spaces.insert(SpaceId::new(3), ("u".to_string(), 0));
    snapshot.insert_arrangement("a".to_string(), newer);
    assert_eq!(snapshot.arrangements.len(), 2);
    assert!(snapshot.arrangements.get(&"a".to_string()).unwrap().topmost.is_empty());
    assert_eq!(snapshot.arrangements.get(&"b".to_string()).unwrap().topmost.len(), 1);
}
