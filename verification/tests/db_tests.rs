use libredefender::config::HumanSize;
use libredefender::db::{Data, Database, Threats};
use libredefender::errors::Error;

fn record_eicar_run(data: &mut Data) {
    data.begin_run();
    data.record_threat("/tmp/eicar.txt".to_string(), "Win.Test.EICAR_HDB-1".to_string());
    data.record_threat("/tmp/eicar.txt".to_string(), "Win.Test.EICAR_MSB-1".to_string());
    data.record_threat("/tmp/other".to_string(), "Win.Test.EICAR_HDB-1".to_string());
    data.finish_run(1_620_000_000);
}

#[test]
fn threat_record_accumulates_names_per_path() {
    let mut threats = Threats::new();
    assert!(threats.is_empty());
    threats.record("/a".to_string(), "Sig1".to_string());
    threats.record("/a".to_string(), "Sig2".to_string());
    threats.record("/b".to_string(), "Sig1".to_string());
    assert_eq!(threats.len(), 2);
    assert!(!threats.is_empty());
    let names = threats.get(&"/a".to_string()).unwrap();
    assert_eq!(names, &vec!["Sig1".to_string(), "Sig2".to_string()]);
    let names = threats.get(&"/b".to_string()).unwrap();
    assert_eq!(names, &vec!["Sig1".to_string()]);
    assert!(threats.get(&"/c".to_string()).is_none());
}

#[test]
fn threat_record_remove() {
    let mut threats = Threats::new();
    threats.record("/a".to_string(), "Sig1".to_string());
    threats.record("/b".to_string(), "Sig2".to_string());
    threats.remove(&"/a".to_string());
    assert_eq!(threats.len(), 1);
    assert!(threats.get(&"/a".to_string()).is_none());
    assert!(threats.get(&"/b".to_string()).is_some());
    // Removing an unknown path changes nothing.
    threats.remove(&"/missing".to_string());
    assert_eq!(threats.len(), 1);
}

#[test]
fn threat_record_clear() {
    let mut threats = Threats::new();
    threats.record("/a".to_string(), "Sig1".to_string());
    threats.clear();
    assert!(threats.is_empty());
    assert_eq!(threats.len(), 0);
}

#[test]
fn threat_record_walk_entries() {
    let mut threats = Threats::new();
    threats.record("/a".to_string(), "Sig1".to_string());
    threats.record("/b".to_string(), "Sig2".to_string());
    let mut seen: Vec<(String, usize)> = Vec::new();
    for i in 0..threats.entry_count() {
        let (path, names) = threats.entry_at(i);
        seen.push((path.clone(), names.len()));
    }
    seen.sort();
    assert_eq!(seen, vec![("/a".to_string(), 1), ("/b".to_string(), 1)]);
}

#[test]
fn scan_runs_are_idempotent() {
    // Two states that disagree before the runs...
    let mut first = Data::new();
    first.record_threat("/stale".to_string(), "Old.Sig".to_string());
    first.finish_run(1_000_000);
    let mut second = Data::new();

    // ...see the same verdicts and end up with identical records.
    record_eicar_run(&mut first);
    record_eicar_run(&mut second);

    assert_eq!(first.threats.len(), second.threats.len());
    for path in ["/tmp/eicar.txt", "/tmp/other"] {
        let a = first.threats.get(&path.to_string()).unwrap();
        let b = second.threats.get(&path.to_string()).unwrap();
        assert_eq!(a, b);
    }
    assert!(first.threats.get(&"/stale".to_string()).is_none());
    assert_eq!(first.last_scan, Some(1_620_000_000));
    assert_eq!(second.last_scan, Some(1_620_000_000));
}

#[test]
fn missing_state_degrades_to_empty_default() {
    let db = Database::from_loaded("/home/user/.local/share/state.db".to_string(), None);
    let data = db.data();
    assert!(data.last_scan.is_none());
    assert!(data.signatures_age.is_none());
    assert_eq!(data.signature_count, 0);
    assert_eq!(db.location(), "/home/user/.local/share/state.db");
}

#[test]
fn loaded_state_is_kept() {
    let mut loaded = Data::new();
    loaded.record_threat("/a".to_string(), "Sig1".to_string());
    loaded.finish_run(123);
    loaded.signature_count = 42;
    let mut db = Database::from_loaded("/state.db".to_string(), Some(loaded));
    assert_eq!(db.data().last_scan, Some(123));
    assert_eq!(db.data().signature_count, 42);
    let data = db.data_mut();
    assert!(data.threats.get(&"/a".to_string()).is_some());
}

#[test]
fn human_size_is_plain_bytes() {
    let size = HumanSize::new(2 * 1024 * 1024);
    assert_eq!(size.as_bytes(), 2 * 1024 * 1024);
}

#[test]
fn error_messages_name_the_failure() {
    assert!(Error::TruncatedHeader.message().contains("header"));
    assert!(Error::EmptyPreferredWindow.message().contains("window"));
    assert!(Error::InvalidPattern.message().contains("pattern"));
    assert!(Error::PriorityNotSet.message().contains("priority"));
}
