use ryokan::config::Config;
use ryokan::database::NoteDatabase;

#[test]
fn insert_then_get_returns_the_name() {
    let mut db = NoteDatabase::new();
    db.insert("u1".to_string(), "first.txt".to_string());
    db.insert("u2".to_string(), "second.txt".to_string());
    assert_eq!(db.get(&"u1".to_string()).unwrap(), "first.txt");
    assert_eq!(db.get(&"u2".to_string()).unwrap(), "second.txt");
    assert!(db.get(&"u3".to_string()).is_none());
}

#[test]
fn insert_overwrites_an_existing_binding() {
    let mut db = NoteDatabase::new();
    db.insert("u1".to_string(), "old.txt".to_string());
    db.insert("u1".to_string(), "new.txt".to_string());
    assert_eq!(db.get(&"u1".to_string()).unwrap(), "new.txt");
    assert_eq!(db.entries().len(), 1);
}

#[test]
fn from_entries_lets_the_later_binding_win() {
    let list = vec![
        ("u1".to_string(), "old.txt".to_string()),
        ("u2".to_string(), "other.txt".to_string()),
        ("u1".to_string(), "new.txt".to_string()),
    ];
    let db = NoteDatabase::from_entries(list);
    assert_eq!(db.get(&"u1".to_string()).unwrap(), "new.txt");
    assert_eq!(db.get(&"u2".to_string()).unwrap(), "other.txt");
    assert_eq!(db.entries().len(), 2);
}

#[test]
fn entries_round_trip_through_from_entries() {
    let mut db = NoteDatabase::new();
    db.insert("a".to_string(), "one.txt".to_string());
    db.insert("b".to_string(), "two.txt".to_string());
    let restored = NoteDatabase::from_entries(db.entries().clone());
    assert_eq!(restored.get(&"a".to_string()).unwrap(), "one.txt");
    assert_eq!(restored.get(&"b".to_string()).unwrap(), "two.txt");
}

#[test]
fn default_config_has_no_pin_and_relative_notes_dir() {
    let config = Config::default();
    assert_eq!(config.pin_hash, "");
    assert_eq!(config.notes_dir, "notes");
}
