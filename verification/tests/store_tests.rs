use ryokan::cipher::encrypt_note_content;
use ryokan::metadata::NoteMetadata;
use ryokan::store::{
    assemble_notes, parse_note_filename, plan_reload, preview_note_content, sort_notes, FileKind,
    Note, NotePair,
};

fn names(v: &[&str]) -> Vec<String> {
    v.iter().map(|s| s.to_string()).collect()
}

#[test]
fn parse_recognizes_content_and_metadata_names() {
    match parse_note_filename("abc.enc.txt") {
        FileKind::Content(u) => assert_eq!(u, "abc"),
        _ => panic!("expected content"),
    }
    match parse_note_filename("abc.meta.toml") {
        FileKind::Metadata(u) => assert_eq!(u, "abc"),
        _ => panic!("expected metadata"),
    }
    // the third part is not inspected
    match parse_note_filename("abc.enc.md") {
        FileKind::Content(u) => assert_eq!(u, "abc"),
        _ => panic!("expected content"),
    }
    // an empty stem is still a stem
    match parse_note_filename(".enc.txt") {
        FileKind::Content(u) => assert_eq!(u, ""),
        _ => panic!("expected content"),
    }
}

#[test]
fn parse_rejects_everything_else() {
    assert!(matches!(parse_note_filename("abc.txt"), FileKind::Unrecognized));
    assert!(matches!(parse_note_filename("abc"), FileKind::Unrecognized));
    assert!(matches!(parse_note_filename("a.b.c.d"), FileKind::Unrecognized));
    assert!(matches!(parse_note_filename("abc.other.txt"), FileKind::Unrecognized));
    assert!(matches!(parse_note_filename(""), FileKind::Unrecognized));
    assert!(matches!(parse_note_filename("abc.enc"), FileKind::Unrecognized));
}

#[test]
fn orphans_are_excluded_and_do_not_fail_the_reload() {
    let listing = names(&[
        "a.enc.txt",
        "a.meta.toml",
        "orphan-content.enc.txt",
        "orphan-meta.meta.toml",
        "unrelated.txt",
    ]);
    let pairs = plan_reload(&listing);
    assert_eq!(pairs.len(), 1);
    assert_eq!(pairs[0].uuid, "a");
    assert_eq!(pairs[0].content_name, "a.enc.txt");
    assert_eq!(pairs[0].metadata_name, "a.meta.toml");
}

#[test]
fn pairing_joins_by_identifier_once() {
    let listing = names(&["b.meta.toml", "a.enc.txt", "b.enc.txt", "a.meta.toml"]);
    let mut pairs = plan_reload(&listing);
    pairs.sort_by(|x, y| x.uuid.cmp(&y.uuid));
    assert_eq!(pairs.len(), 2);
    assert_eq!(pairs[0].uuid, "a");
    assert_eq!(pairs[1].uuid, "b");
}

fn pair(uuid: &str) -> NotePair {
    NotePair {
        uuid: uuid.to_string(),
        content_name: format!("{}.enc.txt", uuid),
        metadata_name: format!("{}.meta.toml", uuid),
    }
}

#[test]
fn reload_sorts_newest_first() {
    let pairs = vec![pair("a"), pair("b"), pair("c")];
    let metas = vec![
        Some(NoteMetadata::new_at("a.txt".to_string(), 5)),
        Some(NoteMetadata::new_at("b.txt".to_string(), 10)),
        Some(NoteMetadata::new_at("c.txt".to_string(), 1)),
    ];
    let notes = assemble_notes(pairs, metas);
    assert_eq!(notes.len(), 3);
    assert_eq!(notes[0].uuid, "b");
    assert_eq!(notes[1].uuid, "a");
    assert_eq!(notes[2].uuid, "c");
    assert_eq!(notes[0].metadata.updated_at, 10);
}

#[test]
fn editing_the_oldest_note_moves_it_to_the_front() {
    let mut meta_a = NoteMetadata::new_at("a.txt".to_string(), 5);
    let meta_b = NoteMetadata::new_at("b.txt".to_string(), 10);
    // the first reload: b before a
    let notes = assemble_notes(
        vec![pair("a"), pair("b")],
        vec![Some(meta_a.clone()), Some(meta_b.clone())],
    );
    assert_eq!(notes[0].uuid, "b");
    // editing a bumps its update time past b's
    meta_a.touch_at(20);
    assert_eq!(meta_a.created_at, 5);
    assert_eq!(meta_a.updated_at, 20);
    let notes = assemble_notes(vec![pair("a"), pair("b")], vec![Some(meta_a), Some(meta_b)]);
    assert_eq!(notes[0].uuid, "a");
    assert_eq!(notes[1].uuid, "b");
}

#[test]
fn unreadable_sidecar_excludes_only_that_note() {
    let notes = assemble_notes(
        vec![pair("a"), pair("b")],
        vec![None, Some(NoteMetadata::new_at("b.txt".to_string(), 3))],
    );
    assert_eq!(notes.len(), 1);
    assert_eq!(notes[0].uuid, "b");
    assert_eq!(notes[0].encrypted_file_path, "b.enc.txt");
}

#[test]
fn sort_notes_is_a_permutation() {
    let mk = |uuid: &str, t: i64| Note {
        uuid: uuid.to_string(),
        encrypted_file_path: format!("{}.enc.txt", uuid),
        metadata: NoteMetadata::new_at(format!("{}.txt", uuid), t),
    };
    let sorted = sort_notes(vec![mk("x", 2), mk("y", 9), mk("z", 2), mk("w", 4)]);
    let order: Vec<&str> = sorted.iter().map(|n| n.uuid.as_str()).collect();
    assert_eq!(sorted.len(), 4);
    assert_eq!(order[0], "y");
    assert_eq!(order[1], "w");
    assert!(order[2..].contains(&"x") && order[2..].contains(&"z"));
}

#[test]
fn preview_renders_decrypted_text() {
    let env = encrypt_note_content(b"hello preview", "123456").unwrap();
    assert_eq!(preview_note_content(&env, "123456"), "hello preview");
}

#[test]
fn preview_substitutes_message_on_failure() {
    assert_eq!(preview_note_content(b"not an envelope", "123456"), "Error reading note");
    let env = encrypt_note_content(b"hello", "123456").unwrap();
    assert_eq!(preview_note_content(&env, "654321"), "Error reading note");
}

#[test]
fn preview_is_lossy_on_invalid_utf8() {
    let env = encrypt_note_content(&[0xff, b'h', b'i'], "123456").unwrap();
    let text = preview_note_content(&env, "123456");
    assert!(text.contains('\u{fffd}'));
    assert!(text.contains("hi"));
}

#[test]
fn metadata_new_sets_both_timestamps_together() {
    let m = NoteMetadata::new("original.txt".to_string());
    assert_eq!(m.original_filename, "original.txt");
    assert_eq!(m.created_at, m.updated_at);
    assert!(m.tags.is_empty());
}
