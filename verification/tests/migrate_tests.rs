use ryokan::cipher::{decrypt_note_content, encrypt_note_content};
use ryokan::files::{canonical_renamed_name, generate_uuid, note_file_names, FileManager};
use ryokan::migrate::{scan_and_migrate, ScannedFile};

fn file(name: &str, content: &[u8]) -> ScannedFile {
    ScannedFile { name: name.to_string(), content: content.to_vec() }
}

#[test]
fn migration_renames_and_encrypts_then_settles() {
    let pin = "123456";
    let canonical = encrypt_note_content(b"already fine", pin).unwrap();
    let mislabeled = encrypt_note_content(b"wrong suffix", pin).unwrap();
    let listing = vec![
        file("diary.txt", b"my plain text"),
        file("fine.enc.txt", &canonical),
        file("legacy.dat", &mislabeled),
    ];

    let out = scan_and_migrate(&listing, pin).unwrap();
    assert_eq!(out.report.renamed, 1);
    assert_eq!(out.report.encrypted, 1);
    assert_eq!(out.renames.len(), 1);
    assert_eq!(out.renames[0].from, "legacy.dat");
    assert_eq!(out.renames[0].to, "legacy.enc.txt");
    assert_eq!(out.encryptions.len(), 1);
    assert_eq!(out.encryptions[0].original_name, "diary.txt");

    // the result answers the listing file for file: the canonical file is
    // untouched and the mislabeled one keeps its bytes under the new name
    assert_eq!(out.files.len(), 3);
    assert_eq!(out.files[1].name, "fine.enc.txt");
    assert_eq!(out.files[1].content, canonical);
    assert_eq!(out.files[2].name, "legacy.enc.txt");
    assert_eq!(out.files[2].content, mislabeled);
    assert_eq!(decrypt_note_content(&out.files[0].content, pin).unwrap(), b"my plain text");

    // the directory after the pass: the content files plus the new sidecar
    let mut second: Vec<ScannedFile> = out
        .files
        .iter()
        .map(|f| file(&f.name, &f.content))
        .collect();
    second.push(file(&out.encryptions[0].metadata_name, b"original_filename = \"diary.txt\""));

    let again = scan_and_migrate(&second, pin).unwrap();
    assert_eq!(again.report.renamed, 0);
    assert_eq!(again.report.encrypted, 0);
    assert_eq!(again.files.len(), second.len());
    for (a, b) in again.files.iter().zip(second.iter()) {
        assert_eq!(a.name, b.name);
        assert_eq!(a.content, b.content);
    }
}

#[test]
fn migration_encryption_round_trips_and_records_the_original() {
    let pin = "123456";
    let listing = vec![file("shopping list.txt", b"eggs, milk")];
    let out = scan_and_migrate(&listing, pin).unwrap();
    assert_eq!(out.report.renamed, 0);
    assert_eq!(out.report.encrypted, 1);
    let planned = &out.encryptions[0];
    assert_eq!(decrypt_note_content(&planned.envelope, pin).unwrap(), b"eggs, milk");
    assert_eq!(planned.metadata.original_filename, "shopping list.txt");
    assert_eq!(planned.metadata.created_at, planned.metadata.updated_at);
    assert!(planned.metadata.tags.is_empty());
    assert!(planned.content_name.ends_with(".enc.txt"));
    assert!(planned.metadata_name.ends_with(".meta.toml"));
    // content file and sidecar share the identifier stem
    let stem = planned.content_name.trim_end_matches(".enc.txt");
    assert_eq!(planned.metadata_name, format!("{}.meta.toml", stem));
}

#[test]
fn migration_ignores_sidecars_and_canonical_files() {
    let pin = "123456";
    let listing = vec![
        file("a.meta.toml", b"original_filename = \"x\""),
        file("b.enc.txt", b"not even an envelope, but canonically named"),
    ];
    let out = scan_and_migrate(&listing, pin).unwrap();
    assert_eq!(out.report.renamed, 0);
    assert_eq!(out.report.encrypted, 0);
    assert_eq!(out.files.len(), 2);
    assert_eq!(out.files[0].name, "a.meta.toml");
    assert_eq!(out.files[1].name, "b.enc.txt");
}

#[test]
fn migration_result_does_not_depend_on_listing_order() {
    let pin = "123456";
    let mislabeled = encrypt_note_content(b"wrong suffix", pin).unwrap();
    let forward = vec![file("diary.txt", b"plain"), file("legacy.dat", &mislabeled)];
    let backward = vec![file("legacy.dat", &mislabeled), file("diary.txt", b"plain")];
    let a = scan_and_migrate(&forward, pin).unwrap();
    let b = scan_and_migrate(&backward, pin).unwrap();
    assert_eq!(a.report.renamed, b.report.renamed);
    assert_eq!(a.report.encrypted, b.report.encrypted);
    assert_eq!(a.renames[0].to, b.renames[0].to);
}

#[test]
fn renamed_name_replaces_the_extension() {
    assert_eq!(canonical_renamed_name("legacy.dat"), "legacy.enc.txt");
    assert_eq!(canonical_renamed_name("noext"), "noext.enc.txt");
    assert_eq!(canonical_renamed_name(".hidden"), ".hidden.enc.txt");
    assert_eq!(canonical_renamed_name("a.b.c"), "a.b.enc.txt");
    assert_eq!(canonical_renamed_name("x."), "x.enc.txt");
}

#[test]
fn fresh_identifiers_are_dotless_and_distinct() {
    let a = generate_uuid();
    let b = generate_uuid();
    assert_eq!(a.len(), 36);
    assert!(!a.contains('.'));
    assert!(a.chars().all(|c| c.is_ascii_digit() || ('a'..='f').contains(&c) || c == '-'));
    assert_ne!(a, b);
}

#[test]
fn note_file_names_share_the_stem() {
    let (c, m) = note_file_names("abc-123");
    assert_eq!(c, "abc-123.enc.txt");
    assert_eq!(m, "abc-123.meta.toml");
}

#[test]
fn generated_filename_is_canonical() {
    let name = FileManager::generate_uuid_filename();
    assert!(name.ends_with(".enc.txt"));
    assert_eq!(name.len(), 36 + 8);
}
