//! The migration scanner: one pass over a directory listing that reconciles
//! mixed encrypted, unencrypted and mislabeled files into a consistent state.
//!
//! Every file whose name already carries a canonical suffix is left alone. Of
//! the rest, a file whose bytes form an envelope is merely renamed in place —
//! no re-encryption — while genuine plaintext is encrypted under a fresh
//! identifier, given a metadata sidecar, and its original deleted. The pass
//! is safe to re-run: everything it leaves behind classifies as settled, so a
//! second scan performs no work. The order in which files are handed in does
//! not change what is done to each.

use vstd::prelude::*;
use vstd::slice::slice_to_vec;
use crate::cipher::{decrypts_to, encrypt_note_content, MAX_PLAINTEXT_LEN, TAG_LEN};
use crate::envelope::{is_envelope, is_envelope_spec, HEADER_LEN};
use crate::errors::AppError;
use crate::files::{
    canonical_renamed_name, content_suffix, ends_with, generate_uuid, has_content_suffix,
    has_metadata_suffix, metadata_suffix, note_file_names, rename_stem,
};
use crate::kdf::MAX_PIN_CHARS;
use crate::metadata::NoteMetadata;
use crate::store::{is_content_name, is_metadata_name};

verus! {

/// One regular file of the scanned directory, read into memory.
pub struct ScannedFile {
    /// The file's name within the directory.
    pub name: String,
    /// The file's bytes.
    pub content: Vec<u8>,
}

/// What one migration pass did.
pub struct MigrationReport {
    /// How many mislabeled encrypted files were renamed in place.
    pub renamed: usize,
    /// How many plaintext files were encrypted into the canonical layout.
    pub encrypted: usize,
}

/// A rename the caller performs: same file, new name.
pub struct PlannedRename {
    /// The name the file had.
    pub from: String,
    /// The canonical name it gets.
    pub to: String,
}

/// An encryption the caller performs: write the envelope and the sidecar,
/// then delete the plaintext original.
pub struct PlannedEncryption {
    /// The canonical name of the new content file.
    pub content_name: String,
    /// The envelope to write there.
    pub envelope: Vec<u8>,
    /// The name of the new metadata sidecar.
    pub metadata_name: String,
    /// The sidecar record: original name kept, timestamps set, no tags.
    pub metadata: NoteMetadata,
    /// The plaintext file to delete once both are written.
    pub original_name: String,
}

/// The outcome of one pass: the directory as it will stand, and the work that
/// gets it there.
pub struct MigrationOutcome {
    /// The content files after the pass: kept, renamed, and freshly written.
    pub files: Vec<ScannedFile>,
    /// The renames to perform.
    pub renames: Vec<PlannedRename>,
    /// The encryptions to perform.
    pub encryptions: Vec<PlannedEncryption>,
    /// The counts.
    pub report: MigrationReport,
}

/// Every file is small enough to encrypt: within the cipher's limit and with
/// room for the envelope header in an in-memory buffer.
pub open spec fn all_encryptable(files: Seq<ScannedFile>) -> bool {
    forall|k: int|
        0 <= k < files.len() ==> (#[trigger] files[k]).content@.len() <= MAX_PLAINTEXT_LEN
            && files[k].content@.len() + HEADER_LEN + TAG_LEN <= usize::MAX
}

/// A file the scanner leaves alone: its name already carries the canonical
/// content suffix or the sidecar suffix.
pub open spec fn file_settled(name: Seq<char>) -> bool {
    ends_with(name, content_suffix()) || ends_with(name, metadata_suffix())
}

/// A file the scanner renames: an envelope under a non-canonical name.
pub open spec fn needs_rename(f: ScannedFile) -> bool {
    !file_settled(f.name@) && is_envelope_spec(f.content@)
}

/// A file the scanner encrypts: plaintext under a non-canonical name.
pub open spec fn needs_encrypt(f: ScannedFile) -> bool {
    !file_settled(f.name@) && !is_envelope_spec(f.content@)
}

/// How many files of a listing the scanner renames.
pub open spec fn count_renames(files: Seq<ScannedFile>) -> nat
    decreases files.len(),
{
    if files.len() == 0 {
        0
    } else {
        count_renames(files.drop_last()) + (if needs_rename(files.last()) {
            1nat
        } else {
            0nat
        })
    }
}

/// How many files of a listing the scanner encrypts.
pub open spec fn count_encrypts(files: Seq<ScannedFile>) -> nat
    decreases files.len(),
{
    if files.len() == 0 {
        0
    } else {
        count_encrypts(files.drop_last()) + (if needs_encrypt(files.last()) {
            1nat
        } else {
            0nat
        })
    }
}

/// Neither count can exceed the listing's length.
proof fn lemma_counts_bounded(files: Seq<ScannedFile>)
    ensures
        count_renames(files) <= files.len(),
        count_encrypts(files) <= files.len(),
    decreases files.len(),
{
    if files.len() > 0 {
        lemma_counts_bounded(files.drop_last());
    }
}

/// A scan over a settled listing does nothing: every file already carries a
/// canonical suffix, so there is nothing to rename and nothing to encrypt.
pub proof fn lemma_settled_listing_scans_clean(files: Seq<ScannedFile>)
    requires
        forall|k: int| 0 <= k < files.len() ==> file_settled((#[trigger] files[k]).name@),
    ensures
        count_renames(files) == 0,
        count_encrypts(files) == 0,
    decreases files.len(),
{
    if files.len() > 0 {
        assert(file_settled(files.last().name@)) by {
            assert(files[files.len() - 1] == files.last());
        }
        assert forall|k: int|
            0 <= k < files.drop_last().len() implies file_settled(
            (#[trigger] files.drop_last()[k]).name@,
        ) by {
            assert(files.drop_last()[k] == files[k]);
        }
        lemma_settled_listing_scans_clean(files.drop_last());
    }
}

/// Two listings hold the same files: same names, same bytes, same order.
pub open spec fn same_listing(a: Seq<ScannedFile>, b: Seq<ScannedFile>) -> bool {
    a.len() == b.len() && forall|k: int|
        0 <= k < a.len() ==> (#[trigger] a[k]).name@ == b[k].name@ && a[k].content@ == b[k].content@
}

/// The mislabeled envelopes of a listing — the files the scanner renames —
/// in listing order.
pub open spec fn rename_sources(files: Seq<ScannedFile>) -> Seq<ScannedFile>
    decreases files.len(),
{
    if files.len() == 0 {
        Seq::empty()
    } else if needs_rename(files.last()) {
        rename_sources(files.drop_last()).push(files.last())
    } else {
        rename_sources(files.drop_last())
    }
}

/// The plaintext files of a listing — the files the scanner encrypts — in
/// listing order.
pub open spec fn encrypt_sources(files: Seq<ScannedFile>) -> Seq<ScannedFile>
    decreases files.len(),
{
    if files.len() == 0 {
        Seq::empty()
    } else if needs_encrypt(files.last()) {
        encrypt_sources(files.drop_last()).push(files.last())
    } else {
        encrypt_sources(files.drop_last())
    }
}

/// The planned work counts are the source listings' lengths.
proof fn lemma_sources_len(files: Seq<ScannedFile>)
    ensures
        rename_sources(files).len() == count_renames(files),
        encrypt_sources(files).len() == count_encrypts(files),
    decreases files.len(),
{
    if files.len() > 0 {
        lemma_sources_len(files.drop_last());
    }
}

/// A prefix of the listing never calls for more work than the whole.
proof fn lemma_counts_prefix(files: Seq<ScannedFile>, m: int)
    requires
        0 <= m <= files.len(),
    ensures
        count_renames(files.subrange(0, m)) <= count_renames(files),
        count_encrypts(files.subrange(0, m)) <= count_encrypts(files),
    decreases files.len(),
{
    if m == files.len() {
        assert(files.subrange(0, m) =~= files);
    } else {
        assert(files.drop_last().subrange(0, m) =~= files.subrange(0, m));
        lemma_counts_prefix(files.drop_last(), m);
    }
}

/// A rename plan carries exactly the listing's mislabeled envelopes: the k-th
/// record renames the k-th such file, to its stem under the canonical content
/// suffix.
pub open spec fn renames_match(renames: Seq<PlannedRename>, files: Seq<ScannedFile>) -> bool {
    &&& renames.len() == rename_sources(files).len()
    &&& forall|k: int|
        0 <= k < renames.len() ==> ((#[trigger] renames[k]).from == rename_sources(files)[k].name
            && renames[k].to@ == rename_stem(rename_sources(files)[k].name@) + content_suffix()
            && ends_with(renames[k].to@, content_suffix()))
}

/// One planned encryption against the plaintext file it replaces: the
/// envelope decrypts to that file's bytes under the PIN, the sidecar records
/// that file's name with creation and update time equal and no tags, and
/// content file and sidecar carry canonical names sharing one identifier
/// stem.
pub open spec fn encryption_ok(enc: PlannedEncryption, src: ScannedFile, pin: Seq<char>) -> bool {
    &&& enc.original_name == src.name
    &&& enc.metadata.original_filename == src.name
    &&& decrypts_to(enc.envelope@, pin, src.content@)
    &&& enc.metadata.created_at == enc.metadata.updated_at
    &&& enc.metadata.tags@.len() == 0
    &&& ends_with(enc.content_name@, content_suffix())
    &&& ends_with(enc.metadata_name@, metadata_suffix())
    &&& exists|id: Seq<char>|
        is_content_name(enc.content_name@, id) && is_metadata_name(enc.metadata_name@, id)
}

/// An encryption plan carries exactly the listing's plaintext files: the k-th
/// record replaces the k-th such file.
pub open spec fn encryptions_match(
    encs: Seq<PlannedEncryption>,
    files: Seq<ScannedFile>,
    pin: Seq<char>,
) -> bool {
    &&& encs.len() == encrypt_sources(files).len()
    &&& forall|k: int|
        0 <= k < encs.len() ==> #[trigger] encryption_ok(encs[k], encrypt_sources(files)[k], pin)
}

/// What becomes of one listed file: kept exactly as it is when already
/// settled, renamed in place with bytes intact, or replaced by an envelope of
/// its own bytes under a canonical name.
pub open spec fn migrated_file_ok(f: ScannedFile, g: ScannedFile, pin: Seq<char>) -> bool {
    &&& (file_settled(f.name@) ==> g.name@ == f.name@ && g.content@ == f.content@)
    &&& (needs_rename(f) ==> g.name@ == rename_stem(f.name@) + content_suffix() && g.content@
        == f.content@)
    &&& (needs_encrypt(f) ==> ends_with(g.name@, content_suffix()) && decrypts_to(
        g.content@,
        pin,
        f.content@,
    ))
}

/// The resulting listing answers the input file for file, in order.
pub open spec fn files_match(
    outs: Seq<ScannedFile>,
    files: Seq<ScannedFile>,
    pin: Seq<char>,
) -> bool {
    outs.len() == files.len() && forall|j: int|
        0 <= j < files.len() ==> #[trigger] migrated_file_ok(files[j], outs[j], pin)
}

/// Appending one reconciled file extends the file-for-file correspondence.
proof fn lemma_files_match_push(
    outs: Seq<ScannedFile>,
    files: Seq<ScannedFile>,
    g: ScannedFile,
    f: ScannedFile,
    pin: Seq<char>,
)
    requires
        files_match(outs, files, pin),
        migrated_file_ok(f, g, pin),
    ensures
        files_match(outs.push(g), files.push(f), pin),
{
    assert forall|j: int|
        0 <= j < files.push(f).len() implies #[trigger] migrated_file_ok(
        files.push(f)[j],
        outs.push(g)[j],
        pin,
    ) by {
        if j < files.len() {
            assert(files.push(f)[j] == files[j]);
            assert(outs.push(g)[j] == outs[j]);
            assert(migrated_file_ok(files[j], outs[j], pin));
        } else {
            assert(files.push(f)[j] == f);
            assert(outs.push(g)[j] == g);
        }
    }
}

/// Appending the record of one more mislabeled envelope keeps the rename plan
/// exact.
proof fn lemma_renames_match_push(
    renames: Seq<PlannedRename>,
    files: Seq<ScannedFile>,
    rec: PlannedRename,
    f: ScannedFile,
)
    requires
        renames_match(renames, files),
        needs_rename(f),
        rec.from == f.name,
        rec.to@ == rename_stem(f.name@) + content_suffix(),
        ends_with(rec.to@, content_suffix()),
    ensures
        renames_match(renames.push(rec), files.push(f)),
{
    assert(files.push(f).drop_last() =~= files);
    assert(files.push(f).last() == f);
    assert(rename_sources(files.push(f)) == rename_sources(files).push(f));
    assert forall|k: int|
        0 <= k < renames.push(rec).len() implies ((#[trigger] renames.push(rec)[k]).from
        == rename_sources(files.push(f))[k].name && renames.push(rec)[k].to@ == rename_stem(
        rename_sources(files.push(f))[k].name@,
    ) + content_suffix() && ends_with(renames.push(rec)[k].to@, content_suffix())) by {
        if k < renames.len() {
            assert(renames.push(rec)[k] == renames[k]);
            assert(rename_sources(files.push(f))[k] == rename_sources(files)[k]);
        } else {
            assert(renames.push(rec)[k] == rec);
            assert(rename_sources(files.push(f))[k] == f);
        }
    }
}

/// A file that is not a mislabeled envelope adds nothing to the rename plan.
proof fn lemma_renames_match_skip(
    renames: Seq<PlannedRename>,
    files: Seq<ScannedFile>,
    f: ScannedFile,
)
    requires
        renames_match(renames, files),
        !needs_rename(f),
    ensures
        renames_match(renames, files.push(f)),
{
    assert(files.push(f).drop_last() =~= files);
    assert(files.push(f).last() == f);
    assert(rename_sources(files.push(f)) == rename_sources(files));
}

/// Appending the record of one more plaintext file keeps the encryption plan
/// exact.
proof fn lemma_encryptions_match_push(
    encs: Seq<PlannedEncryption>,
    files: Seq<ScannedFile>,
    rec: PlannedEncryption,
    f: ScannedFile,
    pin: Seq<char>,
)
    requires
        encryptions_match(encs, files, pin),
        needs_encrypt(f),
        encryption_ok(rec, f, pin),
    ensures
        encryptions_match(encs.push(rec), files.push(f), pin),
{
    assert(files.push(f).drop_last() =~= files);
    assert(files.push(f).last() == f);
    assert(encrypt_sources(files.push(f)) == encrypt_sources(files).push(f));
    assert forall|k: int|
        0 <= k < encs.push(rec).len() implies #[trigger] encryption_ok(
        encs.push(rec)[k],
        encrypt_sources(files.push(f))[k],
        pin,
    ) by {
        if k < encs.len() {
            assert(encs.push(rec)[k] == encs[k]);
            assert(encrypt_sources(files.push(f))[k] == encrypt_sources(files)[k]);
            assert(encryption_ok(encs[k], encrypt_sources(files)[k], pin));
        } else {
            assert(encs.push(rec)[k] == rec);
            assert(encrypt_sources(files.push(f))[k] == f);
        }
    }
}

/// A file that is not plaintext adds nothing to the encryption plan.
proof fn lemma_encryptions_match_skip(
    encs: Seq<PlannedEncryption>,
    files: Seq<ScannedFile>,
    f: ScannedFile,
    pin: Seq<char>,
)
    requires
        encryptions_match(encs, files, pin),
        !needs_encrypt(f),
    ensures
        encryptions_match(encs, files.push(f), pin),
{
    assert(files.push(f).drop_last() =~= files);
    assert(files.push(f).last() == f);
    assert(encrypt_sources(files.push(f)) == encrypt_sources(files));
}

/// Walks one directory listing and plans its reconciliation.
///
/// Files under a canonical suffix are kept as they are. A mislabeled envelope
/// is renamed — same bytes, canonical content suffix. Plaintext is encrypted
/// under the PIN into a fresh `<uuid>.enc.txt` with a `<uuid>.meta.toml`
/// sidecar recording its original name, and the original is deleted. The plan
/// answers the listing file for file and record for record; everything the
/// pass leaves behind is settled, so a second pass over the result always
/// completes, reports zero of each, and keeps every file unchanged.
pub fn scan_and_migrate(files: &Vec<ScannedFile>, pin: &str) -> (r: Result<
    MigrationOutcome,
    AppError,
>)
    ensures
        r matches Ok(out) ==> {
            &&& out.report.renamed == count_renames(files@)
            &&& out.report.encrypted == count_encrypts(files@)
            &&& out.renames@.len() == out.report.renamed
            &&& out.encryptions@.len() == out.report.encrypted
            &&& files_match(out.files@, files@, pin@)
            &&& renames_match(out.renames@, files@)
            &&& encryptions_match(out.encryptions@, files@, pin@)
            &&& forall|k: int|
                0 <= k < out.files@.len() ==> file_settled((#[trigger] out.files@[k]).name@)
            &&& count_renames(files@) == 0 && count_encrypts(files@) == 0 ==> same_listing(
                out.files@,
                files@,
            )
        },
        r is Err ==> r == Err::<MigrationOutcome, AppError>(AppError::Encryption)
            || r == Err::<MigrationOutcome, AppError>(AppError::PinHash),
        pin@.len() <= MAX_PIN_CHARS && all_encryptable(files@) ==> r is Ok,
        count_encrypts(files@) == 0 ==> r is Ok,
{
    let mut out_files: Vec<ScannedFile> = Vec::new();
    let mut renames: Vec<PlannedRename> = Vec::new();
    let mut encryptions: Vec<PlannedEncryption> = Vec::new();
    let mut renamed_count: usize = 0;
    let mut encrypted_count: usize = 0;
    let mut i: usize = 0;
    while i < files.len()
        invariant
            0 <= i <= files@.len(),
            renamed_count == count_renames(files@.subrange(0, i as int)),
            encrypted_count == count_encrypts(files@.subrange(0, i as int)),
            renames@.len() == renamed_count,
            encryptions@.len() == encrypted_count,
            forall|k: int|
                0 <= k < out_files@.len() ==> file_settled((#[trigger] out_files@[k]).name@),
            files_match(out_files@, files@.subrange(0, i as int), pin@),
            renames_match(renames@, files@.subrange(0, i as int)),
            encryptions_match(encryptions@, files@.subrange(0, i as int), pin@),
            count_renames(files@.subrange(0, i as int)) == 0 && count_encrypts(
                files@.subrange(0, i as int),
            ) == 0 ==> same_listing(out_files@, files@.subrange(0, i as int)),
        decreases files@.len() - i,
    {
        let ghost prefix = files@.subrange(0, i as int);
        let ghost prefix_next = files@.subrange(0, i as int + 1);
        proof {
            assert(prefix_next.drop_last() =~= prefix);
            assert(prefix_next.last() == files@[i as int]);
            assert(prefix_next =~= prefix.push(files@[i as int]));
            lemma_counts_bounded(prefix);
            lemma_sources_len(prefix);
        }
        let f = &files[i];
        let ghost out_before = out_files@;
        let settled = has_content_suffix(f.name.as_str()) || has_metadata_suffix(f.name.as_str());
        if settled {
            let kept = ScannedFile {
                name: f.name.clone(),
                content: slice_to_vec(f.content.as_slice()),
            };
            out_files.push(kept);
            proof {
                assert(migrated_file_ok(files@[i as int], out_files@.last(), pin@));
                lemma_files_match_push(out_before, prefix, out_files@.last(), files@[i as int],
                    pin@);
                lemma_renames_match_skip(renames@, prefix, files@[i as int]);
                lemma_encryptions_match_skip(encryptions@, prefix, files@[i as int], pin@);
                if count_renames(prefix_next) == 0 && count_encrypts(prefix_next) == 0 {
                    assert(same_listing(out_files@, prefix_next));
                }
            }
        } else if is_envelope(f.content.as_slice()) {
            let new_name = canonical_renamed_name(f.name.as_str());
            let kept = ScannedFile {
                name: new_name.clone(),
                content: slice_to_vec(f.content.as_slice()),
            };
            out_files.push(kept);
            let ghost renames_before = renames@;
            renames.push(PlannedRename { from: f.name.clone(), to: new_name });
            renamed_count = renamed_count + 1;
            proof {
                assert(migrated_file_ok(files@[i as int], out_files@.last(), pin@));
                lemma_files_match_push(out_before, prefix, out_files@.last(), files@[i as int],
                    pin@);
                lemma_renames_match_push(renames_before, prefix, renames@.last(),
                    files@[i as int]);
                lemma_encryptions_match_skip(encryptions@, prefix, files@[i as int], pin@);
            }
        } else {
            let envelope = match encrypt_note_content(f.content.as_slice(), pin) {
                Ok(env) => env,
                Err(e) => {
                    proof {
                        assert(needs_encrypt(files@[i as int]));
                        assert(count_encrypts(prefix_next) == count_encrypts(prefix) + 1);
                        lemma_counts_prefix(files@, i as int + 1);
                    }
                    return Err(e);
                },
            };
            let id = generate_uuid();
            let (content_name, metadata_name) = note_file_names(id.as_str());
            let metadata = NoteMetadata::new(f.name.clone());
            let envelope_copy = slice_to_vec(envelope.as_slice());
            out_files.push(ScannedFile { name: content_name.clone(), content: envelope_copy });
            let ghost encryptions_before = encryptions@;
            encryptions.push(
                PlannedEncryption {
                    content_name,
                    envelope,
                    metadata_name,
                    metadata,
                    original_name: f.name.clone(),
                },
            );
            encrypted_count = encrypted_count + 1;
            proof {
                assert(encryption_ok(encryptions@.last(), files@[i as int], pin@)) by {
                    assert(is_content_name(encryptions@.last().content_name@, id@)
                        && is_metadata_name(encryptions@.last().metadata_name@, id@));
                }
                assert(migrated_file_ok(files@[i as int], out_files@.last(), pin@));
                lemma_files_match_push(out_before, prefix, out_files@.last(), files@[i as int],
                    pin@);
                lemma_encryptions_match_push(encryptions_before, prefix, encryptions@.last(),
                    files@[i as int], pin@);
                lemma_renames_match_skip(renames@, prefix, files@[i as int]);
            }
        }
        i += 1;
    }
    proof {
        assert(files@.subrange(0, files@.len() as int) =~= files@);
        lemma_sources_len(files@);
    }
    Ok(
        MigrationOutcome {
            files: out_files,
            renames,
            encryptions,
            report: MigrationReport { renamed: renamed_count, encrypted: encrypted_count },
        },
    )
}

} // verus!
