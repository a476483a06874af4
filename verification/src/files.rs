//! File-name conventions: the canonical suffixes, fresh identifiers, and the
//! names given to a new note's pair of files.

use vstd::prelude::*;
use vstd::string::{StrSliceExecFns, StringExecFns};
use crate::store::{content_kind, is_content_name, is_metadata_name, metadata_kind, splits_as};

verus! {

/// The canonical suffix of a content file name, `.enc.txt`.
pub open spec fn content_suffix() -> Seq<char> {
    seq!['.', 'e', 'n', 'c', '.', 't', 'x', 't']
}

/// The canonical suffix of a metadata sidecar name, `.meta.toml`.
pub open spec fn metadata_suffix() -> Seq<char> {
    seq!['.', 'm', 'e', 't', 'a', '.', 't', 'o', 'm', 'l']
}

/// Whether a name ends in the given suffix.
pub open spec fn ends_with(s: Seq<char>, suffix: Seq<char>) -> bool {
    s.len() >= suffix.len() && s.subrange(s.len() - suffix.len(), s.len() as int) == suffix
}

/// Compares the tail of `s` against `suffix`, character by character.
fn ends_with_exec(s: &str, suffix: &str) -> (r: bool)
    ensures
        r == ends_with(s@, suffix@),
{
    let n = s.unicode_len();
    let m = suffix.unicode_len();
    if n < m {
        return false;
    }
    let mut i: usize = 0;
    while i < m
        invariant
            0 <= i <= m,
            m <= n,
            n == s@.len(),
            m == suffix@.len(),
            forall|j: int| 0 <= j < i ==> s@[n - m + j] == suffix@[j],
        decreases m - i,
    {
        if s.get_char(n - m + i) != suffix.get_char(i) {
            proof {
                assert(s@.subrange(n - m, n as int)[i as int] == s@[n - m + i]);
            }
            return false;
        }
        i += 1;
    }
    proof {
        assert(s@.subrange(n - m, n as int) =~= suffix@);
    }
    true
}

/// Whether the name already carries the canonical content suffix.
pub fn has_content_suffix(name: &str) -> (r: bool)
    ensures
        r == ends_with(name@, content_suffix()),
{
    proof {
        reveal_strlit(".enc.txt");
        assert(".enc.txt"@ =~= content_suffix());
    }
    ends_with_exec(name, ".enc.txt")
}

/// Whether the name carries the canonical metadata sidecar suffix.
pub fn has_metadata_suffix(name: &str) -> (r: bool)
    ensures
        r == ends_with(name@, metadata_suffix()),
{
    proof {
        reveal_strlit(".meta.toml");
        assert(".meta.toml"@ =~= metadata_suffix());
    }
    ends_with_exec(name, ".meta.toml")
}

/// A character a rendered identifier may hold: a lowercase hex digit or a
/// hyphen.
pub open spec fn uuid_char(c: char) -> bool {
    (48 <= c as u32 <= 57) || (97 <= c as u32 <= 102) || c as u32 == 45
}

/// Relies on uuid's `Uuid::new_v4`, rendered with `to_string`: a fresh random
/// identifier as exactly 36 characters, each a lowercase hex digit or a
/// hyphen; nothing more is promised about the drawn value.
#[verifier::external_body]
fn uuid_string() -> (r: String)
    ensures
        r@.len() == 36,
        forall|j: int| 0 <= j < r@.len() ==> uuid_char(#[trigger] r@[j]),
{
    uuid::Uuid::new_v4().to_string()
}

/// A fresh random identifier for a new note: 36 lowercase hex digits and
/// hyphens — in particular never a dot, so it can stand as the stem of the
/// note's file names.
pub fn generate_uuid() -> (r: String)
    ensures
        r@.len() == 36,
        forall|j: int| 0 <= j < r@.len() ==> uuid_char(#[trigger] r@[j]),
        !r@.contains('.'),
{
    let id = uuid_string();
    proof {
        assert('.' as u32 == 46);
        assert forall|j: int| 0 <= j < id@.len() implies id@[j] != '.' by {
            assert(uuid_char(id@[j]));
        }
        assert(!id@.contains('.'));
    }
    id
}

/// The names of a new note's two files: `<id>.enc.txt` for the content and
/// `<id>.meta.toml` for the sidecar. Both parse back to the identifier, and
/// both carry their canonical suffix.
pub fn note_file_names(id: &str) -> (r: (String, String))
    requires
        !id@.contains('.'),
    ensures
        r.0@ == id@ + content_suffix(),
        r.1@ == id@ + metadata_suffix(),
        ends_with(r.0@, content_suffix()),
        ends_with(r.1@, metadata_suffix()),
        is_content_name(r.0@, id@),
        is_metadata_name(r.1@, id@),
{
    let mut content_name = String::from_str(id);
    content_name.append(".enc.txt");
    let mut metadata_name = String::from_str(id);
    metadata_name.append(".meta.toml");
    proof {
        reveal_strlit(".enc.txt");
        reveal_strlit(".meta.toml");
        assert(".enc.txt"@ =~= content_suffix());
        assert(".meta.toml"@ =~= metadata_suffix());
        assert(content_name@ =~= id@ + content_suffix());
        assert(metadata_name@ =~= id@ + metadata_suffix());
        let n0 = content_name@.len() as int;
        assert(content_name@.subrange(n0 - 8, n0) =~= content_suffix());
        let n1 = metadata_name@.len() as int;
        assert(metadata_name@.subrange(n1 - 10, n1) =~= metadata_suffix());
        let txt = seq!['t', 'x', 't'];
        assert(content_name@ =~= id@ + seq!['.'] + content_kind() + seq!['.'] + txt);
        assert(!content_kind().contains('.'));
        assert(!txt.contains('.'));
        assert(splits_as(content_name@, id@, content_kind(), txt));
        let toml = seq!['t', 'o', 'm', 'l'];
        assert(metadata_name@ =~= id@ + seq!['.'] + metadata_kind() + seq!['.'] + toml);
        assert(!metadata_kind().contains('.'));
        assert(!toml.contains('.'));
        assert(splits_as(metadata_name@, id@, metadata_kind(), toml));
    }
    (content_name, metadata_name)
}

/// File operations gathered behind one name; reading, writing and the editor
/// live with the caller, only naming is decided here.
pub struct FileManager;

impl FileManager {
    /// A file name for a new note: a fresh identifier under the canonical
    /// content suffix, `<uuid>.enc.txt`.
    pub fn generate_uuid_filename() -> (r: String)
        ensures
            ends_with(r@, content_suffix()),
            exists|u: Seq<char>| is_content_name(r@, u),
    {
        let id = generate_uuid();
        let (content_name, _metadata_name) = note_file_names(id.as_str());
        content_name
    }
}

/// Whether the name has a dot that begins an extension: one at any position
/// after the first character.
pub open spec fn has_extension_dot(name: Seq<char>) -> bool {
    exists|j: int| 1 <= j < name.len() && name[j] == '.'
}

/// The position of the last such dot; meaningful only when one exists.
pub open spec fn last_dot(name: Seq<char>) -> int
    decreases name.len(),
{
    if name.len() <= 1 {
        0
    } else if name.last() == '.' {
        name.len() - 1
    } else {
        last_dot(name.drop_last())
    }
}

/// The part of the name that survives a change of extension: everything
/// before the last extension dot, or the whole name when there is none.
pub open spec fn rename_stem(name: Seq<char>) -> Seq<char> {
    if has_extension_dot(name) {
        name.subrange(0, last_dot(name))
    } else {
        name
    }
}

/// A dot with nothing but non-dots after it is the last dot.
proof fn lemma_last_dot_at(name: Seq<char>, j: int)
    requires
        1 <= j < name.len(),
        name[j] == '.',
        forall|q: int| j < q < name.len() ==> name[q] != '.',
    ensures
        last_dot(name) == j,
    decreases name.len(),
{
    if j == name.len() - 1 {
    } else {
        assert(name.last() != '.');
        assert(name.drop_last()[j] == '.');
        assert forall|q: int| j < q < name.drop_last().len() implies name.drop_last()[q]
            != '.' by {
            assert(name.drop_last()[q] == name[q]);
        }
        lemma_last_dot_at(name.drop_last(), j);
    }
}

/// The canonical name a mislabeled encrypted file is renamed to: its
/// extension — everything after the last dot, if any dot stands past the
/// first character — is replaced by the content suffix.
pub fn canonical_renamed_name(name: &str) -> (r: String)
    ensures
        r@ == rename_stem(name@) + content_suffix(),
        ends_with(r@, content_suffix()),
{
    let n = name.unicode_len();
    let mut j: usize = n;
    let mut found = false;
    while j > 1 && !found
        invariant
            0 <= j <= n,
            n == name@.len(),
            !found ==> forall|q: int| j <= q < n ==> name@[q] != '.',
            found ==> 1 <= j < n && name@[j as int] == '.' && (forall|q: int|
                j < q < n ==> name@[q] != '.'),
        decreases j + (if found { 0int } else { 1int }),
    {
        if name.get_char(j - 1) == '.' {
            j -= 1;
            found = true;
        } else {
            j -= 1;
        }
    }
    let stem: &str = if found {
        proof {
            lemma_last_dot_at(name@, j as int);
            assert(has_extension_dot(name@));
        }
        name.substring_char(0, j)
    } else {
        proof {
            if has_extension_dot(name@) {
                let w = choose|q: int| 1 <= q < name@.len() && name@[q] == '.';
                assert(name@[w] != '.');
            }
        }
        name
    };
    let mut r = String::from_str(stem);
    r.append(".enc.txt");
    proof {
        reveal_strlit(".enc.txt");
        assert(".enc.txt"@ =~= content_suffix());
        assert(r@ =~= rename_stem(name@) + content_suffix());
        let n0 = r@.len() as int;
        assert(r@.subrange(n0 - 8, n0) =~= content_suffix());
    }
    r
}

} // verus!
