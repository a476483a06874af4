//! Note discovery: parsing directory entry names, pairing content files with
//! their metadata sidecars, ordering the listing, and rendering previews.
//!
//! A note on disk is two files tied by a shared identifier stem:
//! `<id>.enc.<ext>` holds the encrypted content and `<id>.meta.<ext>` the
//! sidecar record. An identifier with only one of the two is an orphan and is
//! silently left out of the listing — not deleted, not reported.

use vstd::prelude::*;
use vstd::multiset::Multiset;
use vstd::string::{StrSliceExecFns, StringExecFns};
use crate::cipher::{decrypt_note_content, decrypts_to};
use crate::kdf::MAX_PIN_CHARS;
use crate::metadata::NoteMetadata;

verus! {

/// The kind tag that marks a content file: the `enc` of `<id>.enc.txt`.
pub open spec fn content_kind() -> Seq<char> {
    seq!['e', 'n', 'c']
}

/// The kind tag that marks a metadata sidecar: the `meta` of `<id>.meta.toml`.
pub open spec fn metadata_kind() -> Seq<char> {
    seq!['m', 'e', 't', 'a']
}

/// How a well-formed note file name decomposes: `<stem>.<kind>.<ext>`, with
/// no dot inside any of the three parts.
pub open spec fn splits_as(
    name: Seq<char>,
    stem: Seq<char>,
    kind: Seq<char>,
    ext: Seq<char>,
) -> bool {
    &&& name == stem + seq!['.'] + kind + seq!['.'] + ext
    &&& !stem.contains('.')
    &&& !kind.contains('.')
    &&& !ext.contains('.')
}

/// A name that carries the given identifier as a content file.
pub open spec fn is_content_name(name: Seq<char>, uuid: Seq<char>) -> bool {
    exists|ext: Seq<char>| splits_as(name, uuid, content_kind(), ext)
}

/// A name that carries the given identifier as a metadata sidecar.
pub open spec fn is_metadata_name(name: Seq<char>, uuid: Seq<char>) -> bool {
    exists|ext: Seq<char>| splits_as(name, uuid, metadata_kind(), ext)
}

/// What a directory entry's name says the file is.
pub enum FileKind {
    /// `<id>.enc.<ext>`: an encrypted content file.
    Content(String),
    /// `<id>.meta.<ext>`: a metadata sidecar.
    Metadata(String),
    /// Anything else; the discovery pass ignores it.
    Unrecognized,
}

/// In a decomposed name the dots stand exactly at the two separators, and
/// each part is the corresponding piece of the name.
proof fn lemma_splits_shape(name: Seq<char>, stem: Seq<char>, kind: Seq<char>, ext: Seq<char>)
    requires
        splits_as(name, stem, kind, ext),
    ensures
        name.len() == stem.len() + kind.len() + ext.len() + 2,
        name[stem.len() as int] == '.',
        name[(stem.len() + kind.len() + 1) as int] == '.',
        forall|j: int|
            0 <= j < name.len() && #[trigger] name[j] == '.' ==> j == stem.len() || j == stem.len()
                + kind.len() + 1,
        stem == name.subrange(0, stem.len() as int),
        kind == name.subrange(stem.len() as int + 1, (stem.len() + 1 + kind.len()) as int),
        ext == name.subrange((stem.len() + kind.len() + 2) as int, name.len() as int),
{
    let p1 = stem.len() as int;
    let p2 = stem.len() + kind.len() + 1;
    assert forall|j: int| 0 <= j < name.len() && #[trigger] name[j] == '.' implies j == p1 || j
        == p2 by {
        if j < p1 {
            assert(stem[j] == '.');
            assert(stem.contains('.'));
        } else if p1 < j < p2 {
            assert(kind[j - p1 - 1] == '.');
            assert(kind.contains('.'));
        } else if p2 < j {
            assert(ext[j - p2 - 1] == '.');
            assert(ext.contains('.'));
        }
    }
    assert(stem =~= name.subrange(0, stem.len() as int));
    assert(kind =~= name.subrange(stem.len() as int + 1, (stem.len() + 1 + kind.len()) as int));
    assert(ext =~= name.subrange((stem.len() + kind.len() + 2) as int, name.len() as int));
}

/// Classifies a directory entry name by the `<stem>.<kind>.<ext>` convention:
/// kind `enc` is a content file, kind `meta` a metadata sidecar, and any name
/// that does not split into exactly three dot-separated parts — or whose
/// middle part is neither tag — is unrecognized.
pub fn parse_note_filename(name: &str) -> (r: FileKind)
    ensures
        r matches FileKind::Content(u) ==> is_content_name(name@, u@),
        r matches FileKind::Metadata(u) ==> is_metadata_name(name@, u@),
        forall|u: Seq<char>|
            is_content_name(name@, u) ==> (r matches FileKind::Content(w) && w@ == u),
        forall|u: Seq<char>|
            is_metadata_name(name@, u) ==> (r matches FileKind::Metadata(w) && w@ == u),
{
    let n = name.unicode_len();
    let mut i: usize = 0;
    let mut d1: usize = n;
    let mut d2: usize = n;
    while i < n
        invariant
            0 <= i <= n,
            n == name@.len(),
            d1 <= n,
            d2 <= n,
            d1 == n ==> d2 == n,
            d2 < n ==> d1 < d2,
            d1 < n ==> d1 < i && name@[d1 as int] == '.',
            d2 < n ==> d2 < i && name@[d2 as int] == '.',
            forall|j: int| 0 <= j < i && j < d1 ==> name@[j] != '.',
            forall|j: int| d1 < j < i && j < d2 ==> name@[j] != '.',
            d2 < n ==> forall|j: int| d2 < j < i ==> name@[j] != '.',
        decreases n - i,
    {
        let c = name.get_char(i);
        if c == '.' {
            if d1 == n {
                d1 = i;
            } else if d2 == n {
                d2 = i;
            } else {
                // a third dot: no three-part decomposition exists
                proof {
                    assert forall|u: Seq<char>, ext: Seq<char>|
                        !splits_as(name@, u, content_kind(), ext)
                        && !splits_as(name@, u, metadata_kind(), ext) by {
                        if splits_as(name@, u, content_kind(), ext) {
                            lemma_splits_shape(name@, u, content_kind(), ext);
                        }
                        if splits_as(name@, u, metadata_kind(), ext) {
                            lemma_splits_shape(name@, u, metadata_kind(), ext);
                        }
                    }
                }
                return FileKind::Unrecognized;
            }
        }
        i += 1;
    }
    if d2 == n {
        // fewer than two dots: no three-part decomposition exists
        proof {
            assert forall|u: Seq<char>, ext: Seq<char>|
                !splits_as(name@, u, content_kind(), ext) && !splits_as(
                    name@,
                    u,
                    metadata_kind(),
                    ext,
                ) by {
                if splits_as(name@, u, content_kind(), ext) {
                    lemma_splits_shape(name@, u, content_kind(), ext);
                }
                if splits_as(name@, u, metadata_kind(), ext) {
                    lemma_splits_shape(name@, u, metadata_kind(), ext);
                }
            }
        }
        return FileKind::Unrecognized;
    }
    // exactly two dots, at d1 < d2
    proof {
        assert forall|u: Seq<char>, kind: Seq<char>, ext: Seq<char>|
            splits_as(name@, u, kind, ext) implies u.len() == d1 && kind.len() == d2 - d1 - 1
            && u == name@.subrange(0, d1 as int) && kind == name@.subrange(
            d1 as int + 1,
            d2 as int,
        ) by {
            lemma_splits_shape(name@, u, kind, ext);
            let p1 = u.len() as int;
            let p2 = u.len() + kind.len() + 1;
            if p1 != d1 {
                if p1 < d1 {
                    assert(name@[p1] == '.');
                } else {
                    assert(name@[d1 as int] == '.');
                }
                assert(false);
            }
            if p2 != d2 {
                assert(name@[d2 as int] == '.');
                assert(false);
            }
        }
    }
    let seg_len = d2 - d1 - 1;
    if seg_len == 3 && name.get_char(d1 + 1) == 'e' && name.get_char(d1 + 2) == 'n'
        && name.get_char(d1 + 3) == 'c' {
        let stem = String::from_str(name.substring_char(0, d1));
        proof {
            let ext = name@.subrange(d2 as int + 1, n as int);
            assert(name@.subrange(d1 as int + 1, d2 as int) =~= content_kind());
            assert(name@ =~= stem@ + seq!['.'] + content_kind() + seq!['.'] + ext);
            assert(!stem@.contains('.'));
            assert(!content_kind().contains('.'));
            assert forall|j: int| 0 <= j < ext.len() implies ext[j] != '.' by {
                assert(ext[j] == name@[d2 + 1 + j]);
            }
            assert(!ext.contains('.'));
            assert(splits_as(name@, stem@, content_kind(), ext));
        }
        FileKind::Content(stem)
    } else if seg_len == 4 && name.get_char(d1 + 1) == 'm' && name.get_char(d1 + 2) == 'e'
        && name.get_char(d1 + 3) == 't' && name.get_char(d1 + 4) == 'a' {
        let stem = String::from_str(name.substring_char(0, d1));
        proof {
            let ext = name@.subrange(d2 as int + 1, n as int);
            assert(name@.subrange(d1 as int + 1, d2 as int) =~= metadata_kind());
            assert(name@ =~= stem@ + seq!['.'] + metadata_kind() + seq!['.'] + ext);
            assert(!stem@.contains('.'));
            assert(!metadata_kind().contains('.'));
            assert forall|j: int| 0 <= j < ext.len() implies ext[j] != '.' by {
                assert(ext[j] == name@[d2 + 1 + j]);
            }
            assert(!ext.contains('.'));
            assert(splits_as(name@, stem@, metadata_kind(), ext));
        }
        FileKind::Metadata(stem)
    } else {
        proof {
            assert(content_kind().len() == 3);
            assert(metadata_kind().len() == 4);
        }
        FileKind::Unrecognized
    }
}


/// An identifier that has both of its files in a listing.
pub struct NotePair {
    /// The shared identifier stem.
    pub uuid: String,
    /// The name of the content file.
    pub content_name: String,
    /// The name of the metadata sidecar.
    pub metadata_name: String,
}

/// Some name in the listing is a content file for this identifier.
pub open spec fn has_content(names: Seq<String>, uuid: Seq<char>) -> bool {
    exists|k: int| 0 <= k < names.len() && is_content_name(names[k]@, uuid)
}

/// Some name in the listing is a metadata sidecar for this identifier.
pub open spec fn has_metadata(names: Seq<String>, uuid: Seq<char>) -> bool {
    exists|k: int| 0 <= k < names.len() && is_metadata_name(names[k]@, uuid)
}

/// Whether the pair list already carries this identifier.
fn contains_uuid(pairs: &Vec<NotePair>, uuid: &String) -> (r: bool)
    ensures
        r == exists|k: int| 0 <= k < pairs.len() && (#[trigger] pairs[k].uuid)@ == uuid@,
{
    let mut k: usize = 0;
    while k < pairs.len()
        invariant
            0 <= k <= pairs.len(),
            forall|j: int| 0 <= j < k ==> (#[trigger] pairs[j].uuid)@ != uuid@,
        decreases pairs.len() - k,
    {
        if pairs[k].uuid == *uuid {
            return true;
        }
        k += 1;
    }
    false
}

/// Finds a metadata sidecar carrying this identifier, if the listing has one.
fn find_metadata_for(names: &Vec<String>, uuid: &String) -> (r: Option<usize>)
    ensures
        r matches Some(j) ==> j < names.len() && is_metadata_name(names[j as int]@, uuid@),
        r is None ==> !has_metadata(names@, uuid@),
{
    let mut j: usize = 0;
    while j < names.len()
        invariant
            0 <= j <= names.len(),
            forall|q: int| 0 <= q < j ==> !is_metadata_name((#[trigger] names[q])@, uuid@),
        decreases names.len() - j,
    {
        match parse_note_filename(names[j].as_str()) {
            FileKind::Metadata(w) => {
                if w == *uuid {
                    return Some(j);
                }
            },
            _ => {},
        }
        j += 1;
    }
    None
}

/// The discovery pass over one directory listing: every identifier that has
/// both a content file and a metadata sidecar appears exactly once, joined to
/// one name of each kind out of the listing; an identifier with only one of
/// the two — an orphan — does not appear at all.
pub fn plan_reload(names: &Vec<String>) -> (pairs: Vec<NotePair>)
    ensures
        forall|k: int|
            0 <= k < pairs.len() ==> {
                &&& is_content_name((#[trigger] pairs[k]).content_name@, pairs[k].uuid@)
                &&& is_metadata_name(pairs[k].metadata_name@, pairs[k].uuid@)
                &&& names@.contains(pairs[k].content_name)
                &&& names@.contains(pairs[k].metadata_name)
            },
        forall|u: Seq<char>|
            #![trigger has_content(names@, u), has_metadata(names@, u)]
            has_content(names@, u) && has_metadata(names@, u) ==> exists|k: int|
                0 <= k < pairs.len() && (#[trigger] pairs[k]).uuid@ == u,
        forall|k1: int, k2: int|
            0 <= k1 < k2 < pairs.len() ==> (#[trigger] pairs[k1]).uuid@ != (
            #[trigger] pairs[k2]).uuid@,
{
    let mut pairs: Vec<NotePair> = Vec::new();
    let mut i: usize = 0;
    while i < names.len()
        invariant
            0 <= i <= names.len(),
            forall|k: int|
                0 <= k < pairs.len() ==> {
                    &&& is_content_name((#[trigger] pairs[k]).content_name@, pairs[k].uuid@)
                    &&& is_metadata_name(pairs[k].metadata_name@, pairs[k].uuid@)
                    &&& names@.contains(pairs[k].content_name)
                    &&& names@.contains(pairs[k].metadata_name)
                },
            pairs_complete(names@, i as int, pairs@),
            forall|k1: int, k2: int|
                0 <= k1 < k2 < pairs.len() ==> (#[trigger] pairs[k1]).uuid@ != (
                #[trigger] pairs[k2]).uuid@,
        decreases names.len() - i,
    {
        let ghost prefix = names@.subrange(0, i as int);
        let ghost prefix_next = names@.subrange(0, i as int + 1);
        let ghost old_pairs = pairs@;
        match parse_note_filename(names[i].as_str()) {
            FileKind::Content(u) => {
                let ghost u_view = u@;
                if !contains_uuid(&pairs, &u) {
                    match find_metadata_for(names, &u) {
                        Some(m_idx) => {
                            let pair = NotePair {
                                uuid: u,
                                content_name: names[i].clone(),
                                metadata_name: names[m_idx].clone(),
                            };
                            proof {
                                assert(pair.content_name == names@[i as int]);
                                assert(pair.metadata_name == names@[m_idx as int]);
                            }
                            pairs.push(pair);
                            proof {
                                assert(names@.contains(names@[i as int]));
                                assert(names@.contains(names@[m_idx as int]));
                                let last = pairs@.len() - 1;
                                assert(pairs@[last].uuid@ == u_view);
                                assert forall|u2: Seq<char>|
                                    has_content(prefix_next, u2) && #[trigger] has_metadata(
                                    names@, u2) implies exists|k: int|
                                    0 <= k < pairs@.len() && (#[trigger] pairs@[k]).uuid@
                                        == u2 by {
                                    let w = choose|k: int|
                                        0 <= k < prefix_next.len() && is_content_name(
                                            prefix_next[k]@,
                                            u2,
                                        );
                                    if w < i {
                                        assert(prefix[w] == prefix_next[w]);
                                        assert(has_content(prefix, u2));
                                        let k0 = choose|k: int|
                                            0 <= k < old_pairs.len() && (
                                            #[trigger] old_pairs[k]).uuid@ == u2;
                                        assert(pairs@[k0].uuid@ == u2);
                                    } else {
                                        assert(is_content_name(names@[i as int]@, u2));
                                        assert(u_view == u2);
                                        assert(pairs@[last].uuid@ == u2);
                                    }
                                }
                                assert(pairs_complete(names@, i as int + 1, pairs@));
                            }
                        },
                        None => {
                            proof {
                                assert forall|u2: Seq<char>|
                                    has_content(prefix_next, u2) && #[trigger] has_metadata(
                                    names@, u2) implies exists|k: int|
                                    0 <= k < pairs@.len() && (#[trigger] pairs@[k]).uuid@
                                        == u2 by {
                                    let w = choose|k: int|
                                        0 <= k < prefix_next.len() && is_content_name(
                                            prefix_next[k]@,
                                            u2,
                                        );
                                    if w < i {
                                        assert(prefix[w] == prefix_next[w]);
                                        assert(has_content(prefix, u2));
                                    } else {
                                        assert(is_content_name(names@[i as int]@, u2));
                                        assert(u_view == u2);
                                        assert(false);
                                    }
                                }
                                assert(pairs_complete(names@, i as int + 1, pairs@));
                            }
                        },
                    }
                } else {
                    proof {
                        assert forall|u2: Seq<char>|
                            has_content(prefix_next, u2) && #[trigger] has_metadata(names@, u2)
                            implies exists|k: int|
                            0 <= k < pairs@.len() && (#[trigger] pairs@[k]).uuid@ == u2 by {
                            let w = choose|k: int|
                                0 <= k < prefix_next.len() && is_content_name(
                                    prefix_next[k]@,
                                    u2,
                                );
                            if w < i {
                                assert(prefix[w] == prefix_next[w]);
                                assert(has_content(prefix, u2));
                            } else {
                                assert(is_content_name(names@[i as int]@, u2));
                                assert(u_view == u2);
                            }
                        }
                        assert(pairs_complete(names@, i as int + 1, pairs@));
                    }
                }
            },
            FileKind::Metadata(_) => {
                proof {
                    assert forall|u2: Seq<char>|
                        has_content(prefix_next, u2) && #[trigger] has_metadata(names@, u2)
                        implies exists|k: int|
                        0 <= k < pairs@.len() && (#[trigger] pairs@[k]).uuid@ == u2 by {
                        let w = choose|k: int|
                            0 <= k < prefix_next.len() && is_content_name(prefix_next[k]@, u2);
                        if w < i {
                            assert(prefix[w] == prefix_next[w]);
                            assert(has_content(prefix, u2));
                        } else {
                            assert(is_content_name(names@[i as int]@, u2));
                            assert(false);
                        }
                    }
                    assert(pairs_complete(names@, i as int + 1, pairs@));
                }
            },
            FileKind::Unrecognized => {
                proof {
                    assert forall|u2: Seq<char>|
                        has_content(prefix_next, u2) && #[trigger] has_metadata(names@, u2)
                        implies exists|k: int|
                        0 <= k < pairs@.len() && (#[trigger] pairs@[k]).uuid@ == u2 by {
                        let w = choose|k: int|
                            0 <= k < prefix_next.len() && is_content_name(prefix_next[k]@, u2);
                        if w < i {
                            assert(prefix[w] == prefix_next[w]);
                            assert(has_content(prefix, u2));
                        } else {
                            assert(is_content_name(names@[i as int]@, u2));
                            assert(false);
                        }
                    }
                    assert(pairs_complete(names@, i as int + 1, pairs@));
                }
            },
        }
        i += 1;
    }
    proof {
        assert(names@.subrange(0, names@.len() as int) =~= names@);
    }
    pairs
}

/// The completeness half of the discovery invariant: every identifier with a
/// content file among the first `upto` names and a metadata sidecar anywhere
/// already has its pair.
pub open spec fn pairs_complete(names: Seq<String>, upto: int, pairs: Seq<NotePair>) -> bool {
    forall|u: Seq<char>|
        has_content(names.subrange(0, upto), u) && #[trigger] has_metadata(names, u)
            ==> exists|k: int| 0 <= k < pairs.len() && (#[trigger] pairs[k]).uuid@ == u
}


/// One discovered note: a content file joined to its metadata sidecar by the
/// shared identifier.
pub struct Note {
    /// The shared identifier stem.
    pub uuid: String,
    /// The name of the encrypted content file.
    pub encrypted_file_path: String,
    /// The sidecar record.
    pub metadata: NoteMetadata,
}

/// Newest first: every note is at least as recently updated as those after
/// it.
pub open spec fn sorted_by_updated_desc(s: Seq<Note>) -> bool {
    forall|a: int, b: int|
        0 <= a < b < s.len() ==> (#[trigger] s[a]).metadata.updated_at >= (
        #[trigger] s[b]).metadata.updated_at
}

/// The notes that a pair list and its metadata load results yield, in input
/// order: a pair whose sidecar could not be read contributes nothing.
pub open spec fn joined_notes(pairs: Seq<NotePair>, metas: Seq<Option<NoteMetadata>>) -> Seq<Note>
    decreases pairs.len(),
{
    if pairs.len() == 0 || metas.len() == 0 {
        Seq::empty()
    } else {
        let rest = joined_notes(pairs.drop_first(), metas.drop_first());
        match metas.first() {
            Some(m) => seq![
                Note {
                    uuid: pairs.first().uuid,
                    encrypted_file_path: pairs.first().content_name,
                    metadata: m,
                },
            ] + rest,
            None => rest,
        }
    }
}

/// Reorders a listing newest-first by the metadata's update time. The result
/// is a permutation of the input: nothing is dropped, nothing invented.
pub fn sort_notes(notes: Vec<Note>) -> (r: Vec<Note>)
    ensures
        sorted_by_updated_desc(r@),
        r@.to_multiset() == notes@.to_multiset(),
{
    broadcast use vstd::seq_lib::group_to_multiset_ensures;
    broadcast use vstd::multiset::group_multiset_axioms;

    let ghost orig = notes@.to_multiset();
    let mut rest = notes;
    let mut out: Vec<Note> = Vec::new();
    while rest.len() > 0
        invariant
            out@.to_multiset().add(rest@.to_multiset()) == orig,
            sorted_by_updated_desc(out@),
            forall|a: int, b: int|
                0 <= a < out@.len() && 0 <= b < rest@.len() ==> (
                #[trigger] out@[a]).metadata.updated_at >= (
                #[trigger] rest@[b]).metadata.updated_at,
        decreases rest.len(),
    {
        let mut best: usize = 0;
        let mut k: usize = 1;
        while k < rest.len()
            invariant
                rest.len() > 0,
                best < k,
                k <= rest.len(),
                forall|j: int|
                    0 <= j < k ==> rest@[best as int].metadata.updated_at >= (
                    #[trigger] rest@[j]).metadata.updated_at,
            decreases rest.len() - k,
        {
            if rest[k].metadata.updated_at > rest[best].metadata.updated_at {
                best = k;
            }
            k += 1;
        }
        let ghost rest_before = rest@;
        let item = rest.remove(best);
        proof {
            vstd::seq_lib::to_multiset_remove(rest_before, best as int);
            vstd::seq_lib::to_multiset_contains(rest_before, item);
            assert(rest_before.contains(item)) by {
                assert(rest_before[best as int] == item);
            }
        }
        let ghost out_before = out@;
        out.push(item);
        proof {
            vstd::seq_lib::to_multiset_build(out_before, item);
            assert(out@.to_multiset().add(rest@.to_multiset()) =~= orig);
            assert forall|a: int, b: int|
                0 <= a < out@.len() && 0 <= b < rest@.len() implies (
            #[trigger] out@[a]).metadata.updated_at >= (
            #[trigger] rest@[b]).metadata.updated_at by {
                if b < best {
                    assert(rest@[b] == rest_before[b]);
                } else {
                    assert(rest@[b] == rest_before[b + 1]);
                }
                if a < out_before.len() {
                    assert(out@[a] == out_before[a]);
                } else {
                    assert(out@[a] == item);
                }
            }
        }
    }
    proof {
        assert forall|x: Note| #[trigger] rest@.to_multiset().count(x) == 0 by {
            vstd::seq_lib::to_multiset_contains(rest@, x);
            assert(!rest@.contains(x));
        }
        assert(out@.to_multiset() =~= orig);
    }
    out
}

/// Joins a pair list to its metadata load results and orders the outcome
/// newest-first. A pair whose sidecar failed to load is excluded, so one
/// unreadable sidecar never aborts the listing.
pub fn assemble_notes(pairs: Vec<NotePair>, metas: Vec<Option<NoteMetadata>>) -> (notes: Vec<Note>)
    requires
        pairs@.len() == metas@.len(),
    ensures
        sorted_by_updated_desc(notes@),
        notes@.to_multiset() == joined_notes(pairs@, metas@).to_multiset(),
{
    let ghost pairs0 = pairs@;
    let ghost metas0 = metas@;
    let mut pairs = pairs;
    let mut metas = metas;
    let mut collected: Vec<Note> = Vec::new();
    while pairs.len() > 0
        invariant
            metas@.len() == pairs@.len(),
            joined_notes(pairs0, metas0) == collected@ + joined_notes(pairs@, metas@),
        decreases pairs.len(),
    {
        let ghost pairs_before = pairs@;
        let ghost metas_before = metas@;
        let p = pairs.remove(0);
        let m = metas.remove(0);
        proof {
            assert(pairs@ =~= pairs_before.drop_first());
            assert(metas@ =~= metas_before.drop_first());
        }
        match m {
            Some(md) => {
                let note = Note { uuid: p.uuid, encrypted_file_path: p.content_name, metadata: md };
                let ghost collected_before = collected@;
                collected.push(note);
                proof {
                    assert(joined_notes(pairs_before, metas_before) =~= seq![note] + joined_notes(
                        pairs@,
                        metas@,
                    ));
                    assert(collected_before + joined_notes(pairs_before, metas_before)
                        =~= collected@ + joined_notes(pairs@, metas@));
                }
            },
            None => {
                proof {
                    assert(joined_notes(pairs_before, metas_before) =~= joined_notes(
                        pairs@,
                        metas@,
                    ));
                }
            },
        }
    }
    proof {
        assert(joined_notes(pairs@, metas@) =~= Seq::empty());
        assert(collected@ =~= joined_notes(pairs0, metas0));
    }
    sort_notes(collected)
}

/// The text that std's lossy UTF-8 conversion renders from the bytes.
pub uninterp spec fn lossy_utf8_of(bytes: Seq<u8>) -> Seq<char>;

/// Relies on std's `String::from_utf8_lossy`: the rendered text depends on
/// the bytes alone.
#[verifier::external_body]
fn utf8_lossy(bytes: &[u8]) -> (r: String)
    ensures
        r@ == lossy_utf8_of(bytes@),
{
    String::from_utf8_lossy(bytes).into_owned()
}

/// Decrypts one note's content for display. Best-effort: when decryption
/// fails, a fixed placeholder message comes back instead of an error, so a
/// bad note never aborts the listing around it. Whatever comes back is either
/// that message or the rendering of a plaintext this envelope decrypts to.
pub fn preview_note_content(envelope: &[u8], pin: &str) -> (r: String)
    ensures
        forall|pt: Seq<u8>|
            decrypts_to(envelope@, pin@, pt) && pin@.len() <= MAX_PIN_CHARS ==> r@
                == lossy_utf8_of(pt),
        !(exists|pt: Seq<u8>| decrypts_to(envelope@, pin@, pt)) ==> r@ == "Error reading note"@,
        r@ == "Error reading note"@ || (exists|pt: Seq<u8>|
            decrypts_to(envelope@, pin@, pt) && r@ == lossy_utf8_of(pt)),
{
    match decrypt_note_content(envelope, pin) {
        Ok(content) => {
            let rendered = utf8_lossy(content.as_slice());
            proof {
                assert(decrypts_to(envelope@, pin@, content@) && rendered@ == lossy_utf8_of(
                    content@,
                ));
            }
            rendered
        },
        Err(_) => String::from_str("Error reading note"),
    }
}

} // verus!
