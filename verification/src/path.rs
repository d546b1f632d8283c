//! Fingerprinted paths.
//!
//! A path is text whose directories are separated by `/`. Its file name is
//! what follows the last `/`. The fingerprint goes in front of the first `.`
//! of the file name, so that `app.min.js` becomes `app.<fingerprint>.min.js`
//! and `.eslintrc.json` becomes `.<fingerprint>.eslintrc.json`. A file name
//! without a `.` gets the fingerprint at its end, after a `.`, and so does
//! a hidden file whose only `.` is the one that opens its name: `.gitignore`
//! becomes `.gitignore.<fingerprint>`. Directories keep their names.

use crate::fingerprint::{fingerprint, fingerprint_of, is_fingerprint};
use crate::text::{chars_of, find_from, first_index_from, lemma_first_index_from};
use vstd::prelude::*;
use vstd::string::StrSliceExecFns;
use vstd::string::StringExecFns;

verus! {

/// Where the file name of `path` starts: behind its last `/`, or at 0.
pub open spec fn file_name_start(path: Seq<char>) -> int
    decreases path.len(),
{
    if path.len() == 0 {
        0
    } else if path.last() == '/' {
        path.len() as int
    } else {
        file_name_start(path.drop_last())
    }
}

/// The place in `path` where the fingerprint goes: the first `.` of the file
/// name; the end of the path where the file name has no `.`, or none but the
/// one that opens it.
pub open spec fn fingerprint_position(path: Seq<char>) -> int {
    let start = file_name_start(path);
    let first = first_index_from(path, '.', start);
    if first == start && first_index_from(path, '.', start + 1) >= path.len() {
        path.len() as int
    } else {
        first
    }
}

/// The place where the fingerprint goes lies in the file name or at the end
/// of the path; where it lies in the file name it holds a `.`.
pub proof fn lemma_fingerprint_position(path: Seq<char>)
    ensures
        0 <= file_name_start(path) <= fingerprint_position(path) <= path.len(),
        fingerprint_position(path) < path.len() ==> path[fingerprint_position(path)] == '.',
{
    lemma_file_name_start(path);
    lemma_first_index_from(path, '.', file_name_start(path));
    lemma_first_index_from(path, '.', file_name_start(path) + 1);
}

/// The file name of `path`: what follows its last `/`.
pub open spec fn file_name_of(path: Seq<char>) -> Seq<char> {
    path.subrange(file_name_start(path), path.len() as int)
}

/// `path` with `fingerprint` set into its file name.
pub open spec fn fingerprinted_path_of(path: Seq<char>, fingerprint: Seq<char>) -> Seq<char> {
    let cut = fingerprint_position(path);
    path.subrange(0, cut) + seq!['.'] + fingerprint + path.subrange(cut, path.len() as int)
}

/// Whether `busted` is `path` with some fingerprint set into its file name.
pub open spec fn is_fingerprinted_form(path: Seq<char>, busted: Seq<char>) -> bool {
    exists|fingerprint: Seq<char>|
        is_fingerprint(fingerprint) && busted == #[trigger] fingerprinted_path_of(
            path,
            fingerprint,
        )
}

/// The file name starts inside the path, behind a `/` unless it starts the
/// path, and holds no `/`.
pub proof fn lemma_file_name_start(path: Seq<char>)
    ensures
        0 <= file_name_start(path) <= path.len(),
        file_name_start(path) > 0 ==> path[file_name_start(path) - 1] == '/',
        forall|i: int| file_name_start(path) <= i < path.len() ==> path[i] != '/',
    decreases path.len(),
{
    if path.len() > 0 && path.last() != '/' {
        let shorter = path.drop_last();
        lemma_file_name_start(shorter);
        assert forall|i: int| file_name_start(path) <= i < path.len() implies path[i] != '/' by {
            if i < shorter.len() {
                assert(path[i] == shorter[i]);
            }
        }
        if file_name_start(path) > 0 {
            assert(path[file_name_start(path) - 1] == shorter[file_name_start(path) - 1]);
        }
    }
}

/// A file name with a `.` gets the fingerprint in front of its first `.`:
/// `app.min.js` becomes `app.<fingerprint>.min.js`. The one exception is a
/// file name whose only `.` is the one that opens it.
pub proof fn lemma_fingerprint_goes_before_first_dot(
    path: Seq<char>,
    fingerprint: Seq<char>,
    dot: int,
)
    requires
        file_name_start(path) <= dot < path.len(),
        path[dot] == '.',
        forall|i: int| file_name_start(path) <= i < dot ==> path[i] != '.',
        dot > file_name_start(path) || exists|j: int|
            file_name_start(path) < j < path.len() && path[j] == '.',
    ensures
        fingerprinted_path_of(path, fingerprint) == path.subrange(0, dot) + seq!['.'] + fingerprint
            + path.subrange(dot, path.len() as int),
{
    lemma_file_name_start(path);
    lemma_first_index_from(path, '.', file_name_start(path));
    lemma_first_index_from(path, '.', file_name_start(path) + 1);
    if dot == file_name_start(path) {
        let further = choose|j: int|
            file_name_start(path) < j < path.len() && path[j] == '.';
        assert(first_index_from(path, '.', file_name_start(path) + 1) <= further);
    }
}

/// A file name with no `.` gets the fingerprint at its end: `favicon`
/// becomes `favicon.<fingerprint>`. So does a hidden file whose only `.` is
/// the one that opens its name.
pub proof fn lemma_fingerprint_goes_to_the_end(path: Seq<char>, fingerprint: Seq<char>)
    requires
        forall|i: int| file_name_start(path) < i < path.len() ==> path[i] != '.',
    ensures
        fingerprinted_path_of(path, fingerprint) == path + seq!['.'] + fingerprint,
{
    lemma_file_name_start(path);
    lemma_first_index_from(path, '.', file_name_start(path));
    lemma_first_index_from(path, '.', file_name_start(path) + 1);
    let cut = fingerprint_position(path);
    assert(cut == path.len());
    assert(path.subrange(0, cut) == path);
    assert(path.subrange(cut, path.len() as int) == Seq::<char>::empty());
    assert(path + seq!['.'] + fingerprint + Seq::<char>::empty() == path + seq!['.']
        + fingerprint);
}

/// Nothing of the path is lost: with the fingerprint and the `.` in front
/// of it taken out again, the fingerprinted path is the path.
pub proof fn lemma_fingerprint_can_be_taken_out(path: Seq<char>, fingerprint: Seq<char>)
    ensures
        fingerprinted_path_of(path, fingerprint).len() == path.len() + 1 + fingerprint.len(),
        fingerprinted_path_of(path, fingerprint).subrange(0, fingerprint_position(path))
            + fingerprinted_path_of(path, fingerprint).subrange(
            fingerprint_position(path) + 1 + fingerprint.len(),
            fingerprinted_path_of(path, fingerprint).len() as int,
        ) == path,
        fingerprinted_path_of(path, fingerprint).subrange(
            fingerprint_position(path) + 1,
            fingerprint_position(path) + 1 + fingerprint.len(),
        ) == fingerprint,
{
    lemma_fingerprint_position(path);
    let cut = fingerprint_position(path);
    let busted = fingerprinted_path_of(path, fingerprint);
    assert(busted.subrange(0, cut) + busted.subrange(
        cut + 1 + fingerprint.len(),
        busted.len() as int,
    ) =~= path);
    assert(busted.subrange(cut + 1, cut + 1 + fingerprint.len()) =~= fingerprint);
}

/// The fingerprint touches the file name only: what stands in front of the
/// file name stays as it is, and the new file name starts at the same place.
pub proof fn lemma_fingerprint_keeps_directory(path: Seq<char>, fingerprint: Seq<char>)
    requires
        forall|i: int| 0 <= i < fingerprint.len() ==> fingerprint[i] != '/',
    ensures
        file_name_start(fingerprinted_path_of(path, fingerprint)) == file_name_start(path),
        fingerprinted_path_of(path, fingerprint).subrange(0, file_name_start(path))
            == path.subrange(0, file_name_start(path)),
{
    let start = file_name_start(path);
    let cut = fingerprint_position(path);
    let busted = fingerprinted_path_of(path, fingerprint);
    lemma_file_name_start(path);
    lemma_fingerprint_position(path);
    assert(busted.subrange(0, start) == path.subrange(0, start));
    assert forall|i: int| start <= i < busted.len() implies busted[i] != '/' by {
        if i < cut {
            assert(busted[i] == path[i]);
        } else if i == cut {
        } else if i < cut + 1 + fingerprint.len() {
            assert(busted[i] == fingerprint[i - cut - 1]);
        } else {
            assert(busted[i] == path[i - 1 - fingerprint.len()]);
        }
    }
    if start > 0 {
        assert(busted[start - 1] == path[start - 1]);
    }
    lemma_file_name_start_is(busted, start);
}

/// The one place that has a `/` in front of it, or is 0, and none behind it
/// is where the file name starts.
pub proof fn lemma_file_name_start_is(path: Seq<char>, start: int)
    requires
        0 <= start <= path.len(),
        start > 0 ==> path[start - 1] == '/',
        forall|i: int| start <= i < path.len() ==> path[i] != '/',
    ensures
        file_name_start(path) == start,
    decreases path.len(),
{
    if path.len() > 0 && path.last() != '/' {
        lemma_file_name_start_is(path.drop_last(), start);
    }
}

/// Finds where the file name of a path starts.
fn find_file_name_start(path: &Vec<char>) -> (start: usize)
    ensures
        start == file_name_start(path@),
{
    let mut start: usize = path.len();
    assert(path@.take(start as int) == path@);
    while start > 0 && path[start - 1] != '/'
        invariant
            start <= path.len(),
            file_name_start(path@) == file_name_start(path@.take(start as int)),
        decreases start,
    {
        assert(path@.take(start as int).drop_last() == path@.take(start as int - 1));
        start -= 1;
    }
    proof {
        if start == 0 {
            assert(path@.take(0).len() == 0);
        }
    }
    start
}

/// Finds where the fingerprint goes in a path.
fn find_fingerprint_position(path: &Vec<char>) -> (cut: usize)
    ensures
        cut == fingerprint_position(path@),
        cut <= path@.len(),
{
    proof {
        lemma_fingerprint_position(path@);
    }
    let start = find_file_name_start(path);
    let first = find_from(path, '.', start);
    if first > start || start >= path.len() {
        first
    } else if find_from(path, '.', start + 1) >= path.len() {
        path.len()
    } else {
        first
    }
}

/// The file name of a path: what follows its last `/`, the whole path where
/// it has none.
pub fn file_name(path: &str) -> (name: String)
    ensures
        name@ == file_name_of(path@),
{
    let chars = chars_of(path);
    proof {
        lemma_file_name_start(path@);
    }
    let start = find_file_name_start(&chars);
    String::from_str(path.substring_char(start, chars.len()))
}

/// Sets a fingerprint into the file name of `path`: in front of the first
/// `.` of the file name, or at the end of a file name that has no `.` or
/// none but the one that opens it. Every path is accepted.
pub fn fingerprinted_path(path: &str, fingerprint: &str) -> (busted: String)
    ensures
        busted@ == fingerprinted_path_of(path@, fingerprint@),
{
    let chars = chars_of(path);
    let cut = find_fingerprint_position(&chars);
    let mut busted = String::from_str(path.substring_char(0, cut));
    proof {
        reveal_strlit(".");
    }
    busted.append(".");
    busted.append(fingerprint);
    busted.append(path.substring_char(cut, chars.len()));
    assert(".".view() =~= seq!['.']);
    busted
}

/// The path under which a file with the given contents is kept: `path`
/// with the fingerprint of `contents` set into its file name.
pub fn generate_cache_busted_path(path: &str, contents: &[u8]) -> (busted: String)
    ensures
        busted@ == fingerprinted_path_of(path@, fingerprint_of(contents@)),
        is_fingerprinted_form(path@, busted@),
{
    let hash = fingerprint(contents);
    fingerprinted_path(path, hash.as_str())
}

} // verus!
