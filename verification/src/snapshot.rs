//! The snapshot of a table: a JSON object that holds each original path with
//! its fingerprinted path, written for people to read.

use crate::asset_table::{is_sorted, pairs_of, Pair};
use std::collections::BTreeMap;
use vstd::prelude::*;
use vstd::string::StringExecFns;

verus! {

/// Why a value could not be written as JSON.
#[verifier::external_type_specification]
#[verifier::external_body]
pub struct ExJsonError(serde_json::Error);

/// The text that `serde_json::to_string_pretty` gives for a map from text
/// to text that holds `pairs`, in their order.
pub uninterp spec fn json_pretty_of(pairs: Seq<Pair>) -> Seq<char>;

/// Calls `serde_json::to_string_pretty` on the pairs, handed over as a
/// `BTreeMap` of string slices. The pairs ascend strictly by key, so the
/// map holds them one for one and in the same order. The call writes to
/// memory and fails only on a value that refuses to be written or on a key
/// that is no string; a map from text to text has neither, so it succeeds.
/// The contract names the text that comes back.
#[verifier::external_body]
pub(crate) fn to_json_pretty(entries: &Vec<(String, String)>) -> (json: Result<
    String,
    serde_json::Error,
>)
    requires
        is_sorted(pairs_of(entries@)),
    ensures
        json is Ok,
        json matches Ok(text) ==> text@ == json_pretty_of(pairs_of(entries@)),
{
    let object: BTreeMap<&str, &str> =
        entries.iter().map(|(k, v)| (k.as_str(), v.as_str())).collect();
    serde_json::to_string_pretty(&object)
}

/// The name of the snapshot file.
pub open spec fn snapshot_file_name() -> Seq<char> {
    "cache-buster.json"@
}

/// The path of the snapshot file in the directory `output_dir`: the file
/// name alone for an empty directory path, and a `/` between the two unless
/// the directory path ends with one.
pub open spec fn snapshot_path_of(output_dir: Seq<char>) -> Seq<char> {
    if output_dir.len() == 0 {
        snapshot_file_name()
    } else if output_dir.last() == '/' {
        output_dir + snapshot_file_name()
    } else {
        output_dir + seq!['/'] + snapshot_file_name()
    }
}

/// A file that is to be written: where, and what.
#[derive(Clone, Debug)]
pub struct Snapshot {
    /// The path of the file.
    pub path: String,
    /// The text that the file is to hold.
    pub contents: String,
}

/// Why no snapshot could be made.
#[derive(Clone, Copy, Debug, PartialEq, Eq, Structural)]
pub enum SnapshotError {
    /// The table could not be written as JSON.
    Json,
}

/// What writing the table as JSON comes to: the file to write in
/// `output_dir`, with the text that was written, or the error where none
/// was.
pub fn snapshot_from(written: Result<String, serde_json::Error>, output_dir: &str) -> (snapshot:
    Result<Snapshot, SnapshotError>)
    ensures
        match written {
            Ok(text) => snapshot matches Ok(file) && file.path@ == snapshot_path_of(output_dir@)
                && file.contents == text,
            Err(_) => snapshot == Err::<Snapshot, SnapshotError>(SnapshotError::Json),
        },
{
    match written {
        Ok(contents) => Ok(Snapshot { path: snapshot_path(output_dir), contents }),
        Err(_) => Err(SnapshotError::Json),
    }
}

/// The path of the snapshot file in `output_dir`.
pub fn snapshot_path(output_dir: &str) -> (path: String)
    ensures
        path@ == snapshot_path_of(output_dir@),
{
    let chars = crate::text::chars_of(output_dir);
    let mut path = String::from_str(output_dir);
    if chars.len() > 0 && chars[chars.len() - 1] != '/' {
        proof {
            reveal_strlit("/");
        }
        path.append("/");
        assert("/"@ =~= seq!['/']);
    }
    path.append("cache-buster.json");
    assert(output_dir@.len() == 0 ==> path@ =~= snapshot_file_name());
    path
}

} // verus!
