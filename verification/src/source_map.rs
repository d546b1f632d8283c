//! The reference from a script to its source map.
//!
//! A script ends with a comment such as `//# sourceMappingURL=app.js.map`.
//! Once both files carry a fingerprint the comment has to name the map's new
//! file name. The comment is found with a regular expression and replaced as
//! a whole; what stands before and behind it is kept as it is. What the
//! expression matched is looked at before it is replaced: it has to be such
//! a comment.

use crate::text::{
    chars_of, ends_with, find_from, first_index_from, has_prefix, has_suffix,
    lemma_first_index_from, starts_with,
};
use vstd::prelude::*;
use vstd::string::StrSliceExecFns;
use vstd::string::StringExecFns;

verus! {

/// Why a pattern could not be compiled.
#[verifier::external_type_specification]
#[verifier::external_body]
pub struct ExRegexError(regex::Error);

/// Why a script could not be rewritten.
#[derive(Clone, Copy, Debug, PartialEq, Eq, Structural)]
pub enum SourceMapError {
    /// The pattern for the comment was refused by the regular expression
    /// engine.
    InvalidPattern,
    /// What the engine matched is no comment that names a source map.
    NotAComment,
}

/// The leftmost match of a pattern in a text: what stands before the match,
/// the match, and what stands behind it.
pub struct MatchView {
    pub before: Seq<char>,
    pub matched: Seq<char>,
    pub after: Seq<char>,
}

/// The leftmost match of a pattern in a text, as three strings.
#[derive(Clone, Debug)]
pub struct FirstMatch {
    /// What stands before the match.
    pub before: String,
    /// The match.
    pub matched: String,
    /// What stands behind the match.
    pub after: String,
}

impl FirstMatch {
    /// The match as plain values.
    pub open spec fn view(&self) -> MatchView {
        MatchView { before: self.before@, matched: self.matched@, after: self.after@ }
    }
}

/// The three parts of an optional match as plain values.
pub open spec fn match_view(found: Option<FirstMatch>) -> Option<MatchView> {
    match found {
        Some(parts) => Some(parts@),
        None => None,
    }
}

/// What `regex::Regex::new` and `regex::Regex::find` come to for `pattern`
/// and `haystack`: `None` for a pattern that the engine refuses; otherwise
/// the leftmost match with what surrounds it, or `Some(None)` where nothing
/// matches.
pub uninterp spec fn regex_first_match(pattern: Seq<char>, haystack: Seq<char>) -> Option<
    Option<MatchView>,
>;

/// Compiles `pattern` with `regex::Regex::new` and searches `haystack` with
/// `Regex::find`. The error of a pattern that does not compile is handed on.
/// The match comes back as the three slices of `haystack` that its offsets
/// mark, so the three parts make up `haystack` again; whether the pattern
/// compiles and which match it is, the contract only names.
#[verifier::external_body]
fn find_first_match(pattern: &str, haystack: &str) -> (found: Result<
    Option<FirstMatch>,
    regex::Error,
>)
    ensures
        found is Ok <==> regex_first_match(pattern@, haystack@) is Some,
        found matches Ok(parts) ==> Some(match_view(parts)) == regex_first_match(
            pattern@,
            haystack@,
        ),
        found matches Ok(Some(parts)) ==> parts.before@ + parts.matched@ + parts.after@
            == haystack@,
{
    let expression = regex::Regex::new(pattern)?;
    match expression.find(haystack) {
        Some(found) => Ok(
            Some(
                FirstMatch {
                    before: haystack[..found.start()].to_string(),
                    matched: found.as_str().to_string(),
                    after: haystack[found.end()..].to_string(),
                },
            ),
        ),
        None => Ok(None),
    }
}

/// The words that open the comment.
pub open spec fn comment_prefix() -> Seq<char> {
    "//# sourceMappingURL="@
}

/// The pattern of a comment that names a `.js.map` file: the opening words,
/// then at least one character of the same line, then `.js.map`.
pub open spec fn comment_pattern() -> Seq<char> {
    "//# sourceMappingURL=(.+\\.js\\.map)"@
}

/// The comment that names `map_file_name`.
pub open spec fn comment_for(map_file_name: Seq<char>) -> Seq<char> {
    comment_prefix() + map_file_name
}

/// The end of the name of a source map.
pub open spec fn map_suffix() -> Seq<char> {
    ".js.map"@
}

/// Whether `text` is a comment that names a source map: the opening words
/// and then, on the same line, a name that ends in `.js.map` and is longer
/// than that.
pub open spec fn is_comment(text: Seq<char>) -> bool {
    &&& has_prefix(text, comment_prefix())
    &&& has_suffix(text, map_suffix())
    &&& text.len() > comment_prefix().len() + map_suffix().len()
    &&& first_index_from(text, '\n', 0) == text.len()
}

/// What a search comes to, as plain values: `None` for a pattern that was
/// refused.
pub open spec fn searched_view(searched: Result<Option<FirstMatch>, regex::Error>) -> Option<
    Option<MatchView>,
> {
    match searched {
        Ok(found) => Some(match_view(found)),
        Err(_) => None,
    }
}

/// A rewritten script, or the lack of one, as plain values.
pub open spec fn outcome_view(rewritten: Result<Option<String>, SourceMapError>) -> Result<
    Option<Seq<char>>,
    SourceMapError,
> {
    match rewritten {
        Ok(Some(text)) => Ok(Some(text@)),
        Ok(None) => Ok(None),
        Err(error) => Err(error),
    }
}

/// What rewriting comes to after a search: an error for a pattern that was
/// refused; nothing to write where nothing was found; the script with the
/// new comment in place of the old one where a comment was found; and an
/// error where what was found is no comment.
pub open spec fn rewrite_outcome(
    searched: Option<Option<MatchView>>,
    map_file_name: Seq<char>,
) -> Result<Option<Seq<char>>, SourceMapError> {
    match searched {
        None => Err(SourceMapError::InvalidPattern),
        Some(None) => Ok(None),
        Some(Some(parts)) => if is_comment(parts.matched) {
            Ok(Some(parts.before + comment_for(map_file_name) + parts.after))
        } else {
            Err(SourceMapError::NotAComment)
        },
    }
}

/// Whether `text` is `script` with one comment that names a source map
/// replaced by the comment that names `map_file_name`, and nothing else
/// changed.
pub open spec fn is_rewrite_of(
    script: Seq<char>,
    text: Seq<char>,
    map_file_name: Seq<char>,
) -> bool {
    exists|parts: MatchView|
        #[trigger] is_comment(parts.matched) && script == parts.before + parts.matched
            + parts.after && text == parts.before + comment_for(map_file_name) + parts.after
}

/// A script that is rewritten held a comment that named a source map on one
/// line, and the rewritten script differs from it in that name alone: where
/// the script is some text, the opening words, the old name and some more
/// text, the rewritten script is the same text, the opening words, the new
/// name and the same more text.
pub proof fn lemma_rewrite_replaces_the_name(
    script: Seq<char>,
    parts: MatchView,
    map_file_name: Seq<char>,
)
    requires
        parts.before + parts.matched + parts.after == script,
        is_comment(parts.matched),
    ensures
        ({
            let old_name = parts.matched.subrange(
                comment_prefix().len() as int,
                parts.matched.len() as int,
            );
            &&& script == parts.before + comment_for(old_name) + parts.after
            &&& rewrite_outcome(Some(Some(parts)), map_file_name) == Ok::<
                Option<Seq<char>>,
                SourceMapError,
            >(Some(parts.before + comment_for(map_file_name) + parts.after))
            &&& has_suffix(old_name, map_suffix())
            &&& old_name.len() > map_suffix().len()
            &&& forall|i: int| 0 <= i < old_name.len() ==> old_name[i] != '\n'
        }),
{
    let prefix = comment_prefix();
    let matched = parts.matched;
    let old_name = matched.subrange(prefix.len() as int, matched.len() as int);
    assert(matched =~= prefix + old_name);
    assert(old_name.subrange(old_name.len() - map_suffix().len(), old_name.len() as int)
        =~= matched.subrange(matched.len() - map_suffix().len(), matched.len() as int));
    lemma_first_index_from(matched, '\n', 0);
    assert forall|i: int| 0 <= i < old_name.len() implies old_name[i] != '\n' by {
        assert(old_name[i] == matched[i + prefix.len()]);
    }
}

/// The script with its comment replaced: `None` where no comment was found;
/// otherwise what stood before the comment, the new comment, and what stood
/// behind the old one.
pub open spec fn rewritten_of(found: Option<MatchView>, map_file_name: Seq<char>) -> Option<
    Seq<char>,
> {
    match found {
        Some(parts) => Some(parts.before + comment_for(map_file_name) + parts.after),
        None => None,
    }
}

/// Where a comment was found, the rewritten script differs from the script
/// in the comment alone: both start with the same text and end with the same
/// text.
pub proof fn lemma_rewrite_keeps_the_rest(
    script: Seq<char>,
    parts: MatchView,
    map_file_name: Seq<char>,
)
    requires
        parts.before + parts.matched + parts.after == script,
    ensures
        rewritten_of(Some(parts), map_file_name) matches Some(rewritten) && {
            &&& rewritten.subrange(0, parts.before.len() as int) == script.subrange(
                0,
                parts.before.len() as int,
            )
            &&& rewritten.subrange(rewritten.len() - parts.after.len(), rewritten.len() as int)
                == script.subrange(script.len() - parts.after.len(), script.len() as int)
            &&& rewritten.subrange(
                parts.before.len() as int,
                rewritten.len() - parts.after.len(),
            ) == comment_for(map_file_name)
        },
{
    let rewritten = parts.before + comment_for(map_file_name) + parts.after;
    assert(rewritten.subrange(0, parts.before.len() as int) =~= parts.before);
    assert(script.subrange(0, parts.before.len() as int) =~= parts.before);
    assert(rewritten.subrange(rewritten.len() - parts.after.len(), rewritten.len() as int)
        =~= parts.after);
    assert(script.subrange(script.len() - parts.after.len(), script.len() as int)
        =~= parts.after);
    assert(rewritten.subrange(parts.before.len() as int, rewritten.len() - parts.after.len())
        =~= comment_for(map_file_name));
}

/// The pattern by which the comment is found.
pub fn source_map_pattern() -> (pattern: &'static str)
    ensures
        pattern@ == comment_pattern(),
{
    "//# sourceMappingURL=(.+\\.js\\.map)"
}

/// The comment that points a script to the map file `map_file_name`.
pub fn source_map_comment(map_file_name: &str) -> (comment: String)
    ensures
        comment@ == comment_for(map_file_name@),
{
    let mut comment = String::from_str("//# sourceMappingURL=");
    comment.append(map_file_name);
    comment
}

/// Replaces the comment that was found in a script by the one that names
/// `map_file_name`. With nothing found there is nothing to write.
pub fn replace_reference(found: Option<FirstMatch>, map_file_name: &str) -> (rewritten: Option<
    String,
>)
    ensures
        rewritten is Some <==> found is Some,
        match rewritten {
            Some(script) => Some(script@) == rewritten_of(match_view(found), map_file_name@),
            None => rewritten_of(match_view(found), map_file_name@) is None,
        },
{
    match found {
        None => None,
        Some(parts) => {
            let mut script = parts.before;
            let comment = source_map_comment(map_file_name);
            script.append(comment.as_str());
            script.append(parts.after.as_str());
            Some(script)
        },
    }
}

/// Rewrites the comment of `script` so that it names `map_file_name`.
///
/// The result is `Ok(None)` where the script holds no such comment: the file
/// is then left as it is, which is no error. It is `Ok(Some(..))` with the
/// whole new text where it holds one. Only the leftmost comment is replaced.
/// The result is an error only where the engine refuses the pattern, or
/// matches what is no comment that names a source map.
pub fn rewrite_source_map_reference(script: &str, map_file_name: &str) -> (rewritten: Result<
    Option<String>,
    SourceMapError,
>)
    ensures
        outcome_view(rewritten) == rewrite_outcome(
            regex_first_match(comment_pattern(), script@),
            map_file_name@,
        ),
        rewritten matches Ok(Some(text)) ==> is_rewrite_of(script@, text@, map_file_name@),
{
    let searched = find_first_match(source_map_pattern(), script);
    rewritten_from(searched, map_file_name)
}

/// Tests whether `text` is a comment that names a source map.
pub fn is_source_map_comment(text: &str) -> (comment: bool)
    ensures
        comment == is_comment(text@),
{
    let chars = chars_of(text);
    let opening = "//# sourceMappingURL=";
    let ending = ".js.map";
    starts_with(text, opening) && ends_with(text, ending) && chars.len() - ending.unicode_len()
        > opening.unicode_len() && find_from(&chars, '\n', 0) == chars.len()
}

/// What a search of a script comes to: an engine that refused the pattern
/// makes the error; a search that found no comment leaves nothing to write;
/// a comment that was found is replaced by the one that names
/// `map_file_name`; anything else that was found makes an error.
pub fn rewritten_from(
    searched: Result<Option<FirstMatch>, regex::Error>,
    map_file_name: &str,
) -> (rewritten: Result<Option<String>, SourceMapError>)
    ensures
        outcome_view(rewritten) == rewrite_outcome(searched_view(searched), map_file_name@),
{
    match searched {
        Ok(Some(parts)) => {
            if is_source_map_comment(parts.matched.as_str()) {
                Ok(replace_reference(Some(parts), map_file_name))
            } else {
                Err(SourceMapError::NotAComment)
            }
        },
        Ok(None) => Ok(None),
        Err(_) => Err(SourceMapError::InvalidPattern),
    }
}

} // verus!
