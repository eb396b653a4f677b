use vstd::prelude::*;
use crate::args::views;
use crate::text::{
    chars_of, contains_chars, contains_seq, count_occurrences, lower_of, occurrences, text_of, to_lowercase,
};
use vstd::slice::slice_subrange;
use vstd::utf8::{decode_utf8, valid_utf8};

verus! {

/// The byte of `.` in UTF-8.
pub const DOT: u8 = 46;

/// What kind of failure reading a file met.
#[derive(Debug, Clone, Copy, PartialEq, Eq, Structural)]
pub enum FsErrorKind {
    /// The file's content is not valid text.
    InvalidData,
    /// Any other failure: permission denied, a file that vanished, a device error.
    Other,
}

/// A failure of the file system, with its description.
#[derive(Debug)]
pub struct FsError {
    pub kind: FsErrorKind,
    pub message: String,
}

/// How a file matched the pattern. A result exists only when the name or the content
/// matched, and `content_match` holds exactly when `match_count` is positive.
#[derive(Debug, Clone, Copy, PartialEq, Eq, Structural)]
pub struct MatchResult {
    pub filename_match: bool,
    pub content_match: bool,
    pub match_count: usize,
}

/// The index of the last `.` in `name`, or -1 when there is none.
pub open spec fn last_dot(name: Seq<u8>) -> int
    decreases name.len(),
{
    if name.len() == 0 {
        -1
    } else if name.last() == DOT {
        name.len() - 1
    } else {
        last_dot(name.drop_last())
    }
}

/// The extension of a file name: what follows its last `.`. A name without a dot, a name
/// whose only dot leads it (a hidden file such as `.profile`), and `..` have none.
pub open spec fn extension_of(name: Seq<u8>) -> Option<Seq<u8>> {
    if name == seq![DOT, DOT] || last_dot(name) <= 0 {
        None
    } else {
        Some(name.skip(last_dot(name) + 1))
    }
}

/// A file passes the filter when its extension is valid text whose lowercase form is one of
/// the listed extensions, which are compared as given.
pub open spec fn extension_allowed(name: Seq<u8>, formats: Seq<Seq<char>>) -> bool {
    match extension_of(name) {
        Some(e) => valid_utf8(e) && formats.contains(lower_of(decode_utf8(e))),
        None => false,
    }
}

/// The pattern occurs in the file name, read as text; a name that is not valid text
/// never matches.
pub open spec fn name_matches(name: Seq<u8>, pattern: Seq<char>) -> bool {
    valid_utf8(name) && contains_seq(decode_utf8(name), pattern)
}

/// The occurrences of the pattern in what reading the file gave: none where the content is
/// not valid text.
pub open spec fn content_occurrences(content: Result<String, FsError>, pattern: Seq<char>) -> nat {
    match content {
        Ok(t) => occurrences(t@, pattern),
        Err(_) => 0,
    }
}

/// Reading the file failed for a reason other than content that is not valid text.
pub open spec fn read_failed(content: Result<String, FsError>) -> bool {
    content matches Err(e) && e.kind != FsErrorKind::InvalidData
}

/// The result of matching a file whose name and content were read.
pub open spec fn match_of(name: Seq<u8>, count: nat, pattern: Seq<char>) -> Option<MatchResult> {
    if name_matches(name, pattern) || count > 0 {
        Some(
            MatchResult {
                filename_match: name_matches(name, pattern),
                content_match: count > 0,
                match_count: count as usize,
            },
        )
    } else {
        None
    }
}

/// A file is reported with its name flagged exactly when the pattern occurs in its name,
/// whatever its content holds.
pub proof fn lemma_filename_flag(name: Seq<u8>, count: nat, pattern: Seq<char>)
    ensures
        name_matches(name, pattern) ==> match_of(name, count, pattern) is Some,
        match_of(name, count, pattern) matches Some(m) ==> m.filename_match == name_matches(
            name,
            pattern,
        ),
{
}

/// A reported file has its content flagged exactly when its count of occurrences is positive,
/// and a file with neither kind of match is not reported.
pub proof fn lemma_content_flag(name: Seq<u8>, count: nat, pattern: Seq<char>)
    requires
        count <= usize::MAX,
    ensures
        match_of(name, count, pattern) matches Some(m) ==> (m.content_match <==> m.match_count
            > 0) && m.match_count == count,
        match_of(name, count, pattern) is None <==> !name_matches(name, pattern) && count == 0,
{
}

/// Content that is not valid text never ends a run and adds no occurrence, and the file can
/// still be reported for its name.
pub proof fn lemma_invalid_text_is_no_failure(e: FsError, name: Seq<u8>, pattern: Seq<char>)
    requires
        e.kind == FsErrorKind::InvalidData,
    ensures
        !read_failed(Err(e)),
        content_occurrences(Err(e), pattern) == 0,
        match_of(name, content_occurrences(Err(e), pattern), pattern) == (if name_matches(
            name,
            pattern,
        ) {
            Some(MatchResult { filename_match: true, content_match: false, match_count: 0 })
        } else {
            None
        }),
{
}

proof fn lemma_last_dot(name: Seq<u8>)
    ensures
        -1 <= last_dot(name) < name.len(),
        last_dot(name) >= 0 ==> name[last_dot(name)] == DOT,
        forall|j: int| last_dot(name) < j < name.len() ==> name[j] != DOT,
    decreases name.len(),
{
    if name.len() > 0 && name.last() != DOT {
        lemma_last_dot(name.drop_last());
        assert forall|j: int| last_dot(name) < j < name.len() implies name[j] != DOT by {
            if j < name.len() - 1 {
                assert(name.drop_last()[j] == name[j]);
            }
        }
    }
}

/// The index of the last `.` in `name`, if any.
fn find_last_dot(name: &[u8]) -> (r: Option<usize>)
    ensures
        r is None <==> last_dot(name@) == -1,
        r matches Some(i) ==> i == last_dot(name@),
{
    let mut i: usize = name.len();
    assert(name@.take(i as int) =~= name@);
    while i > 0
        invariant
            i <= name@.len(),
            last_dot(name@) == last_dot(name@.take(i as int)),
        decreases i,
    {
        assert(name@.take(i as int).drop_last() =~= name@.take(i - 1));
        if name[i - 1] == DOT {
            return Some(i - 1);
        }
        i = i - 1;
    }
    None
}

/// The extension of a file name, if it has one.
pub fn file_extension(name: &[u8]) -> (r: Option<&[u8]>)
    ensures
        r is Some <==> extension_of(name@) is Some,
        r matches Some(e) ==> extension_of(name@) == Some(e@),
{
    proof {
        assert(name@.take(name@.len() as int) =~= name@);
        lemma_last_dot(name@);
    }
    if name.len() == 2 && name[0] == DOT && name[1] == DOT {
        assert(name@ =~= seq![DOT, DOT]);
        return None;
    }
    assert(name@ != seq![DOT, DOT]);
    match find_last_dot(name) {
        Some(i) => {
            if i == 0 {
                None
            } else {
                let e = slice_subrange(name, i + 1, name.len());
                assert(e@ =~= name@.skip(i + 1));
                Some(e)
            }
        },
        None => None,
    }
}

/// Whether `t` is one of the texts of `list`.
pub fn contains_text(list: &[String], t: &String) -> (r: bool)
    ensures
        r == views(list@).contains(t@),
{
    let mut i: usize = 0;
    while i < list.len()
        invariant
            i <= list@.len(),
            forall|j: int| 0 <= j < i ==> list@[j]@ != t@,
        decreases list@.len() - i,
    {
        if list[i] == *t {
            assert(views(list@)[i as int] == t@);
            return true;
        }
        i = i + 1;
    }
    assert forall|j: int| 0 <= j < views(list@).len() implies views(list@)[j] != t@ by {
        assert(views(list@)[j] == list@[j]@);
    }
    false
}

/// Whether a file with the given name passes the extension filter `formats`.
pub fn matches_extension(file_name: &[u8], formats: &[String]) -> (r: bool)
    ensures
        r == extension_allowed(file_name@, views(formats@)),
{
    match file_extension(file_name) {
        Some(e) => match text_of(e) {
            Some(t) => {
                let lower = to_lowercase(t.as_str());
                contains_text(formats, &lower)
            },
            None => false,
        },
        None => false,
    }
}

/// Matches a file against a non-empty pattern, given its name and what reading its content
/// gave. A failure to read is passed on, except content that is not valid text, which counts
/// as holding no occurrence.
pub fn match_pattern(file_name: &[u8], content: Result<String, FsError>, pattern: &str) -> (r:
    Result<Option<MatchResult>, FsError>)
    requires
        pattern@.len() > 0,
    ensures
        read_failed(content) ==> r == Err::<Option<MatchResult>, FsError>(content->Err_0),
        !read_failed(content) ==> r == Ok::<
            Option<MatchResult>,
            FsError,
        >(match_of(file_name@, content_occurrences(content, pattern@), pattern@)),
{
    let pat = chars_of(pattern);
    let filename_match = match text_of(file_name) {
        Some(name) => contains_chars(chars_of(name.as_str()).as_slice(), pat.as_slice()),
        None => false,
    };
    let match_count: usize = match content {
        Ok(t) => count_occurrences(chars_of(t.as_str()).as_slice(), pat.as_slice()),
        Err(e) => {
            if e.kind != FsErrorKind::InvalidData {
                return Err(e);
            }
            0
        },
    };
    let content_match = match_count > 0;
    if filename_match || content_match {
        Ok(Some(MatchResult { filename_match, content_match, match_count }))
    } else {
        Ok(None)
    }
}

} // verus!
