use vstd::prelude::*;
use crate::text::{chars_of, string_of_chars};
use vstd::slice::slice_subrange;

verus! {

/// The flag that introduces the comma-separated list of extensions.
pub open spec fn format_flag() -> Seq<char> {
    seq!['-', '-', 'f', 'o', 'r', 'm', 'a', 't', '=']
}

/// The texts of a sequence of strings.
pub open spec fn views(v: Seq<String>) -> Seq<Seq<char>> {
    v.map_values(|s: String| s@)
}

/// The pieces of `s` between the occurrences of `sep`, from left to right. There is always at
/// least one piece, and a piece is empty where two separators meet or at an end of `s` that
/// is a separator.
pub open spec fn split_on(s: Seq<char>, sep: char) -> Seq<Seq<char>>
    decreases s.len(),
{
    if s.len() == 0 {
        seq![Seq::empty()]
    } else {
        let init = split_on(s.drop_last(), sep);
        if s.last() == sep {
            init.push(Seq::empty())
        } else {
            init.update(init.len() - 1, init.last().push(s.last()))
        }
    }
}

/// The extensions that the first argument from index `i` on that starts with the format flag
/// lists, or none when no such argument exists.
pub open spec fn formats_from(args: Seq<Seq<char>>, i: int) -> Option<Seq<Seq<char>>>
    decreases args.len() - i,
{
    if i < 0 || i >= args.len() {
        None
    } else if format_flag().is_prefix_of(args[i]) {
        Some(split_on(args[i].skip(format_flag().len() as int), ','))
    } else {
        formats_from(args, i + 1)
    }
}

/// The texts held in an optional list of strings.
pub open spec fn option_views(v: Option<Vec<String>>) -> Option<Seq<Seq<char>>> {
    match v {
        Some(l) => Some(views(l@)),
        None => None,
    }
}

proof fn lemma_split_nonempty(s: Seq<char>, sep: char)
    ensures
        split_on(s, sep).len() >= 1,
    decreases s.len(),
{
    if s.len() > 0 {
        lemma_split_nonempty(s.drop_last(), sep);
    }
}

/// Splits `s` at each occurrence of `sep`.
pub fn split_chars(s: &[char], sep: char) -> (r: Vec<String>)
    ensures
        views(r@) == split_on(s@, sep),
{
    let mut pieces: Vec<String> = Vec::new();
    let mut current: Vec<char> = Vec::new();
    let mut i: usize = 0;
    while i < s.len()
        invariant
            i <= s@.len(),
            views(pieces@).push(current@) == split_on(s@.take(i as int), sep),
        decreases s@.len() - i,
    {
        let c = s[i];
        proof {
            lemma_split_nonempty(s@.take(i as int), sep);
            assert(s@.take(i + 1).drop_last() =~= s@.take(i as int));
        }
        if c == sep {
            let piece = string_of_chars(current.as_slice());
            pieces.push(piece);
            current = Vec::new();
            assert(views(pieces@).push(current@) =~= split_on(s@.take(i + 1), sep));
        } else {
            current.push(c);
            assert(views(pieces@).push(current@) =~= split_on(s@.take(i + 1), sep));
        }
        i = i + 1;
    }
    let last = string_of_chars(current.as_slice());
    pieces.push(last);
    assert(s@.take(s@.len() as int) =~= s@);
    assert(views(pieces@) =~= split_on(s@, sep));
    pieces
}

/// Whether `p` is a prefix of `s`.
fn starts_with(s: &[char], p: &[char]) -> (r: bool)
    ensures
        r == p@.is_prefix_of(s@),
{
    if p.len() > s.len() {
        return false;
    }
    let mut k: usize = 0;
    while k < p.len()
        invariant
            p@.len() <= s@.len(),
            k <= p@.len(),
            forall|j: int| 0 <= j < k ==> s@[j] == p@[j],
        decreases p@.len() - k,
    {
        if s[k] != p[k] {
            return false;
        }
        k = k + 1;
    }
    true
}

/// The extensions given with the format flag: the first argument that starts with the flag
/// decides, and what follows the flag is split at each comma. Extensions are kept as given.
pub fn get_file_formats(args: &[String]) -> (r: Option<Vec<String>>)
    ensures
        option_views(r) == formats_from(views(args@), 0),
{
    let flag = chars_of("--format=");
    proof {
        reveal_strlit("--format=");
        assert(flag@ =~= format_flag());
    }
    let mut i: usize = 0;
    while i < args.len()
        invariant
            i <= args@.len(),
            flag@ == format_flag(),
            formats_from(views(args@), i as int) == formats_from(views(args@), 0),
        decreases args@.len() - i,
    {
        let arg = chars_of(args[i].as_str());
        if starts_with(arg.as_slice(), flag.as_slice()) {
            let rest = slice_subrange(arg.as_slice(), flag.len(), arg.len());
            let extensions = split_chars(rest, ',');
            assert(rest@ =~= arg@.skip(format_flag().len() as int));
            return Some(extensions);
        }
        i = i + 1;
    }
    None
}

/// Why a command line was refused.
#[derive(Debug, Clone, Copy, PartialEq, Eq, Structural)]
pub enum UsageError {
    /// Fewer than one or more than three arguments followed the program name.
    WrongArgumentCount,
    /// The search pattern was empty.
    EmptyPattern,
}

/// What to search for, where, and in which files.
#[derive(Debug)]
pub struct SearchRequest {
    pub pattern: String,
    pub directory: String,
    pub formats: Option<Vec<String>>,
}

/// The directory searched when the command line names none.
pub open spec fn default_directory() -> Seq<char> {
    seq!['.']
}

/// Reads a command line: the program name, the pattern, then optionally the directory and
/// the format flag. The directory is the second argument whatever it holds; the format flag
/// is looked for among all arguments.
pub fn parse_arguments(args: &Vec<String>) -> (r: Result<SearchRequest, UsageError>)
    ensures
        (args@.len() < 2 || args@.len() > 4) <==> r == Err::<SearchRequest, UsageError>(
            UsageError::WrongArgumentCount,
        ),
        (2 <= args@.len() <= 4 && args@[1]@.len() == 0) <==> r == Err::<SearchRequest, UsageError>(
            UsageError::EmptyPattern,
        ),
        r matches Ok(req) ==> {
            &&& req.pattern@ == args@[1]@
            &&& req.pattern@.len() > 0
            &&& req.directory@ == (if args@.len() > 2 {
                args@[2]@
            } else {
                default_directory()
            })
            &&& option_views(req.formats) == formats_from(views(args@), 0)
        },
{
    if args.len() < 2 || args.len() > 4 {
        return Err(UsageError::WrongArgumentCount);
    }
    let pattern = args[1].clone();
    let directory = if args.len() > 2 {
        args[2].clone()
    } else {
        proof {
            reveal_strlit(".");
        }
        ".".to_owned()
    };
    let formats = get_file_formats(args.as_slice());
    if pattern.as_str().is_empty() {
        return Err(UsageError::EmptyPattern);
    }
    Ok(SearchRequest { pattern, directory, formats })
}

} // verus!
