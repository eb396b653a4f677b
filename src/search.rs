use vstd::prelude::*;
use crate::args::{option_views, SearchRequest};
use crate::matcher::{
    content_occurrences, extension_allowed, match_of, match_pattern, matches_extension,
    read_failed, FsError, MatchResult,
};

verus! {

/// What an entry of a directory is.
#[derive(Debug, Clone, Copy, PartialEq, Eq, Structural)]
pub enum EntryKind {
    Directory,
    File,
    /// Neither a directory nor a regular file.
    Other,
}

/// What the walk does with an entry.
#[derive(Debug, Clone, Copy, PartialEq, Eq, Structural)]
pub enum EntryAction {
    /// Walk into the directory.
    Descend,
    /// Read the file and match it.
    Inspect,
    /// Leave the entry alone, without opening it.
    Skip,
}

/// One line of the report on a matched file.
#[derive(Debug, Clone, Copy, PartialEq, Eq, Structural)]
pub enum ReportLine {
    /// The file's path.
    Path,
    /// The pattern occurs in the file's name.
    FilenameMatch,
    /// The pattern occurs in the content, this many times.
    ContentMatch(usize),
    /// Both the name and the content matched.
    BothMatch,
    /// The line that closes the report.
    Separator,
}

/// What the walk does with an entry of the given kind and name under an optional filter.
/// Directories are always walked into; the filter applies to files only.
pub open spec fn entry_action(
    kind: EntryKind,
    name: Seq<u8>,
    formats: Option<Seq<Seq<char>>>,
) -> EntryAction {
    match kind {
        EntryKind::Directory => EntryAction::Descend,
        EntryKind::File => match formats {
            Some(f) => if extension_allowed(name, f) {
                EntryAction::Inspect
            } else {
                EntryAction::Skip
            },
            None => EntryAction::Inspect,
        },
        EntryKind::Other => EntryAction::Skip,
    }
}

/// The report on a matched file: its path, a line for each kind of match, a line when both
/// kinds matched, and a closing line.
pub open spec fn report_of(m: MatchResult) -> Seq<ReportLine> {
    seq![ReportLine::Path] + (if m.filename_match {
        seq![ReportLine::FilenameMatch]
    } else {
        seq![]
    }) + (if m.content_match {
        seq![ReportLine::ContentMatch(m.match_count)]
    } else {
        seq![]
    }) + (if m.filename_match && m.content_match {
        seq![ReportLine::BothMatch]
    } else {
        seq![]
    }) + seq![ReportLine::Separator]
}

/// The lines that report a matched file, in order.
pub fn report_lines(m: &MatchResult) -> (r: Vec<ReportLine>)
    ensures
        r@ == report_of(*m),
{
    let mut lines: Vec<ReportLine> = Vec::new();
    lines.push(ReportLine::Path);
    if m.filename_match {
        lines.push(ReportLine::FilenameMatch);
    }
    if m.content_match {
        lines.push(ReportLine::ContentMatch(m.match_count));
    }
    if m.filename_match && m.content_match {
        lines.push(ReportLine::BothMatch);
    }
    lines.push(ReportLine::Separator);
    assert(lines@ =~= report_of(*m));
    lines
}

/// A search run: the request, and the number of files matched so far.
pub struct Search {
    pattern: String,
    formats: Option<Vec<String>>,
    matched_files_count: usize,
}

impl Search {
    /// The pattern searched for.
    pub closed spec fn pattern(&self) -> Seq<char> {
        self.pattern@
    }

    /// The extensions that files must have, when a filter was asked for.
    pub closed spec fn formats(&self) -> Option<Seq<Seq<char>>> {
        option_views(self.formats)
    }

    /// The number of files matched so far.
    pub closed spec fn count(&self) -> nat {
        self.matched_files_count as nat
    }

    /// The pattern is not empty.
    pub open spec fn wf(&self) -> bool {
        self.pattern().len() > 0
    }

    /// Starts a run for a request with a non-empty pattern; no file has matched yet.
    pub fn new(request: SearchRequest) -> (r: Search)
        requires
            request.pattern@.len() > 0,
        ensures
            r.wf(),
            r.pattern() == request.pattern@,
            r.formats() == option_views(request.formats),
            r.count() == 0,
    {
        Search { pattern: request.pattern, formats: request.formats, matched_files_count: 0 }
    }

    /// The number of files matched so far.
    pub fn matched_files_count(&self) -> (r: usize)
        ensures
            r == self.count(),
    {
        self.matched_files_count
    }

    /// Decides what the walk does with a directory entry of the given kind and name.
    pub fn on_entry(&self, kind: EntryKind, file_name: &[u8]) -> (r: EntryAction)
        ensures
            r == entry_action(kind, file_name@, self.formats()),
    {
        match kind {
            EntryKind::Directory => EntryAction::Descend,
            EntryKind::File => match &self.formats {
                Some(f) => if matches_extension(file_name, f.as_slice()) {
                    EntryAction::Inspect
                } else {
                    EntryAction::Skip
                },
                None => EntryAction::Inspect,
            },
            EntryKind::Other => EntryAction::Skip,
        }
    }

    /// Matches an inspected file, given its name and what reading it gave, and counts it once
    /// when it matched, however many occurrences it holds. A failure to read, other than
    /// content that is not valid text, ends the run: it is returned.
    pub fn on_file(&mut self, file_name: &[u8], content: Result<String, FsError>) -> (r: Result<
        Option<MatchResult>,
        FsError,
    >)
        requires
            old(self).wf(),
            old(self).count() < usize::MAX,
        ensures
            final(self).wf(),
            final(self).pattern() == old(self).pattern(),
            final(self).formats() == old(self).formats(),
            read_failed(content) ==> r == Err::<Option<MatchResult>, FsError>(content->Err_0),
            !read_failed(content) ==> r == Ok::<Option<MatchResult>, FsError>(
                match_of(file_name@, content_occurrences(content, old(self).pattern()), old(self).pattern()),
            ),
            final(self).count() == old(self).count() + (if r matches Ok(Some(_)) {
                1nat
            } else {
                0nat
            }),
    {
        let r = match_pattern(file_name, content, self.pattern.as_str());
        if let Ok(Some(_)) = &r {
            self.matched_files_count = self.matched_files_count + 1;
        }
        r
    }

    /// Ends the run once the walk is over: the number of matched files when the walk
    /// succeeded, else the failure that stopped it.
    pub fn finish(self, walk: Result<(), FsError>) -> (r: Result<usize, FsError>)
        ensures
            walk is Ok ==> r == Ok::<usize, FsError>(self.count() as usize),
            walk is Err ==> r == Err::<usize, FsError>(walk->Err_0),
    {
        match walk {
            Ok(()) => Ok(self.matched_files_count),
            Err(e) => Err(e),
        }
    }
}

/// Starts a search run from the root entry of the request. Only a directory is walked: for
/// any other root the run is over at once, with no file matched.
pub fn search_in_filesystem(request: SearchRequest, root: EntryKind) -> (r: (Search, bool))
    requires
        request.pattern@.len() > 0,
    ensures
        r.0.wf(),
        r.0.pattern() == request.pattern@,
        r.0.formats() == option_views(request.formats),
        r.0.count() == 0,
        r.1 == (root == EntryKind::Directory),
{
    let walk = root == EntryKind::Directory;
    (Search::new(request), walk)
}

} // verus!
