use nano_grep::args::{get_file_formats, parse_arguments, split_chars, UsageError};
use nano_grep::matcher::{
    contains_text, file_extension, match_pattern, matches_extension, FsError, FsErrorKind,
    MatchResult,
};
use nano_grep::search::{
    report_lines, search_in_filesystem, EntryAction, EntryKind, ReportLine, Search,
};
use nano_grep::args::SearchRequest;
use nano_grep::text::{chars_of, contains_chars, count_occurrences, matches_at};

fn strings(v: &[&str]) -> Vec<String> {
    v.iter().map(|s| s.to_string()).collect()
}

fn request(pattern: &str, formats: Option<&[&str]>) -> SearchRequest {
    SearchRequest {
        pattern: pattern.to_string(),
        directory: "root".to_string(),
        formats: formats.map(strings),
    }
}

fn other_error() -> FsError {
    FsError { kind: FsErrorKind::Other, message: "permission denied".to_string() }
}

fn invalid_data() -> FsError {
    FsError { kind: FsErrorKind::InvalidData, message: "stream did not contain valid UTF-8".to_string() }
}

fn found(filename_match: bool, match_count: usize) -> MatchResult {
    MatchResult { filename_match, content_match: match_count > 0, match_count }
}

#[test]
fn occurrences_do_not_overlap() {
    assert_eq!(count_occurrences(&chars_of("aaaa"), &chars_of("aa")), 2);
    assert_eq!(count_occurrences(&chars_of("aaaaa"), &chars_of("aa")), 2);
    assert_eq!(count_occurrences(&chars_of("hello world hello"), &chars_of("hello")), 2);
    assert_eq!(count_occurrences(&chars_of(""), &chars_of("a")), 0);
    assert_eq!(count_occurrences(&chars_of("ab"), &chars_of("abc")), 0);
    assert_eq!(count_occurrences(&chars_of("abcabc"), &chars_of("abc")), 2);
    assert_eq!(count_occurrences(&chars_of("ééé"), &chars_of("é")), 3);
}

#[test]
fn character_search() {
    assert!(matches_at(&chars_of("xabc"), &chars_of("ab"), 1));
    assert!(!matches_at(&chars_of("xabc"), &chars_of("ab"), 2));
    assert!(!matches_at(&chars_of("xabc"), &chars_of("ab"), 9));
    assert!(contains_chars(&chars_of("report-hello.txt"), &chars_of("hello")));
    assert!(!contains_chars(&chars_of("report.txt"), &chars_of("hello")));
    assert!(contains_chars(&chars_of(""), &chars_of("")));
}

#[test]
fn characters_of_text() {
    assert_eq!(chars_of("héllo"), vec!['h', 'é', 'l', 'l', 'o']);
    assert_eq!(chars_of(""), Vec::<char>::new());
}

#[test]
fn filename_match_is_substring_of_base_name() {
    let r = match_pattern(b"my_hello.log", Ok(String::new()), "hello").unwrap();
    assert_eq!(r, Some(found(true, 0)));
    let r = match_pattern(b"my_hel.log", Ok(String::new()), "hello").unwrap();
    assert_eq!(r, None);
    let r = match_pattern(b"Hello.log", Ok(String::new()), "hello").unwrap();
    assert_eq!(r, None);
}

#[test]
fn name_that_is_not_text_never_matches() {
    let r = match_pattern(b"hello\xff", Ok(String::new()), "hello").unwrap();
    assert_eq!(r, None);
}

#[test]
fn content_count_in_match_result() {
    let r = match_pattern(b"data.txt", Ok("aaaa".to_string()), "aa").unwrap();
    assert_eq!(r, Some(found(false, 2)));
    let r = match_pattern(b"aa.txt", Ok("aaaa".to_string()), "aa").unwrap();
    assert_eq!(r, Some(MatchResult { filename_match: true, content_match: true, match_count: 2 }));
}

#[test]
fn invalid_text_counts_nothing_and_does_not_fail() {
    let r = match_pattern(b"hello.bin", Err(invalid_data()), "hello").unwrap();
    assert_eq!(r, Some(found(true, 0)));
    let r = match_pattern(b"image.bin", Err(invalid_data()), "hello").unwrap();
    assert_eq!(r, None);
}

#[test]
fn read_failure_is_passed_on() {
    let r = match_pattern(b"hello.txt", Err(other_error()), "hello");
    match r {
        Err(e) => {
            assert_eq!(e.kind, FsErrorKind::Other);
            assert_eq!(e.message, "permission denied");
        }
        Ok(_) => panic!("a read failure must end the run"),
    }
}

#[test]
fn extensions_of_names() {
    assert_eq!(file_extension(b"notes.txt"), Some(&b"txt"[..]));
    assert_eq!(file_extension(b"archive.tar.gz"), Some(&b"gz"[..]));
    assert_eq!(file_extension(b"trailing."), Some(&b""[..]));
    assert_eq!(file_extension(b".profile"), None);
    assert_eq!(file_extension(b".."), None);
    assert_eq!(file_extension(b"README"), None);
    assert_eq!(file_extension(b""), None);
}

#[test]
fn filter_lowercases_the_extension_only() {
    let lower = strings(&["txt"]);
    assert!(matches_extension(b"notes.txt", &lower));
    assert!(matches_extension(b"notes.TXT", &lower));
    assert!(!matches_extension(b"notes.md", &lower));
    assert!(!matches_extension(b"notes", &lower));
    let upper = strings(&["TXT"]);
    assert!(!matches_extension(b"notes.txt", &upper));
    assert!(!matches_extension(b"notes.TXT", &upper));
}

#[test]
fn filter_with_empty_extension() {
    let formats = strings(&["txt", ""]);
    assert!(matches_extension(b"trailing.", &formats));
    assert!(!matches_extension(b"README", &formats));
    assert!(!matches_extension(b"bad.\xff", &formats));
}

#[test]
fn text_lists() {
    let list = strings(&["txt", "md"]);
    assert!(contains_text(&list, &"md".to_string()));
    assert!(!contains_text(&list, &"rs".to_string()));
    assert!(!contains_text(&[], &"rs".to_string()));
}

#[test]
fn splitting_at_commas() {
    assert_eq!(split_chars(&chars_of("txt,md"), ','), strings(&["txt", "md"]));
    assert_eq!(split_chars(&chars_of("txt,"), ','), strings(&["txt", ""]));
    assert_eq!(split_chars(&chars_of(""), ','), strings(&[""]));
    assert_eq!(split_chars(&chars_of(",,"), ','), strings(&["", "", ""]));
}

#[test]
fn formats_from_arguments() {
    let args = strings(&["nano-grep", "x", "dir", "--format=txt,md"]);
    assert_eq!(get_file_formats(&args), Some(strings(&["txt", "md"])));
    let args = strings(&["nano-grep", "x", "dir"]);
    assert_eq!(get_file_formats(&args), None);
    let args = strings(&["nano-grep", "x", "--format=rs", "--format=md"]);
    assert_eq!(get_file_formats(&args), Some(strings(&["rs"])));
    let args = strings(&["nano-grep", "x", "dir", "--format="]);
    assert_eq!(get_file_formats(&args), Some(strings(&[""])));
    let args = strings(&["nano-grep", "x", "dir", "--format"]);
    assert_eq!(get_file_formats(&args), None);
}

#[test]
fn argument_count_is_checked() {
    assert_eq!(parse_arguments(&strings(&["nano-grep"])).unwrap_err(), UsageError::WrongArgumentCount);
    let five = strings(&["nano-grep", "a", "b", "c", "d"]);
    assert_eq!(parse_arguments(&five).unwrap_err(), UsageError::WrongArgumentCount);
}

#[test]
fn empty_pattern_is_refused() {
    let args = strings(&["nano-grep", ""]);
    assert_eq!(parse_arguments(&args).unwrap_err(), UsageError::EmptyPattern);
    let args = strings(&["nano-grep", "", "dir", "--format=txt"]);
    assert_eq!(parse_arguments(&args).unwrap_err(), UsageError::EmptyPattern);
}

#[test]
fn arguments_give_a_request() {
    let r = parse_arguments(&strings(&["nano-grep", "hello"])).unwrap();
    assert_eq!(r.pattern, "hello");
    assert_eq!(r.directory, ".");
    assert_eq!(r.formats, None);
    let r = parse_arguments(&strings(&["nano-grep", "hello", "src", "--format=rs,TOML"])).unwrap();
    assert_eq!(r.directory, "src");
    assert_eq!(r.formats, Some(strings(&["rs", "TOML"])));
}

#[test]
fn report_for_each_kind_of_match() {
    assert_eq!(
        report_lines(&found(true, 0)),
        vec![ReportLine::Path, ReportLine::FilenameMatch, ReportLine::Separator]
    );
    assert_eq!(
        report_lines(&found(false, 3)),
        vec![ReportLine::Path, ReportLine::ContentMatch(3), ReportLine::Separator]
    );
    assert_eq!(
        report_lines(&found(true, 2)),
        vec![
            ReportLine::Path,
            ReportLine::FilenameMatch,
            ReportLine::ContentMatch(2),
            ReportLine::BothMatch,
            ReportLine::Separator
        ]
    );
}

#[test]
fn entries_and_the_filter() {
    let search = Search::new(request("hello", Some(&["txt"])));
    assert_eq!(search.on_entry(EntryKind::Directory, b"sub.md"), EntryAction::Descend);
    assert_eq!(search.on_entry(EntryKind::Directory, b"sub"), EntryAction::Descend);
    assert_eq!(search.on_entry(EntryKind::File, b"a.txt"), EntryAction::Inspect);
    assert_eq!(search.on_entry(EntryKind::File, b"b.md"), EntryAction::Skip);
    assert_eq!(search.on_entry(EntryKind::Other, b"c.txt"), EntryAction::Skip);
    let search = Search::new(request("hello", None));
    assert_eq!(search.on_entry(EntryKind::File, b"b.md"), EntryAction::Inspect);
    assert_eq!(search.on_entry(EntryKind::File, b"README"), EntryAction::Inspect);
}

#[test]
fn only_a_directory_root_is_walked() {
    let (search, walk) = search_in_filesystem(request("hello", None), EntryKind::Directory);
    assert!(walk);
    assert_eq!(search.matched_files_count(), 0);
    let (search, walk) = search_in_filesystem(request("hello", None), EntryKind::File);
    assert!(!walk);
    assert_eq!(search.matched_files_count(), 0);
}

#[test]
fn a_file_is_counted_once() {
    let mut search = Search::new(request("hello", None));
    let r = search.on_file(b"hello.txt", Ok("hello hello hello".to_string())).unwrap();
    assert_eq!(r, Some(found(true, 3)));
    assert_eq!(search.matched_files_count(), 1);
    let r = search.on_file(b"other.txt", Ok("nothing here".to_string())).unwrap();
    assert_eq!(r, None);
    assert_eq!(search.matched_files_count(), 1);
}

#[test]
fn two_files_with_hello() {
    let (mut search, walk) = search_in_filesystem(request("hello", None), EntryKind::Directory);
    assert!(walk);
    assert_eq!(search.on_entry(EntryKind::File, b"a.txt"), EntryAction::Inspect);
    let a = search.on_file(b"a.txt", Ok("hello world hello".to_string())).unwrap();
    assert_eq!(search.on_entry(EntryKind::File, b"b.md"), EntryAction::Inspect);
    let b = search.on_file(b"b.md", Ok("hello".to_string())).unwrap();
    assert_eq!(a, Some(found(false, 2)));
    assert_eq!(b, Some(found(false, 1)));
    assert_eq!(search.matched_files_count(), 2);
}

#[test]
fn notes_with_txt_filter() {
    let search = Search::new(request("notes", Some(&["txt"])));
    assert_eq!(search.on_entry(EntryKind::File, b"notes.txt"), EntryAction::Inspect);
    assert_eq!(search.on_entry(EntryKind::File, b"notes.TXT"), EntryAction::Inspect);
    let search = Search::new(request("notes", Some(&["TXT"])));
    assert_eq!(search.on_entry(EntryKind::File, b"notes.txt"), EntryAction::Skip);
}

#[test]
fn unreadable_file_ends_the_run() {
    let mut search = Search::new(request("hello", None));
    search.on_file(b"a.txt", Ok("hello".to_string())).unwrap();
    assert!(search.on_file(b"locked.txt", Err(other_error())).is_err());
    assert_eq!(search.matched_files_count(), 1);
}

#[test]
fn binary_file_in_tree_does_not_end_the_run() {
    let mut search = Search::new(request("hello", None));
    let r = search.on_file(b"hello.bin", Err(invalid_data())).unwrap();
    assert_eq!(r, Some(found(true, 0)));
    let r = search.on_file(b"blob.bin", Err(invalid_data())).unwrap();
    assert_eq!(r, None);
    let r = search.on_file(b"c.txt", Ok("say hello".to_string())).unwrap();
    assert_eq!(r, Some(found(false, 1)));
    assert_eq!(search.matched_files_count(), 2);
}

#[test]
fn finished_run_gives_count_or_failure() {
    let mut search = Search::new(request("hello", None));
    search.on_file(b"a.txt", Ok("hello".to_string())).unwrap();
    assert_eq!(search.finish(Ok(())).unwrap(), 1);
    let search = Search::new(request("hello", None));
    match search.finish(Err(other_error())) {
        Err(e) => assert_eq!(e.message, "permission denied"),
        Ok(_) => panic!("a failed walk has no summary"),
    }
}
