use repo_archive::archive::{
    parse_git_archive, parse_huggingface_archive, parse_record, split_chars, trim_bounds,
    ParseError,
};
use repo_archive::index::RepoRecord;

fn chars(s: &str) -> Vec<char> {
    s.chars().collect()
}

fn pieces(s: &str, sep: char) -> Vec<String> {
    split_chars(&chars(s), sep).iter().map(|p| p.iter().collect()).collect()
}

fn trim(s: &str) -> String {
    let c = chars(s);
    let (from, to) = trim_bounds(&c);
    c[from..to].iter().collect()
}

#[test]
fn split_chars_gives_one_more_piece_than_separators() {
    assert_eq!(pieces("a,b,c", ','), vec!["a", "b", "c"]);
    assert_eq!(pieces("abc", ','), vec!["abc"]);
    assert_eq!(pieces("", ','), vec![""]);
    assert_eq!(pieces(",", ','), vec!["", ""]);
    assert_eq!(pieces("a,,b,", ','), vec!["a", "", "b", ""]);
    assert_eq!(pieces(",a", ','), vec!["", "a"]);
    assert_eq!(pieces("one\ntwo\n", '\n'), vec!["one", "two", ""]);
}

#[test]
fn split_chars_agrees_with_the_standard_split() {
    for s in ["", ",", "a", "a,b", ",,,", "x,,y", "héllo,wörld", "a,b,c,d,e,f"] {
        let expected: Vec<String> = s.split(',').map(|p| p.to_string()).collect();
        assert_eq!(pieces(s, ','), expected, "{s:?}");
    }
}

#[test]
fn the_pieces_joined_are_the_text_again() {
    for s in ["", ",", "a", "a,b", ",,,", "x,,y", ",x,"] {
        assert_eq!(pieces(s, ',').join(","), s);
    }
}

#[test]
fn trim_bounds_cuts_white_space_at_both_ends() {
    assert_eq!(trim("  a b  "), "a b");
    assert_eq!(trim("a"), "a");
    assert_eq!(trim(""), "");
    assert_eq!(trim("   "), "");
    assert_eq!(trim("\t x\r"), "x");
    assert_eq!(trim("x \n"), "x");
    assert_eq!(trim(" x"), "x");
}

#[test]
fn trim_bounds_knows_white_space_beyond_ascii() {
    assert_eq!(trim("\u{a0}x\u{2003}"), "x");
    assert_eq!(trim("\u{3000}\u{85}x y\u{2028}"), "x y");
    // A zero width space is no white space.
    assert_eq!(trim("\u{200b}x"), "\u{200b}x");
}

#[test]
fn trim_bounds_agrees_with_the_standard_trim() {
    for s in ["", " ", "a", " a", "a ", "  a  b  ", "\r\n", "\u{a0}a\u{a0}", "\t\tx,y\t"] {
        assert_eq!(trim(s), s.trim(), "{s:?}");
    }
}

#[test]
fn trim_bounds_are_in_order() {
    let c = chars("    ");
    let (from, to) = trim_bounds(&c);
    assert!(from <= to && to <= c.len());
    assert_eq!(from, to);
}

#[test]
fn parse_record_wants_five_fields() {
    let record = parse_record(&chars("https://h/r.git,r.git,abc123,2025-01-01 12:00:00,never"));
    assert_eq!(
        record,
        Some(RepoRecord::new("https://h/r.git", "r.git", "abc123", "2025-01-01 12:00:00", "never"))
    );
    assert_eq!(parse_record(&chars("a,b,c,d")), None);
    assert_eq!(parse_record(&chars("a,b,c,d,e,f")), None);
    assert_eq!(parse_record(&chars("")), None);
    assert_eq!(parse_record(&chars("abc")), None);
}

#[test]
fn parse_record_keeps_empty_fields_and_inner_space() {
    assert_eq!(parse_record(&chars(",,,,")), Some(RepoRecord::new("", "", "", "", "")));
    assert_eq!(
        parse_record(&chars("u, p ,h,d ,f")),
        Some(RepoRecord::new("u", " p ", "h", "d ", "f"))
    );
}

#[test]
fn parse_git_archive_reads_one_record_from_each_line() {
    let content = "https://github.com/a/b.git,a/b.git,abc,2025-01-01 12:00:00,never\n\
                   git://host/c,c,def,unknown,2025-02-02 08:30:00\n";
    let index = parse_git_archive(content).unwrap();
    assert_eq!(index.len(), 2);
    assert_eq!(
        index.get("https://github.com/a/b.git"),
        Some(&RepoRecord::new(
            "https://github.com/a/b.git",
            "a/b.git",
            "abc",
            "2025-01-01 12:00:00",
            "never"
        ))
    );
    assert_eq!(
        index.get("git://host/c"),
        Some(&RepoRecord::new("git://host/c", "c", "def", "unknown", "2025-02-02 08:30:00"))
    );
    assert_eq!(index.get("host/c"), None);
}

#[test]
fn parse_git_archive_keys_by_the_lowercased_address() {
    let index = parse_git_archive("HTTPS://GitHub.com/A/B.git,p,h,d,f").unwrap();
    assert_eq!(index.get("HTTPS://GitHub.com/A/B.git"), None);
    let record = index.get("https://github.com/a/b.git").unwrap();
    assert_eq!(record.url, "HTTPS://GitHub.com/A/B.git");
}

#[test]
fn parse_git_archive_passes_over_blank_lines_and_trims() {
    let content = "\n\n   \n  url1,dir1,hash1,date1,fetch1  \r\n\t\nurl2,dir2,hash2,date2,fetch2\n\n";
    let index = parse_git_archive(content).unwrap();
    assert_eq!(index.len(), 2);
    assert_eq!(index.get("url1"), Some(&RepoRecord::new("url1", "dir1", "hash1", "date1", "fetch1")));
    assert_eq!(index.get("url2"), Some(&RepoRecord::new("url2", "dir2", "hash2", "date2", "fetch2")));
}

#[test]
fn parse_git_archive_of_nothing_is_the_empty_index() {
    assert_eq!(parse_git_archive("").unwrap().len(), 0);
    assert_eq!(parse_git_archive("\n \n\t\n").unwrap().len(), 0);
}

#[test]
fn parse_git_archive_lets_the_later_line_win() {
    let content = "Host/Repo,first,hash1,date1,fetch1\nother,p,h,d,f\nhost/repo,second,hash2,date2,fetch2\n";
    let index = parse_git_archive(content).unwrap();
    assert_eq!(index.len(), 2);
    assert_eq!(
        index.get("host/repo"),
        Some(&RepoRecord::new("host/repo", "second", "hash2", "date2", "fetch2"))
    );
}

#[test]
fn parse_git_archive_fails_on_a_line_with_too_few_fields() {
    let err = parse_git_archive("url1,dir1,hash1,date1,fetch1\n  url2,dir2,hash2,date2  \nurl3,dir3,hash3,date3,fetch3").err().unwrap();
    assert_eq!(err, ParseError { line: "url2,dir2,hash2,date2".to_string() });
}

#[test]
fn parse_git_archive_fails_on_a_line_with_too_many_fields() {
    // A comma inside a value cannot be told from a delimiter.
    let err = parse_git_archive("url1,path,with,comma,hash1,date1,fetch1").err().unwrap();
    assert_eq!(err.line, "url1,path,with,comma,hash1,date1,fetch1");
}

#[test]
fn parse_git_archive_reports_the_first_bad_line() {
    let err = parse_git_archive("ok,p,h,d,f\n\nbad one\nbad two\n").err().unwrap();
    assert_eq!(err.line, "bad one");
}

#[test]
fn the_message_of_a_parse_error_names_the_line() {
    let err = parse_git_archive("just one field").err().unwrap();
    assert_eq!(err.message(), "bad line: just one field");
}

#[test]
fn parse_huggingface_archive_keeps_each_identifier_as_written() {
    let index = parse_huggingface_archive("meta-llama/Llama-2-7b-hf\n\n  openai/whisper-large-v3  \r\n");
    assert_eq!(index.len(), 2);
    assert!(index.contains_ignoring_case("meta-llama/Llama-2-7b-hf"));
    assert!(index.contains_ignoring_case("OPENAI/WHISPER-LARGE-V3"));
    assert!(!index.contains_ignoring_case("openai/whisper"));
}

#[test]
fn parse_huggingface_archive_is_a_set() {
    let index = parse_huggingface_archive("a/b\na/b\nA/B\n a/b \n");
    // Two spellings that differ in case are two identifiers.
    assert_eq!(index.len(), 2);
}

#[test]
fn parse_huggingface_archive_takes_a_line_with_commas_whole() {
    let index = parse_huggingface_archive("a,b,c\n");
    assert_eq!(index.len(), 1);
    assert!(index.contains_ignoring_case("A,B,C"));
}

#[test]
fn parse_huggingface_archive_of_nothing_is_empty() {
    let index = parse_huggingface_archive(" \n\n");
    assert_eq!(index.len(), 0);
    assert!(!index.contains_ignoring_case(""));
}
