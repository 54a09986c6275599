use repo_archive::text::{chars_of, ends_with, starts_with, text_of};

fn chars(s: &str) -> Vec<char> {
    s.chars().collect()
}

#[test]
fn chars_of_gives_the_characters_in_order() {
    assert_eq!(chars_of("abc"), vec!['a', 'b', 'c']);
    assert_eq!(chars_of(""), Vec::<char>::new());
    assert_eq!(chars_of("häß\u{1F600}"), vec!['h', 'ä', 'ß', '\u{1F600}']);
}

#[test]
fn text_of_gives_the_part_between_the_bounds() {
    let c = chars("héllo wörld");
    assert_eq!(text_of(&c, 0, c.len()), "héllo wörld");
    assert_eq!(text_of(&c, 0, 5), "héllo");
    assert_eq!(text_of(&c, 6, 11), "wörld");
    assert_eq!(text_of(&c, 3, 3), "");
    assert_eq!(text_of(&[], 0, 0), "");
}

#[test]
fn text_of_undoes_chars_of() {
    for s in ["", "a", "https://github.com/rust-lang/rust.git", "größe"] {
        let c = chars_of(s);
        assert_eq!(text_of(&c, 0, c.len()), s);
    }
}

#[test]
fn starts_with_compares_the_beginning() {
    assert!(starts_with(&chars("https://a"), &chars("https://")));
    assert!(starts_with(&chars("https://"), &chars("https://")));
    assert!(starts_with(&chars("abc"), &chars("")));
    assert!(starts_with(&chars(""), &chars("")));
    assert!(!starts_with(&chars("http://a"), &chars("https://")));
    assert!(!starts_with(&chars("http"), &chars("http://")));
    assert!(!starts_with(&chars(""), &chars("a")));
    assert!(!starts_with(&chars("xhttp://"), &chars("http://")));
}

#[test]
fn ends_with_compares_the_end() {
    assert!(ends_with(&chars("a.git"), &chars(".git")));
    assert!(ends_with(&chars(".git"), &chars(".git")));
    assert!(ends_with(&chars("abc"), &chars("")));
    assert!(ends_with(&chars(""), &chars("")));
    assert!(!ends_with(&chars("a.gitx"), &chars(".git")));
    assert!(!ends_with(&chars("git"), &chars(".git")));
    assert!(!ends_with(&chars("a.Git"), &chars(".git")));
    assert!(!ends_with(&chars(""), &chars("a")));
}
