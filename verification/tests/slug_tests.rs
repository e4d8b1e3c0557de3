use vellum::slug;

#[test]
fn slug_part_one() {
    assert_eq!(slug("Part I"), "part-i");
}

#[test]
fn slug_chapter_one() {
    assert_eq!(slug("Chapter 1"), "chapter-1");
}

#[test]
fn slug_blank_title_is_hyphens() {
    assert_eq!(slug("  "), "-");
}

#[test]
fn slug_empty_title() {
    assert_eq!(slug(""), "");
}

#[test]
fn slug_collapses_runs() {
    assert_eq!(slug("Hello,  World!!"), "hello-world-");
}

#[test]
fn slug_keeps_leading_and_trailing_hyphens() {
    assert_eq!(slug("!a!"), "-a-");
    assert_eq!(slug("...Intro"), "-intro");
}

#[test]
fn slug_underscore_and_digits_are_word_characters() {
    assert_eq!(slug("a_b 12"), "a_b-12");
}

#[test]
fn slug_non_ascii_folds_to_hyphen() {
    assert_eq!(slug("caf\u{e9} au lait"), "caf-au-lait");
}

#[test]
fn slug_idempotent() {
    for t in ["Hello, World!", "Part I", "  ", "", "a--b", "MiXeD CaSe 42"] {
        let once = slug(t);
        assert_eq!(slug(&once), once);
    }
}
