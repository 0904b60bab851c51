use autolinker::{
    combined_regex, drop_self_links, get_first_capture, identity_regex, note_regex, JsLink,
    JsLinker, LinkError, Note, ParseOutcome, Span,
};

fn note(path: &str, title: &str, aliases: &[&str], spans: &[(u32, &str)]) -> Note {
    Note {
        path: path.to_string(),
        title: title.to_string(),
        aliases: Some(aliases.iter().map(|a| a.to_string()).collect()),
        spans: spans
            .iter()
            .map(|(start, text)| Span {
                start: *start,
                end: *start + text.len() as u32,
                text: Some(text.to_string()),
            })
            .collect(),
    }
}

fn parsed(path: &str, title: &str, aliases: &[&str], spans: &[(u32, &str)]) -> ParseOutcome {
    ParseOutcome::Parsed(note(path, title, aliases, spans))
}

fn failed(path: &str) -> ParseOutcome {
    ParseOutcome::Failed { path: path.to_string(), cause: "malformed front matter".to_string() }
}

type Row = (String, String, String, u32, u32);

fn rows(links: &[JsLink]) -> Vec<Row> {
    links
        .iter()
        .map(|l| (l.get_source(), l.get_target(), l.get_link_text(), l.get_start(), l.get_end()))
        .collect()
}

fn row(source: &str, target: &str, text: &str, start: u32, end: u32) -> Row {
    (source.to_string(), target.to_string(), text.to_string(), start, end)
}

fn links_of(files: Vec<ParseOutcome>, case_insensitive: bool, link_to_self: bool) -> Vec<Row> {
    let linker = JsLinker::new(files);
    rows(&linker.get_links(case_insensitive, link_to_self).unwrap())
}

#[test]
fn offsets_are_relative_to_the_span() {
    let files = vec![
        parsed("A.md", "Euler's Formula", &[], &[(0, "See Identity for background.")]),
        parsed("B.md", "Identity", &[], &[]),
    ];
    assert_eq!(links_of(files, false, false), vec![row("A.md", "B.md", "Identity", 4, 12)]);
}

#[test]
fn offsets_add_the_span_start() {
    let files = vec![
        parsed("A.md", "Euler's Formula", &[], &[(100, "See Identity for background.")]),
        parsed("B.md", "Identity", &[], &[]),
    ];
    assert_eq!(links_of(files, false, false), vec![row("A.md", "B.md", "Identity", 104, 112)]);
}

#[test]
fn offsets_count_bytes() {
    let files = vec![
        parsed("A.md", "A", &[], &[(10, "é Identity")]),
        parsed("B.md", "Identity", &[], &[]),
    ];
    assert_eq!(links_of(files, false, false), vec![row("A.md", "B.md", "Identity", 13, 21)]);
}

#[test]
fn metacharacters_match_literally() {
    let files = vec![
        parsed("A.md", "a.b*c", &[], &[]),
        parsed("B.md", "Notes", &[], &[(0, "axbbc and a.bbbc"), (50, "see a.b*c here")]),
    ];
    assert_eq!(links_of(files, false, false), vec![row("B.md", "A.md", "a.b*c", 54, 59)]);
}

#[test]
fn plus_signs_do_not_repeat() {
    let files = vec![
        parsed("A.md", "C++", &[], &[]),
        parsed("B.md", "Notes", &[], &[(0, "CCC and C")]),
    ];
    assert_eq!(links_of(files, false, false), vec![]);
}

#[test]
fn word_boundaries_isolate_identities() {
    let files = vec![
        parsed("Go.md", "Go", &[], &[]),
        parsed("B.md", "Notes", &[], &[(0, "Going"), (10, "Algorithm"), (20, "Go is great")]),
    ];
    assert_eq!(links_of(files, false, false), vec![row("B.md", "Go.md", "Go", 20, 22)]);
}

#[test]
fn self_links_follow_the_flag() {
    let files = || {
        vec![
            parsed("A.md", "Alpha", &[], &[(0, "Alpha mentions Beta")]),
            parsed("B.md", "Beta", &[], &[(0, "Beta mentions Alpha")]),
        ]
    };
    assert_eq!(
        links_of(files(), false, true),
        vec![row("A.md", "A.md", "Alpha", 0, 5), row("B.md", "B.md", "Beta", 0, 4)]
    );
    assert_eq!(links_of(files(), false, false), vec![]);
}

#[test]
fn self_link_filter_keeps_other_links() {
    let files = || {
        vec![
            parsed("A.md", "Alpha", &[], &[(0, "Alpha here"), (20, "Beta there")]),
            parsed("B.md", "Beta", &[], &[]),
        ]
    };
    assert_eq!(
        links_of(files(), false, true),
        vec![row("A.md", "A.md", "Alpha", 0, 5), row("A.md", "B.md", "Beta", 20, 24)]
    );
    assert_eq!(links_of(files(), false, false), vec![row("A.md", "B.md", "Beta", 20, 24)]);
}

#[test]
fn case_insensitive_matching_follows_the_flag() {
    let files = || {
        vec![
            parsed("rust.md", "rust", &[], &[]),
            parsed("B.md", "Notes", &[], &[(0, "Rust is fast")]),
        ]
    };
    assert_eq!(links_of(files(), true, false), vec![row("B.md", "rust.md", "Rust", 0, 4)]);
    assert_eq!(links_of(files(), false, false), vec![]);
}

#[test]
fn equal_aliases_resolve_to_the_earlier_note() {
    let files = vec![
        parsed("First.md", "First", &["Shared"], &[]),
        parsed("Second.md", "Shared", &[], &[]),
        parsed("C.md", "Notes", &[], &[(0, "the Shared idea")]),
    ];
    assert_eq!(links_of(files, false, false), vec![row("C.md", "First.md", "Shared", 4, 10)]);
}

#[test]
fn only_the_leftmost_match_of_a_span_counts() {
    let files = vec![
        parsed("A.md", "Alpha", &[], &[]),
        parsed("B.md", "Beta", &[], &[]),
        parsed("C.md", "Notes", &[], &[(0, "Beta then Alpha")]),
    ];
    assert_eq!(links_of(files, false, false), vec![row("C.md", "B.md", "Beta", 0, 4)]);
}

#[test]
fn repeated_mentions_in_separate_spans_all_count() {
    let files = vec![
        parsed("A.md", "Alpha", &[], &[]),
        parsed("C.md", "Notes", &[], &[(0, "Alpha"), (10, "Alpha")]),
    ];
    assert_eq!(
        links_of(files, false, false),
        vec![row("C.md", "A.md", "Alpha", 0, 5), row("C.md", "A.md", "Alpha", 10, 15)]
    );
}

#[test]
fn aliases_link_to_their_note() {
    let files = vec![
        parsed("ECC.md", "Elliptic Curve Cryptography", &["ECC"], &[]),
        parsed("B.md", "Notes", &[], &[(0, "using ECC keys")]),
    ];
    assert_eq!(links_of(files, false, false), vec![row("B.md", "ECC.md", "ECC", 6, 9)]);
}

#[test]
fn failed_alias_extraction_keeps_the_title() {
    let mut n = note("A.md", "Alpha", &[], &[]);
    n.aliases = None;
    let files = vec![
        ParseOutcome::Parsed(n),
        parsed("B.md", "Notes", &[], &[(0, "Alpha and A")]),
    ];
    assert_eq!(links_of(files, false, false), vec![row("B.md", "A.md", "Alpha", 0, 5)]);
}

#[test]
fn unreadable_spans_are_skipped() {
    let mut n = note("B.md", "Notes", &[], &[(0, "Alpha"), (10, "Alpha")]);
    n.spans[0].text = None;
    let files = vec![parsed("A.md", "Alpha", &[], &[]), ParseOutcome::Parsed(n)];
    assert_eq!(links_of(files, false, false), vec![row("B.md", "A.md", "Alpha", 10, 15)]);
}

#[test]
fn a_failed_note_affects_nothing_else() {
    let linker = JsLinker::new(vec![
        parsed("one.md", "One", &[], &[(0, "see Three")]),
        failed("two.md"),
        parsed("three.md", "Three", &[], &[(0, "see One")]),
    ]);
    assert_eq!(linker.get_bad_parse_files(), vec!["two.md".to_string()]);
    let expected = vec![
        row("one.md", "three.md", "Three", 4, 9),
        row("three.md", "one.md", "One", 4, 7),
    ];
    assert_eq!(rows(&linker.get_links(false, false).unwrap()), expected);
    let without = vec![
        parsed("one.md", "One", &[], &[(0, "see Three")]),
        parsed("three.md", "Three", &[], &[(0, "see One")]),
    ];
    assert_eq!(links_of(without, false, false), expected);
}

#[test]
fn bad_parse_files_keep_corpus_order() {
    let linker = JsLinker::new(vec![failed("z.md"), parsed("a.md", "A", &[], &[]), failed("b.md")]);
    assert_eq!(linker.get_bad_parse_files(), vec!["z.md".to_string(), "b.md".to_string()]);
}

#[test]
fn no_notes_no_links() {
    let linker = JsLinker::new(vec![]);
    assert_eq!(linker.get_bad_parse_files(), Vec::<String>::new());
    assert_eq!(rows(&linker.get_links(true, true).unwrap()), vec![]);
}

#[test]
fn resolving_twice_gives_the_same_output() {
    let linker = JsLinker::new(vec![
        parsed("A.md", "Alpha", &["First"], &[(0, "Look at Beta")]),
        parsed("B.md", "Beta", &["Second"], &[(0, "Go back to Alpha")]),
    ]);
    let one: Vec<String> = linker.get_links(false, false).unwrap().iter().map(|l| l.debug()).collect();
    let two: Vec<String> = linker.get_links(false, false).unwrap().iter().map(|l| l.debug()).collect();
    assert_eq!(one, two);
    assert_eq!(
        one,
        vec![
            "Source: A.md, Target: B.md, Link Text: Beta, Start: 8, End: 12".to_string(),
            "Source: B.md, Target: A.md, Link Text: Alpha, Start: 11, End: 16".to_string(),
        ]
    );
}

#[test]
fn oversized_pattern_is_an_error() {
    let huge = "a".repeat(4_000_000);
    let linker = JsLinker::new(vec![parsed("A.md", &huge, &[], &[])]);
    assert!(matches!(linker.get_links(false, false), Err(LinkError::InvalidPattern)));
}

#[test]
fn debug_lists_every_field() {
    let l = JsLink::new("A.md".to_string(), "B.md".to_string(), "Identity".to_string(), 4, 12);
    assert_eq!(l.debug(), "Source: A.md, Target: B.md, Link Text: Identity, Start: 4, End: 12");
    let big = JsLink::new("x".to_string(), "y".to_string(), "z".to_string(), 0, 4294967295);
    assert_eq!(big.debug(), "Source: x, Target: y, Link Text: z, Start: 0, End: 4294967295");
}

#[test]
fn getters_return_the_fields() {
    let l = JsLink::new("A.md".to_string(), "B.md".to_string(), "Identity".to_string(), 4, 12);
    assert_eq!(l.get_source(), "A.md");
    assert_eq!(l.get_target(), "B.md");
    assert_eq!(l.get_link_text(), "Identity");
    assert_eq!(l.get_start(), 4);
    assert_eq!(l.get_end(), 12);
    assert!(!l.is_self_link());
}

#[test]
fn dropping_self_links_keeps_order() {
    let links = vec![
        JsLink::new("A".to_string(), "A".to_string(), "x".to_string(), 0, 1),
        JsLink::new("A".to_string(), "B".to_string(), "y".to_string(), 2, 3),
        JsLink::new("B".to_string(), "B".to_string(), "z".to_string(), 4, 5),
        JsLink::new("B".to_string(), "A".to_string(), "w".to_string(), 6, 7),
    ];
    assert_eq!(
        rows(&drop_self_links(links)),
        vec![row("A", "B", "y", 2, 3), row("B", "A", "w", 6, 7)]
    );
}

#[test]
fn identity_patterns_escape_and_bound() {
    assert_eq!(identity_regex("Go"), "(?:\\bGo\\b)");
    assert_eq!(identity_regex("C++"), "(?:\\bC\\+\\+\\b)");
    assert_eq!(identity_regex("a.b*c"), "(?:\\ba\\.b\\*c\\b)");
}

#[test]
fn note_pattern_lists_title_then_aliases() {
    let n = note("e.md", "Elliptic Curve Cryptography", &["Elliptic Curve"], &[]);
    assert_eq!(note_regex(&n), "((?:\\bElliptic Curve Cryptography\\b)|(?:\\bElliptic Curve\\b))");
    let mut bare = note("i.md", "identity", &[], &[]);
    bare.aliases = None;
    assert_eq!(note_regex(&bare), "((?:\\bidentity\\b))");
}

#[test]
fn combined_pattern_skips_failed_notes() {
    let files = vec![
        parsed("e.md", "Elliptic Curve Cryptography", &["Elliptic Curve"], &[]),
        failed("bad.md"),
        parsed("i.md", "identity element", &["identity"], &[]),
    ];
    assert_eq!(
        combined_regex(&files),
        "((?:\\bElliptic Curve Cryptography\\b)|(?:\\bElliptic Curve\\b))|((?:\\bidentity element\\b)|(?:\\bidentity\\b))"
    );
    assert_eq!(combined_regex(&vec![failed("x.md")]), "");
}

#[test]
fn first_capture_takes_the_lowest_matching_group() {
    let caps = Some(vec![
        Some((0, 5, "Alpha".to_string())),
        None,
        Some((0, 5, "Alpha".to_string())),
        Some((0, 5, "Alpha".to_string())),
    ]);
    assert_eq!(get_first_capture(&caps, 3), Some((0, 5, "Alpha".to_string(), 2)));
    assert_eq!(get_first_capture(&caps, 1), None);
    assert_eq!(get_first_capture(&None, 3), None);
    let whole_only = Some(vec![Some((1, 2, "b".to_string()))]);
    assert_eq!(get_first_capture(&whole_only, 5), None);
}

#[test]
fn link_text_is_the_byte_slice_of_the_span() {
    let files = vec![
        parsed("cafe.md", "café", &[], &[]),
        parsed("B.md", "Notes", &[], &[(20, "Le café noir")]),
    ];
    let found = links_of(files, false, false);
    assert_eq!(found, vec![row("B.md", "cafe.md", "café", 23, 28)]);
    let text = "Le café noir";
    assert_eq!(&text[(23 - 20)..(28 - 20)], found[0].2);
}
