use contrast::git::{
    aggregate, assemble, classify, classify_lines, diff_of, get_diffs, hunk_headers_of,
    strip_newline, text_of, Diff, DiffParsingError, Header, Line, Origin, RawFileDelta, RawHunk,
    RawLine, Stats,
};

fn raw(marker: char, old: Option<u32>, new: Option<u32>, content: &str) -> RawLine {
    RawLine {
        marker,
        old_line_number: old,
        new_line_number: new,
        content: content.as_bytes().to_vec(),
    }
}

fn hunk(anchor_line: Option<u32>, header: &str) -> RawHunk {
    RawHunk { anchor_line, header: header.as_bytes().to_vec() }
}

fn delta(path: &str, hunks: Vec<RawHunk>, lines: Vec<RawLine>) -> RawFileDelta {
    RawFileDelta { path: path.as_bytes().to_vec(), hunks, lines }
}

fn line(origin: Origin, old: Option<u32>, new: Option<u32>, content: &str) -> Line {
    Line { origin, old_line_number: old, new_line_number: new, content: content.to_string() }
}

#[test]
fn classify_addition_drops_old_number() {
    let l = classify('+', Some(7), Some(9), "let x = 1;\n");
    assert_eq!(l, line(Origin::Addition, None, Some(9), "let x = 1;"));
}

#[test]
fn classify_deletion_drops_new_number() {
    let l = classify('-', Some(7), Some(9), "let x = 1;\n");
    assert_eq!(l, line(Origin::Deletion, Some(7), None, "let x = 1;"));
}

#[test]
fn classify_context_keeps_both_numbers() {
    let l = classify(' ', Some(5), Some(5), "}\n");
    assert_eq!(l, line(Origin::Context, Some(5), Some(5), "}"));
}

#[test]
fn classify_unknown_marker_is_context() {
    let l = classify('?', None, Some(2), "text");
    assert_eq!(l, line(Origin::Context, None, Some(2), "text"));
    let l = classify('x', None, None, "");
    assert_eq!(l, line(Origin::Context, None, None, ""));
}

#[test]
fn classify_gives_exactly_one_number_to_changed_lines() {
    let reported: [(char, Option<u32>, Option<u32>); 4] = [
        ('+', None, Some(1)),
        ('+', Some(4), Some(1)),
        ('-', Some(3), None),
        ('-', Some(3), Some(8)),
    ];
    for (marker, old, new) in reported {
        let l = classify(marker, old, new, "a\n");
        assert!(l.old_line_number.is_some() != l.new_line_number.is_some());
    }
}

#[test]
fn strip_newline_removes_one_trailing_newline_only() {
    assert_eq!(strip_newline("abc\n"), "abc");
    assert_eq!(strip_newline("abc"), "abc");
    assert_eq!(strip_newline("abc\n\n"), "abc\n");
    assert_eq!(strip_newline("\n"), "");
    assert_eq!(strip_newline(""), "");
    assert_eq!(strip_newline("a\nb"), "a\nb");
    assert_eq!(strip_newline("größe\n"), "größe");
}

#[test]
fn markers_without_a_line_are_left_out() {
    for marker in ['F', 'H', 'B', '=', '>', '<'] {
        assert!(!raw(marker, None, None, "x\n").renders());
    }
    for marker in ['+', '-', ' ', '?'] {
        assert!(raw(marker, None, None, "x\n").renders());
    }
    let lines = classify_lines(&vec![
        raw('F', None, None, "diff --git a/a b/a\n"),
        raw('H', None, None, "@@ -1 +1,2 @@\n"),
        raw(' ', Some(1), Some(1), "one\n"),
        raw('+', None, Some(2), "two"),
        raw('>', None, None, "\n\\ No newline at end of file\n"),
    ]);
    assert_eq!(
        lines,
        Ok(vec![
            line(Origin::Context, Some(1), Some(1), "one"),
            line(Origin::Addition, None, Some(2), "two")
        ])
    );
}

#[test]
fn header_from_hunk_takes_anchor_or_zero() {
    let h = Header::from_hunk(Some(12), "@@ -12,3 +12,4 @@ fn main()\n");
    assert_eq!(h, Header { anchor_line: 12, content: "@@ -12,3 +12,4 @@ fn main()".to_string() });
    let h = Header::from_hunk(None, "@@ -0,0 +1 @@");
    assert_eq!(h, Header { anchor_line: 0, content: "@@ -0,0 +1 @@".to_string() });
}

#[test]
fn hunk_headers_keep_their_order() {
    let headers = hunk_headers_of(&vec![
        hunk(Some(3), "@@ a @@\n"),
        hunk(None, "@@ b @@\n"),
        hunk(Some(40), "@@ c @@\n"),
    ]);
    assert_eq!(
        headers,
        Ok(vec![
            Header { anchor_line: 3, content: "@@ a @@".to_string() },
            Header { anchor_line: 0, content: "@@ b @@".to_string() },
            Header { anchor_line: 40, content: "@@ c @@".to_string() },
        ])
    );
}

#[test]
fn header_anchors_context_line_with_its_number_only() {
    let h = Header { anchor_line: 5, content: String::new() };
    assert!(h.anchors(&line(Origin::Context, Some(4), Some(5), "")));
    assert!(!h.anchors(&line(Origin::Context, Some(5), Some(6), "")));
    assert!(!h.anchors(&line(Origin::Context, Some(5), None, "")));
}

#[test]
fn header_never_anchors_a_changed_line() {
    let h = Header { anchor_line: 5, content: String::new() };
    assert!(!h.anchors(&line(Origin::Addition, None, Some(5), "")));
    assert!(!h.anchors(&line(Origin::Deletion, Some(5), None, "")));
    let zero = Header { anchor_line: 0, content: String::new() };
    assert!(!zero.anchors(&line(Origin::Deletion, Some(1), None, "")));
    assert!(!zero.anchors(&line(Origin::Context, None, None, "")));
}

#[test]
fn assemble_keeps_the_parts_as_they_are() {
    let lines =
        vec![line(Origin::Deletion, Some(2), None, "b"), line(Origin::Addition, None, Some(1), "a")];
    let headers = vec![Header { anchor_line: 9, content: "h".to_string() }];
    let d = assemble("src/x.rs".to_string(), lines.clone(), headers.clone());
    assert_eq!(d, Diff { file_name: "src/x.rs".to_string(), lines, headers });
    assert_eq!(d.file_name(), "src/x.rs");
}

#[test]
fn aggregate_counts_files_insertions_and_deletions() {
    let diffs = vec![
        Diff {
            file_name: "a".to_string(),
            lines: vec![
                line(Origin::Addition, None, Some(1), ""),
                line(Origin::Context, Some(1), Some(2), ""),
                line(Origin::Addition, None, Some(3), ""),
                line(Origin::Deletion, Some(2), None, ""),
            ],
            headers: vec![],
        },
        Diff { file_name: "bin".to_string(), lines: vec![], headers: vec![] },
        Diff {
            file_name: "c".to_string(),
            lines: vec![
                line(Origin::Deletion, Some(1), None, ""),
                line(Origin::Addition, None, Some(1), ""),
            ],
            headers: vec![],
        },
    ];
    assert_eq!(aggregate(&diffs), Stats { files_changed: 3, insertions: 3, deletions: 2 });
    assert_eq!(diffs[0].count(Origin::Addition), 2);
    assert_eq!(diffs[0].count(Origin::Context), 1);
    assert_eq!(diffs[1].count(Origin::Deletion), 0);
}

#[test]
fn aggregate_of_nothing_is_zero() {
    assert_eq!(aggregate(&vec![]), Stats { files_changed: 0, insertions: 0, deletions: 0 });
}

#[test]
fn no_changes_give_no_diffs_and_zero_stats() {
    let (diffs, stats) = get_diffs(Ok(vec![])).unwrap();
    assert_eq!(diffs, vec![]);
    assert_eq!(stats, Stats { files_changed: 0, insertions: 0, deletions: 0 });
}

#[test]
fn change_without_text_still_counts_as_a_file() {
    let deltas = vec![
        delta("logo.png", vec![], vec![]),
        delta("icon.ico", vec![], vec![raw('B', None, None, "Binary files differ\n")]),
    ];
    let (diffs, stats) = get_diffs(Ok(deltas)).unwrap();
    assert_eq!(
        diffs,
        vec![
            Diff { file_name: "logo.png".to_string(), lines: vec![], headers: vec![] },
            Diff { file_name: "icon.ico".to_string(), lines: vec![], headers: vec![] },
        ]
    );
    assert_eq!(stats, Stats { files_changed: 2, insertions: 0, deletions: 0 });
}

#[test]
fn new_file_with_three_lines() {
    let deltas = vec![delta(
        "a.txt",
        vec![],
        vec![
            raw('+', None, Some(1), "first\n"),
            raw('+', None, Some(2), "second\n"),
            raw('+', None, Some(3), "third\n"),
        ],
    )];
    let (diffs, stats) = get_diffs(Ok(deltas)).unwrap();
    assert_eq!(
        diffs,
        vec![Diff {
            file_name: "a.txt".to_string(),
            lines: vec![
                line(Origin::Addition, None, Some(1), "first"),
                line(Origin::Addition, None, Some(2), "second"),
                line(Origin::Addition, None, Some(3), "third"),
            ],
            headers: vec![],
        }]
    );
    assert_eq!(stats, Stats { files_changed: 1, insertions: 3, deletions: 0 });
}

#[test]
fn one_changed_line() {
    let deltas = vec![delta(
        "b.txt",
        vec![hunk(Some(2), "@@ -2,7 +2,7 @@\n")],
        vec![raw('-', Some(5), None, "old\n"), raw('+', None, Some(5), "new\n")],
    )];
    let (diffs, stats) = get_diffs(Ok(deltas)).unwrap();
    assert_eq!(diffs.len(), 1);
    assert_eq!(diffs[0].file_name, "b.txt");
    assert_eq!(
        diffs[0].lines,
        vec![
            line(Origin::Deletion, Some(5), None, "old"),
            line(Origin::Addition, None, Some(5), "new")
        ]
    );
    assert_eq!(
        diffs[0].headers,
        vec![Header { anchor_line: 2, content: "@@ -2,7 +2,7 @@".to_string() }]
    );
    assert_eq!(stats, Stats { files_changed: 1, insertions: 1, deletions: 1 });
}

#[test]
fn failed_access_gives_the_error_and_nothing_else() {
    assert_eq!(get_diffs(Err(DiffParsingError)), Err(DiffParsingError));
}

#[test]
fn files_keep_the_order_of_the_report() {
    let names = ["z.rs", "a.rs", "m/b.rs"];
    let deltas: Vec<RawFileDelta> = names.iter().map(|n| delta(n, vec![], vec![])).collect();
    let (diffs, _) = get_diffs(Ok(deltas)).unwrap();
    let got: Vec<&str> = diffs.iter().map(|d| d.file_name()).collect();
    assert_eq!(got, names);
}

#[test]
fn retrieval_twice_gives_equal_results() {
    let deltas = vec![delta(
        "b.txt",
        vec![hunk(None, "@@ -1 +1 @@ top\n")],
        vec![
            raw(' ', Some(1), Some(1), "same\n"),
            raw('-', Some(2), None, "old\n"),
            raw('+', None, Some(2), "new\n"),
            raw('<', None, None, "\n\\ No newline at end of file\n"),
        ],
    )];
    assert_eq!(get_diffs(Ok(deltas.clone())), get_diffs(Ok(deltas)));
}

#[test]
fn largest_shown_number_and_its_width() {
    let d = Diff {
        file_name: String::new(),
        lines: vec![
            line(Origin::Context, Some(98), Some(99), ""),
            line(Origin::Deletion, Some(1200), None, ""),
            line(Origin::Addition, None, Some(100), ""),
        ],
        headers: vec![],
    };
    assert_eq!(d.largest_shown_number(), 1200);
    assert_eq!(d.get_longest_line(), 4);
    let empty = Diff { file_name: String::new(), lines: vec![], headers: vec![] };
    assert_eq!(empty.largest_shown_number(), 0);
    assert_eq!(empty.get_longest_line(), 1);
    assert_eq!(line(Origin::Deletion, Some(7), None, "").shown_number(), 7);
    assert_eq!(line(Origin::Addition, Some(7), Some(8), "").shown_number(), 8);
    assert_eq!(line(Origin::Context, Some(7), None, "").shown_number(), 0);
}

#[test]
fn text_of_reads_utf8() {
    assert_eq!(text_of(b"plain"), Ok("plain".to_string()));
    assert_eq!(text_of(&[]), Ok(String::new()));
    assert_eq!(
        text_of(&[b'g', b'r', 0xc3, 0xb6, 0xc3, 0x9f, b'e', b' ', 0xe2, 0x9c, 0x93]),
        Ok("gr\u{f6}\u{df}e \u{2713}".to_string())
    );
    assert_eq!(text_of(&[0xf0, 0x9f, 0x98, 0x80]), Ok("\u{1f600}".to_string()));
}

#[test]
fn text_of_refuses_bytes_that_are_no_utf8() {
    assert_eq!(text_of(&[0xff]), Err(DiffParsingError));
    assert_eq!(text_of(&[b'a', 0x80]), Err(DiffParsingError));
    assert_eq!(text_of(&[0xc3]), Err(DiffParsingError));
    assert_eq!(text_of(&[0xc0, 0xaf]), Err(DiffParsingError));
    assert_eq!(text_of(&[0xed, 0xa0, 0x80]), Err(DiffParsingError));
    assert_eq!(text_of(&[0xf4, 0x90, 0x80, 0x80]), Err(DiffParsingError));
}

#[test]
fn line_that_is_no_text_fails_retrieval() {
    let mut bad = raw('+', None, Some(2), "x\n");
    bad.content = vec![b'x', 0xff, b'\n'];
    let lines = vec![raw(' ', Some(1), Some(1), "fine\n"), bad];
    assert_eq!(classify_lines(&lines), Err(DiffParsingError));
    let deltas = vec![delta("ok.txt", vec![], vec![]), delta("bad.txt", vec![], lines)];
    assert_eq!(diff_of(&deltas[0]).map(|d| d.file_name), Ok("ok.txt".to_string()));
    assert_eq!(diff_of(&deltas[1]), Err(DiffParsingError));
    assert_eq!(get_diffs(Ok(deltas)), Err(DiffParsingError));
}

#[test]
fn header_or_path_that_is_no_text_fails_retrieval() {
    let bad_header = RawHunk { anchor_line: Some(1), header: vec![b'@', 0xfe] };
    assert_eq!(hunk_headers_of(&vec![hunk(None, "@@"), bad_header.clone()]), Err(DiffParsingError));
    assert_eq!(
        get_diffs(Ok(vec![delta("a", vec![bad_header], vec![])])),
        Err(DiffParsingError)
    );
    let bad_path = RawFileDelta { path: vec![0xc3, 0x28], hunks: vec![], lines: vec![] };
    assert_eq!(get_diffs(Ok(vec![bad_path])), Err(DiffParsingError));
}

#[test]
fn content_of_a_line_that_is_left_out_is_never_read() {
    let binary = RawLine {
        marker: 'B',
        old_line_number: None,
        new_line_number: None,
        content: vec![0xff, 0xfe, 0x00],
    };
    let (diffs, stats) = get_diffs(Ok(vec![delta("logo.png", vec![], vec![binary])])).unwrap();
    assert_eq!(
        diffs,
        vec![Diff { file_name: "logo.png".to_string(), lines: vec![], headers: vec![] }]
    );
    assert_eq!(stats, Stats { files_changed: 1, insertions: 0, deletions: 0 });
}
