use rginx_control::diff::{build_diff_response, diff_lines, ConfigDiffLineKind};

#[test]
fn diff_lines_marks_added_and_removed_lines() {
    let diff = diff_lines("a\nb\nc\n", "a\nc\nd\n");

    assert!(diff.iter().any(|line| matches!(line.kind, ConfigDiffLineKind::Removed)));
    assert!(diff.iter().any(|line| matches!(line.kind, ConfigDiffLineKind::Added)));
}

#[test]
fn diff_lines_numbers_each_side() {
    let diff = diff_lines("a\nb\nc\n", "a\nc\nd\n");
    let rendered: Vec<(String, Option<u32>, Option<u32>)> = diff
        .iter()
        .map(|line| {
            let mark = match line.kind {
                ConfigDiffLineKind::Context => " ",
                ConfigDiffLineKind::Added => "+",
                ConfigDiffLineKind::Removed => "-",
            };
            (format!("{mark}{}", line.text), line.left_line_number, line.right_line_number)
        })
        .collect();
    assert_eq!(
        rendered,
        vec![
            (" a".to_string(), Some(1), Some(1)),
            ("-b".to_string(), Some(2), None),
            (" c".to_string(), Some(3), Some(2)),
            ("+d".to_string(), None, Some(3)),
        ]
    );
}

#[test]
fn identical_texts_have_no_changes() {
    let response = build_diff_response("left".to_string(), "x\r\ny\n", "right".to_string(), "x\ny");
    assert!(!response.changed);
    assert_eq!(response.lines.len(), 2);
    assert!(response.lines.iter().all(|line| matches!(line.kind, ConfigDiffLineKind::Context)));
}

#[test]
fn empty_texts_have_no_lines() {
    let response = build_diff_response("l".to_string(), "", "r".to_string(), "");
    assert!(!response.changed);
    assert!(response.lines.is_empty());
}

#[test]
fn diff_keeps_a_longest_common_run_of_lines() {
    let diff = diff_lines("a\nb\nc\nd\n", "b\nx\nc\nd\ny\n");
    let context: Vec<&str> = diff
        .iter()
        .filter(|line| matches!(line.kind, ConfigDiffLineKind::Context))
        .map(|line| line.text.as_str())
        .collect();
    assert_eq!(context, vec!["b", "c", "d"]);
}
