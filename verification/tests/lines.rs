use flamingo::config::keybinding::Keybindings;
use flamingo::flake::Flake;
use flamingo::trim::deps::Warning;
use flamingo::trim::ExportReport;
use flamingo::tui::lines::{
    export_prompt_lines, export_report_lines, get_input_line, highlight_search_result, Span, Tone,
};
use flamingo::tui::state::State;

fn texts(line: &[Span]) -> Vec<(&str, Tone)> {
    line.iter().map(|s| (s.text.as_str(), s.tone)).collect()
}

#[test]
fn report_lines_of_a_success() {
    let report = ExportReport {
        output_dir: "/out".into(),
        files_written: vec!["a".into(), "b".into()],
        warnings: (0..10).map(|i| Warning::UnresolvedModule { name: format!("m{i}") }).collect(),
    };
    let lines = export_report_lines(&Ok(report));
    assert_eq!(texts(&lines[0]), vec![("Exported to ", Tone::Plain), ("/out", Tone::Success)]);
    assert_eq!(texts(&lines[1]), vec![("2 files written", Tone::Plain)]);
    assert_eq!(texts(&lines[2]), vec![("10 warning(s):", Tone::Highlight)]);
    assert_eq!(
        texts(&lines[3]),
        vec![("- module `m0` has no resolvable source, skipped", Tone::Plain)]
    );
    assert_eq!(texts(&lines[11]), vec![("… and 2 more", Tone::Plain)]);
    assert_eq!(texts(&lines[12]), vec![("press any key to close", Tone::Muted)]);
    assert_eq!(lines.len(), 13);
}

#[test]
fn report_lines_without_warnings() {
    let report = ExportReport { output_dir: "/out".into(), files_written: vec![], warnings: vec![] };
    let lines = export_report_lines(&Ok(report));
    assert_eq!(lines.len(), 3);
    assert_eq!(texts(&lines[1]), vec![("0 files written", Tone::Plain)]);
}

#[test]
fn report_lines_of_a_failure() {
    let lines = export_report_lines(&Err("boom".to_string()));
    assert_eq!(texts(&lines[0]), vec![("Export failed", Tone::Failure)]);
    assert_eq!(texts(&lines[1]), vec![("boom", Tone::Plain)]);
    assert_eq!(lines.len(), 3);
}

#[test]
fn prompt_lines() {
    let lines = export_prompt_lines("hostname: ", "my");
    assert_eq!(
        texts(&lines[0]),
        vec![("hostname: ", Tone::Highlight), ("my", Tone::Accent), ("█", Tone::Muted)]
    );
    assert!(lines[1].is_empty());
    assert_eq!(lines[2].len(), 3);
}

#[test]
fn input_line_shows_status_or_search() {
    let mut s = State::new(Flake::new("."), Keybindings::default(), None);
    assert!(get_input_line(&s, "").is_empty());
    assert_eq!(
        texts(&get_input_line(&s, "ab")),
        vec![
            ("|", Tone::Frame),
            ("search: ", Tone::Highlight),
            ("ab", Tone::Accent),
            ("", Tone::Plain),
            ("|", Tone::Frame),
        ]
    );
    s.status = Some("no modules added".into());
    assert_eq!(
        texts(&get_input_line(&s, "ab")),
        vec![("|", Tone::Frame), ("no modules added", Tone::Highlight), ("|", Tone::Frame)]
    );
}

#[test]
fn test_highlight_search_string() {
    let highlighted = highlight_search_result("onetwothree", "two");
    assert_eq!(
        texts(&highlighted),
        vec![("one", Tone::Plain), ("two", Tone::Match), ("three", Tone::Plain)]
    );
}

#[test]
fn highlight_marks_every_occurrence_or_nothing() {
    assert_eq!(
        texts(&highlight_search_result("abab", "ab")),
        vec![
            ("", Tone::Plain),
            ("ab", Tone::Match),
            ("", Tone::Plain),
            ("ab", Tone::Match),
            ("", Tone::Plain),
        ]
    );
    assert_eq!(texts(&highlight_search_result("abc", "x")), vec![("abc", Tone::Plain)]);
    assert_eq!(texts(&highlight_search_result("abc", "")), vec![("abc", Tone::Plain)]);
}
