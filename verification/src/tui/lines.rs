//! Text lines of the interface, as spans of text with a tone each; the
//! renderer picks the colors of the tones.

use vstd::prelude::*;

use crate::text::{chars_of, decimal_of, decimal_string, find_from, find_from_exec, string_of_range};
use crate::trim::generate::lemma_find_from_bounds;
use crate::trim::ExportReport;
use crate::trim::deps::Warning;
use crate::tui::state::{ExportStage, State};

verus! {

/// How a span of text stands out.
#[derive(Clone, Copy, Debug, PartialEq, Eq, Structural)]
pub enum Tone {
    /// Ordinary text.
    Plain,
    /// The accent color of the interface.
    Accent,
    /// Text that calls for attention (labels, warnings).
    Highlight,
    /// A success.
    Success,
    /// A failure.
    Failure,
    /// Hints and secondary text.
    Muted,
    /// Frame characters around a field.
    Frame,
    /// A match of the search text.
    Match,
}

/// A span of text with its tone.
#[derive(Clone, Debug)]
pub struct Span {
    /// The text.
    pub text: String,
    /// Its tone.
    pub tone: Tone,
}

/// A span as its text and tone.
pub open spec fn span_view(s: Span) -> (Seq<char>, Tone) {
    (s.text@, s.tone)
}

/// A line as the views of its spans.
pub open spec fn line_view(l: Vec<Span>) -> Seq<(Seq<char>, Tone)> {
    l@.map_values(|s: Span| span_view(s))
}

/// Lines as the views of their spans.
pub open spec fn lines_view(ls: Seq<Vec<Span>>) -> Seq<Seq<(Seq<char>, Tone)>> {
    ls.map_values(|l: Vec<Span>| line_view(l))
}

/// The hint closing the export report.
pub open spec fn close_hint() -> Seq<(Seq<char>, Tone)> {
    seq![("press any key to close"@, Tone::Muted)]
}

/// At most this many warnings are listed in the export report.
pub const LISTED_WARNINGS: usize = 8;

/// The warning lines of the export report: a count, up to eight warnings,
/// and how many more there are.
pub open spec fn warning_lines(ws: Seq<Warning>) -> Seq<Seq<(Seq<char>, Tone)>> {
    if ws.len() == 0 {
        Seq::empty()
    } else {
        let listed = if ws.len() > LISTED_WARNINGS {
            LISTED_WARNINGS as int
        } else {
            ws.len() as int
        };
        seq![seq![(decimal_of(ws.len()) + " warning(s):"@, Tone::Highlight)]] + Seq::new(
            listed as nat,
            |i: int| seq![("- "@ + ws[i].spec_message(), Tone::Plain)],
        ) + if ws.len() > LISTED_WARNINGS {
            seq![
                seq![
                    ("… and "@ + decimal_of((ws.len() - LISTED_WARNINGS) as nat) + " more"@, Tone::Plain),
                ],
            ]
        } else {
            Seq::empty()
        }
    }
}

/// The lines reporting the outcome of an export: where it went, how many
/// files were written and the warnings; or that it failed and why.
pub open spec fn spec_report_lines(outcome: Result<ExportReport, String>) -> Seq<
    Seq<(Seq<char>, Tone)>,
> {
    match outcome {
        Ok(report) => seq![
            seq![("Exported to "@, Tone::Plain), (report.output_dir@, Tone::Success)],
            seq![(decimal_of(report.files_written@.len()) + " files written"@, Tone::Plain)],
        ] + warning_lines(report.warnings@) + seq![close_hint()],
        Err(error) => seq![
            seq![("Export failed"@, Tone::Failure)],
            seq![(error@, Tone::Plain)],
            close_hint(),
        ],
    }
}

/// A report always ends with the hint to close it; a success report has
/// three lines besides its warning lines, which list at most eight warnings
/// between a count line and, past eight, a line for the rest.
pub proof fn lemma_report_lines_shape(outcome: Result<ExportReport, String>)
    ensures
        spec_report_lines(outcome).last() == close_hint(),
        outcome matches Ok(report) ==> {
            let n = report.warnings@.len();
            spec_report_lines(outcome).len() == 3 + if n == 0 {
                0
            } else if n <= 8 {
                1 + n
            } else {
                10
            }
        },
        outcome is Err ==> spec_report_lines(outcome).len() == 3,
{
}

/// A span of literal text.
fn span(text: &str, tone: Tone) -> (s: Span)
    ensures
        span_view(s) == (text@, tone),
{
    Span { text: text.to_owned(), tone }
}

/// A line of one span.
fn single(text: String, tone: Tone) -> (l: Vec<Span>)
    ensures
        line_view(l) == seq![(text@, tone)],
{
    let mut l: Vec<Span> = Vec::new();
    l.push(Span { text, tone });
    assert(line_view(l) =~= seq![(text@, tone)]);
    l
}

/// `text` followed by a literal suffix.
fn with_suffix(text: String, suffix: &str) -> (r: String)
    ensures
        r@ == text@ + suffix@,
{
    let mut r = text;
    r.append(suffix);
    r
}

/// Appends a line.
fn push_line(lines: &mut Vec<Vec<Span>>, line: Vec<Span>)
    ensures
        lines_view(final(lines)@) == lines_view(old(lines)@).push(line_view(line)),
{
    let ghost before = lines_view(lines@);
    let ghost lv = line_view(line);
    lines.push(line);
    assert(lines_view(lines@) =~= before.push(lv));
}

/// The warning lines of the export report.
fn push_warning_lines(lines: &mut Vec<Vec<Span>>, warnings: &Vec<Warning>)
    ensures
        lines_view(final(lines)@) == lines_view(old(lines)@) + warning_lines(warnings@),
{
    proof {
        reveal_strlit(" warning(s):");
        reveal_strlit("- ");
        reveal_strlit("… and ");
        reveal_strlit(" more");
    }
    let ghost start = lines_view(lines@);
    let ghost ws = warnings@;
    let n = warnings.len();
    if n == 0 {
        assert(lines_view(lines@) =~= start + warning_lines(ws));
        return;
    }
    push_line(lines, single(with_suffix(decimal_string(n), " warning(s):"), Tone::Highlight));
    let ghost head = lines_view(lines@);
    let listed = if n > LISTED_WARNINGS {
        LISTED_WARNINGS
    } else {
        n
    };
    let mut i: usize = 0;
    while i < listed
        invariant
            listed <= n == warnings@.len(),
            ws == warnings@,
            i <= listed,
            lines_view(lines@) == head + Seq::new(
                i as nat,
                |k: int| seq![("- "@ + ws[k].spec_message(), Tone::Plain)],
            ),
        decreases listed - i,
    {
        let mut text = "- ".to_owned();
        text.append(warnings[i].message().as_str());
        let ghost before = lines_view(lines@);
        let line = single(text, Tone::Plain);
        let ghost lv = line_view(line);
        push_line(lines, line);
        i = i + 1;
        assert(head + Seq::new(
            i as nat,
            |k: int| seq![("- "@ + ws[k].spec_message(), Tone::Plain)],
        ) =~= before.push(lv));
    }
    let ghost listed_lines = lines_view(lines@);
    if n > LISTED_WARNINGS {
        let mut text = "… and ".to_owned();
        text.append(decimal_string(n - LISTED_WARNINGS).as_str());
        text.append(" more");
        push_line(lines, single(text, Tone::Plain));
    }
    assert(lines_view(lines@) =~= start + warning_lines(ws));
}

/// Builds the lines of the export result.
pub fn export_report_lines(outcome: &Result<ExportReport, String>) -> (lines: Vec<Vec<Span>>)
    ensures
        lines_view(lines@) == spec_report_lines(*outcome),
{
    proof {
        reveal_strlit("press any key to close");
        reveal_strlit("Exported to ");
        reveal_strlit(" files written");
        reveal_strlit("Export failed");
    }
    let mut lines: Vec<Vec<Span>> = Vec::new();
    assert(lines_view(lines@) =~= Seq::empty());
    match outcome {
        Ok(report) => {
            let mut first: Vec<Span> = Vec::new();
            first.push(span("Exported to ", Tone::Plain));
            first.push(Span { text: report.output_dir.clone(), tone: Tone::Success });
            assert(line_view(first) =~= seq![
                ("Exported to "@, Tone::Plain),
                (report.output_dir@, Tone::Success),
            ]);
            push_line(&mut lines, first);
            push_line(
                &mut lines,
                single(
                    with_suffix(decimal_string(report.files_written.len()), " files written"),
                    Tone::Plain,
                ),
            );
            push_warning_lines(&mut lines, &report.warnings);
            push_line(&mut lines, single("press any key to close".to_owned(), Tone::Muted));
        },
        Err(error) => {
            push_line(&mut lines, single("Export failed".to_owned(), Tone::Failure));
            push_line(&mut lines, single(error.clone(), Tone::Plain));
            push_line(&mut lines, single("press any key to close".to_owned(), Tone::Muted));
        },
    }
    assert(lines_view(lines@) =~= spec_report_lines(*outcome));
    lines
}

/// The lines of an export prompt: the label, the typed text and a cursor,
/// then an empty line and the key hints.
pub open spec fn spec_prompt_lines(label: Seq<char>, value: Seq<char>) -> Seq<
    Seq<(Seq<char>, Tone)>,
> {
    seq![
        seq![(label, Tone::Highlight), (value, Tone::Accent), ("█"@, Tone::Muted)],
        Seq::empty(),
        seq![("[⏎ confirm]"@, Tone::Muted), (" "@, Tone::Plain), ("[esc cancel]"@, Tone::Muted)],
    ]
}

/// Builds the lines of an export input prompt, given the text typed so far.
pub fn export_prompt_lines(label: &str, value: &str) -> (lines: Vec<Vec<Span>>)
    ensures
        lines_view(lines@) == spec_prompt_lines(label@, value@),
{
    let mut first: Vec<Span> = Vec::new();
    first.push(span(label, Tone::Highlight));
    first.push(span(value, Tone::Accent));
    first.push(span("█", Tone::Muted));
    let mut hints: Vec<Span> = Vec::new();
    hints.push(span("[⏎ confirm]", Tone::Muted));
    hints.push(span(" ", Tone::Plain));
    hints.push(span("[esc cancel]", Tone::Muted));
    let mut lines: Vec<Vec<Span>> = Vec::new();
    assert(lines_view(lines@) =~= Seq::empty());
    let empty: Vec<Span> = Vec::new();
    assert(line_view(empty) =~= Seq::empty());
    assert(line_view(first) =~= seq![(label@, Tone::Highlight), (value@, Tone::Accent), ("█"@, Tone::Muted)]);
    assert(line_view(hints) =~= seq![
        ("[⏎ confirm]"@, Tone::Muted),
        (" "@, Tone::Plain),
        ("[esc cancel]"@, Tone::Muted),
    ]);
    push_line(&mut lines, first);
    push_line(&mut lines, empty);
    push_line(&mut lines, hints);
    assert(lines_view(lines@) =~= spec_prompt_lines(label@, value@));
    lines
}

/// The line in the input slot of the header: the status between frame
/// bars when there is one; nothing while an export prompts in its popup;
/// the search field while it is in use or holds text; otherwise nothing.
pub open spec fn spec_input_line(s: State, value: Seq<char>) -> Seq<(Seq<char>, Tone)> {
    match s.status {
        Some(status) => seq![("|"@, Tone::Frame), (status@, Tone::Highlight), ("|"@, Tone::Frame)],
        None => if !(s.export_stage is Idle) {
            Seq::empty()
        } else if value.len() > 0 || s.input_mode {
            seq![
                ("|"@, Tone::Frame),
                ("search: "@, Tone::Highlight),
                (value, Tone::Accent),
                (if s.input_mode {
                    " "@
                } else {
                    ""@
                }, Tone::Plain),
                ("|"@, Tone::Frame),
            ]
        } else {
            Seq::empty()
        },
    }
}

/// Builds the line of the input slot, given the text of the text field.
pub fn get_input_line(state: &State, value: &str) -> (line: Vec<Span>)
    ensures
        line_view(line) == spec_input_line(*state, value@),
{
    let mut line: Vec<Span> = Vec::new();
    match &state.status {
        Some(status) => {
            line.push(span("|", Tone::Frame));
            line.push(Span { text: status.clone(), tone: Tone::Highlight });
            line.push(span("|", Tone::Frame));
        },
        None => {
            let idle = match state.export_stage {
                ExportStage::Idle => true,
                _ => false,
            };
            if idle && (!value.is_empty() || state.input_mode) {
                line.push(span("|", Tone::Frame));
                line.push(span("search: ", Tone::Highlight));
                line.push(span(value, Tone::Accent));
                if state.input_mode {
                    line.push(span(" ", Tone::Plain));
                } else {
                    line.push(span("", Tone::Plain));
                }
                line.push(span("|", Tone::Frame));
            }
        },
    }
    assert(line_view(line) =~= spec_input_line(*state, value@));
    line
}

/// The pieces of `s` from `start` on between the occurrences of `pat`, as
/// `str::split` with a non-empty text pattern yields them.
pub open spec fn split_pieces(s: Seq<char>, pat: Seq<char>, start: int) -> Seq<Seq<char>>
    decreases s.len() - start,
{
    if pat.len() == 0 || start < 0 || start > s.len() {
        seq![Seq::empty()]
    } else {
        match find_from(s, pat, start) {
            Some(k) => {
                proof {
                    lemma_find_from_bounds(s, pat, start);
                }
                seq![s.subrange(start, k)] + split_pieces(s, pat, k + pat.len())
            },
            None => seq![s.subrange(start, s.len() as int)],
        }
    }
}

/// Each piece as plain text followed by the match.
pub open spec fn pieces_then_match(pieces: Seq<Seq<char>>, pat: Seq<char>) -> Seq<(Seq<char>, Tone)>
    decreases pieces.len(),
{
    if pieces.len() == 0 {
        Seq::empty()
    } else {
        pieces_then_match(pieces.drop_last(), pat) + seq![
            (pieces.last(), Tone::Plain),
            (pat, Tone::Match),
        ]
    }
}

/// A line with the occurrences of the search text marked: the text between
/// them plain and each occurrence as a match; the line as it is when the
/// search text is empty or absent.
pub open spec fn spec_highlight(line: Seq<char>, query: Seq<char>) -> Seq<(Seq<char>, Tone)> {
    if query.len() > 0 && crate::text::contains(line, query) {
        let pieces = split_pieces(line, query, 0);
        pieces_then_match(pieces.drop_last(), query) + seq![(pieces.last(), Tone::Plain)]
    } else {
        seq![(line, Tone::Plain)]
    }
}

/// Returns the line with the search result highlighted.
pub fn highlight_search_result(line: &str, query: &str) -> (spans: Vec<Span>)
    ensures
        line_view(spans) == spec_highlight(line@, query@),
{
    let v = chars_of(line);
    let q = chars_of(query);
    if q.len() == 0 || !crate::text::contains_exec(&v, &q) {
        let mut spans: Vec<Span> = Vec::new();
        spans.push(span(line, Tone::Plain));
        assert(line_view(spans) =~= spec_highlight(line@, query@));
        return spans;
    }
    let mut spans: Vec<Span> = Vec::new();
    let ghost mut done: Seq<Seq<char>> = Seq::empty();
    let mut pos: usize = 0;
    assert(line_view(spans) =~= pieces_then_match(done, q@));
    assert(split_pieces(v@, q@, 0) =~= done + split_pieces(v@, q@, 0));
    let n = v.len();
    loop
        invariant
            v@ == line@,
            q@ == query@,
            n == v@.len(),
            q@.len() > 0,
            crate::text::contains(v@, q@),
            pos <= v@.len(),
            line_view(spans) == pieces_then_match(done, q@),
            split_pieces(v@, q@, 0) == done + split_pieces(v@, q@, pos as int),
        decreases v@.len() - pos,
    {
        match find_from_exec(&v, &q, pos) {
            Some(k) => {
                proof {
                    lemma_find_from_bounds(v@, q@, pos as int);
                }
                assert(k + q@.len() <= n);
                let piece = string_of_range(&v, pos, k);
                let ghost before = line_view(spans);
                spans.push(Span { text: piece, tone: Tone::Plain });
                spans.push(span(query, Tone::Match));
                proof {
                    let p = v@.subrange(pos as int, k as int);
                    assert(split_pieces(v@, q@, pos as int) == seq![p] + split_pieces(
                        v@,
                        q@,
                        k + q@.len(),
                    ));
                    assert(done.push(p).drop_last() =~= done);
                    assert(line_view(spans) =~= before + seq![(p, Tone::Plain), (q@, Tone::Match)]);
                    assert(done + split_pieces(v@, q@, pos as int) =~= done.push(p) + split_pieces(
                        v@,
                        q@,
                        k + q@.len(),
                    ));
                    done = done.push(p);
                }
                pos = k + q.len();
            },
            None => {
                let last = string_of_range(&v, pos, v.len());
                let ghost before = line_view(spans);
                spans.push(Span { text: last, tone: Tone::Plain });
                proof {
                    let p = v@.subrange(pos as int, v@.len() as int);
                    assert(split_pieces(v@, q@, pos as int) == seq![p]);
                    let all = split_pieces(v@, q@, 0);
                    assert(all =~= done.push(p));
                    assert(all.drop_last() =~= done);
                    assert(line_view(spans) =~= before + seq![(p, Tone::Plain)]);
                    assert(line_view(spans) =~= spec_highlight(line@, query@));
                }
                return spans;
            },
        }
    }
}

} // verus!
