//! The text of an entry after an update: what stands before the highlights
//! stays, but for the line of the read status; the highlights are replaced.

use vstd::prelude::*;
use crate::planner::{read_status, read_status_by_location};
use crate::text::{
    chars_of, has_prefix, join, joined, lines_of, push_all, rows_view, same_chars, split_lines,
    starts_with, string_of, trim, trimmed,
};

verus! {

/// The line with which the highlights of an entry begin.
pub open spec fn highlights_heading() -> Seq<char> {
    "* readwise:highlights"@
}

/// The words with which the line of the read status begins.
pub open spec fn status_label() -> Seq<char> {
    "- read status:"@
}

/// Whether `line` is the heading of the highlights, white space around it
/// aside.
pub open spec fn is_heading(line: Seq<char>) -> bool {
    trimmed(line) == highlights_heading()
}

/// Whether `line` is a line of the read status, white space around it aside.
pub open spec fn is_status_line(line: Seq<char>) -> bool {
    has_prefix(trimmed(line), status_label())
}

/// The number of lines before the first heading of the highlights: all of
/// them, if there is no heading.
pub open spec fn heading_index(lines: Seq<Seq<char>>) -> int
    decreases lines.len(),
{
    if lines.len() == 0 || is_heading(lines[0]) {
        0
    } else {
        1 + heading_index(lines.skip(1))
    }
}

/// The number of lines before the first line of the read status: all of
/// them, if there is none.
pub open spec fn status_index(lines: Seq<Seq<char>>) -> int
    decreases lines.len(),
{
    if lines.len() == 0 || is_status_line(lines[0]) {
        0
    } else {
        1 + status_index(lines.skip(1))
    }
}

/// Both indices lie within the lines.
pub proof fn lemma_indices_in_range(lines: Seq<Seq<char>>)
    ensures
        0 <= heading_index(lines) <= lines.len(),
        0 <= status_index(lines) <= lines.len(),
    decreases lines.len(),
{
    if lines.len() > 0 {
        lemma_indices_in_range(lines.skip(1));
    }
}

/// The line of the read status `status`.
pub open spec fn status_line(status: Seq<char>) -> Seq<char> {
    "- read status: "@ + status
}

/// The lines that an update keeps: those before the heading of the
/// highlights, the first line of the read status among them replaced by the
/// line of `status`.
pub open spec fn kept_lines(lines: Seq<Seq<char>>, status: Seq<char>) -> Seq<Seq<char>> {
    let head = lines.take(heading_index(lines));
    let at = status_index(head);
    if 0 <= at < head.len() {
        head.update(at, status_line(status))
    } else {
        head
    }
}

/// The text of an entry after an update: the lines that the update keeps,
/// each on its own line, and behind them the new highlights.
pub open spec fn updated_text(content: Seq<char>, location: Seq<char>, highlights: Seq<char>) -> Seq<
    char,
> {
    joined(kept_lines(lines_of(content), read_status(location)), seq!['\n']) + seq!['\n']
        + highlights
}

/// The number of rows before the first heading of the highlights.
fn find_heading(rows: &Vec<Vec<char>>) -> (at: usize)
    ensures
        at == heading_index(rows_view(rows@)),
        at <= rows.len(),
{
    let ghost lines = rows_view(rows@);
    let heading = chars_of("* readwise:highlights");
    let mut i: usize = 0;
    assert(lines.skip(0) == lines);
    while i < rows.len()
        invariant
            i <= rows.len(),
            lines == rows_view(rows@),
            heading@ == highlights_heading(),
            heading_index(lines) == i + heading_index(lines.skip(i as int)),
        decreases rows.len() - i,
    {
        assert(lines.skip(i as int)[0] == rows@[i as int]@);
        assert(lines.skip(i as int).skip(1) == lines.skip(i + 1));
        let bare = trim(&rows[i]);
        if same_chars(&bare, &heading) {
            return i;
        }
        i += 1;
    }
    i
}

/// The number of the first `limit` rows before the first line of the read
/// status among them.
fn find_status(rows: &Vec<Vec<char>>, limit: usize) -> (at: usize)
    requires
        limit <= rows.len(),
    ensures
        at == status_index(rows_view(rows@).take(limit as int)),
        at <= limit,
{
    let ghost lines = rows_view(rows@).take(limit as int);
    let label = chars_of("- read status:");
    let mut i: usize = 0;
    assert(lines.skip(0) == lines);
    while i < limit
        invariant
            i <= limit <= rows.len(),
            lines == rows_view(rows@).take(limit as int),
            label@ == status_label(),
            status_index(lines) == i + status_index(lines.skip(i as int)),
        decreases limit - i,
    {
        assert(lines.skip(i as int)[0] == rows@[i as int]@);
        assert(lines.skip(i as int).skip(1) == lines.skip(i + 1));
        let bare = trim(&rows[i]);
        if starts_with(&bare, &label) {
            return i;
        }
        i += 1;
    }
    i
}

/// The text of an entry after an update. `content` is the text before it,
/// `location` where the document now is, and `highlight_content` the new
/// highlights.
pub fn updated_content(content: &str, location: &str, highlight_content: &str) -> (text: String)
    ensures
        text@ == updated_text(content@, location@, highlight_content@),
{
    let chars = chars_of(content);
    let rows = split_lines(&chars);
    let ghost lines = rows_view(rows@);
    let heading = find_heading(&rows);
    let status = find_status(&rows, heading);
    let mut kept: Vec<Vec<char>> = Vec::new();
    let mut i: usize = 0;
    let ghost wanted = kept_lines(lines, read_status(location@));
    let mut line = chars_of("- read status: ");
    let word = chars_of(read_status_by_location(location));
    push_all(&mut line, &word);
    assert(line@ == status_line(read_status(location@)));
    while i < heading
        invariant
            i <= heading <= rows.len(),
            status <= heading,
            lines == rows_view(rows@),
            heading == heading_index(lines),
            status == status_index(lines.take(heading as int)),
            wanted == kept_lines(lines, read_status(location@)),
            line@ == status_line(read_status(location@)),
            rows_view(kept@) == wanted.take(i as int),
        decreases heading - i,
    {
        let ghost before = rows_view(kept@);
        if i == status {
            kept.push(line.clone());
        } else {
            kept.push(rows[i].clone());
        }
        assert(rows_view(kept@) == before.push(wanted[i as int]));
        assert(wanted.take(i + 1) == wanted.take(i as int).push(wanted[i as int]));
        i += 1;
    }
    assert(wanted.take(i as int) == wanted);
    let newline = chars_of("\n");
    proof {
        reveal_strlit("\n");
        assert(newline@ == seq!['\n']);
    }
    let mut out = join(&kept, &newline);
    out.push('\n');
    let block = chars_of(highlight_content);
    push_all(&mut out, &block);
    string_of(&out)
}

/// An update cuts nothing that stands before the highlights: it keeps as
/// many lines as stand before the heading, and each of them as it was, but
/// for the first line of the read status.
pub proof fn lemma_update_keeps_head(lines: Seq<Seq<char>>, status: Seq<char>, i: int)
    requires
        0 <= i < heading_index(lines),
    ensures
        heading_index(lines) <= lines.len(),
        kept_lines(lines, status).len() == heading_index(lines),
        i != status_index(lines.take(heading_index(lines))) ==> kept_lines(lines, status)[i]
            == lines[i],
        i == status_index(lines.take(heading_index(lines))) ==> kept_lines(lines, status)[i]
            == status_line(status),
{
    lemma_indices_in_range(lines);
    lemma_indices_in_range(lines.take(heading_index(lines)));
}

} // verus!
