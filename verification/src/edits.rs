//! What each edit does to the lines of the text and to the cursor, for a
//! cursor that is in bounds.

use vstd::prelude::*;
use crate::lines::{
    all_lines, is_line, lemma_line_start_of_prefix, lemma_line_within_text, lemma_lines_around,
    lemma_replace_lines, lemma_split_lines_shape, lemma_terminated_concat, lemma_terminated_one,
    line_break, line_start, split_lines, terminated,
};
use crate::state::EditState;

verus! {

/// The cursor of a state in bounds stands within the text, and stands at
/// its start only on the first line, before the first column.
pub proof fn lemma_offset_range(m: EditState)
    requires
        m.in_bounds(),
    ensures
        0 <= m.offset() <= m.content.len(),
        m.offset() == 0 <==> (m.row == 0 && m.col == 0),
        m.clamped() == m,
{
    lemma_line_within_text(m.content, m.row);
    if m.row > 0 {
        lemma_line_within_text(m.content, m.row - 1);
    }
}

/// Typing a character other than a break puts it into the cursor's line, at
/// the cursor, and moves the cursor past it.
pub proof fn lemma_typed(m: EditState, c: char)
    requires
        m.in_bounds(),
        c != line_break(),
    ensures
        m.typed(c) == (EditState {
            content: m.content.insert(m.offset(), c),
            row: m.row,
            col: m.col + 1,
        }),
        m.typed(c).lines() == m.lines().update(
            m.row,
            m.lines()[m.row].insert(m.col, c),
        ),
        m.typed(c).in_bounds(),
        m.typed(c).offset() == m.offset() + 1,
{
    let s = m.content;
    let ls = split_lines(s);
    let row = m.row;
    let col = m.col;
    let l = ls[row];
    let above = terminated(ls.take(row));
    let below = terminated(ls.skip(row + 1));
    let p = m.offset();
    let t = s.insert(p, c);
    let grown = l.insert(col, c);
    lemma_split_lines_shape(s);
    lemma_lines_around(s, row);
    lemma_line_within_text(s, row);
    lemma_terminated_one(grown);
    assert(s =~= (above + l.push(line_break()) + below).drop_last());
    assert(t.push(line_break()) =~= above + grown.push(line_break()) + below);
    assert(all_lines(seq![grown])) by {
        assert(is_line(l));
        assert(is_line(grown));
    }
    lemma_replace_lines(s, row, row + 1, seq![grown], t);
    let now = split_lines(t);
    assert(now =~= ls.update(row, grown));
    assert(now.take(row) =~= ls.take(row));
    lemma_line_start_of_prefix(now, ls, row);
}

/// Breaking the line at the cursor cuts it in two at the cursor, and moves
/// the cursor to the start of the second part.
pub proof fn lemma_broken(m: EditState)
    requires
        m.in_bounds(),
    ensures
        m.broken() == (EditState {
            content: m.content.insert(m.offset(), line_break()),
            row: m.row + 1,
            col: 0,
        }),
        m.broken().lines() == m.lines().take(m.row) + seq![
            m.lines()[m.row].take(m.col),
            m.lines()[m.row].skip(m.col),
        ] + m.lines().skip(m.row + 1),
        m.broken().in_bounds(),
        m.broken().offset() == m.offset() + 1,
{
    let s = m.content;
    let ls = split_lines(s);
    let row = m.row;
    let col = m.col;
    let l = ls[row];
    let above = terminated(ls.take(row));
    let below = terminated(ls.skip(row + 1));
    let p = m.offset();
    let t = s.insert(p, line_break());
    let head = l.take(col);
    let tail = l.skip(col);
    let parts = seq![head, tail];
    lemma_split_lines_shape(s);
    lemma_lines_around(s, row);
    lemma_line_within_text(s, row);
    lemma_terminated_one(head);
    lemma_terminated_one(tail);
    lemma_terminated_concat(seq![head], seq![tail]);
    assert(seq![head] + seq![tail] =~= parts);
    assert(s =~= (above + l.push(line_break()) + below).drop_last());
    assert(t.push(line_break()) =~= above + (head.push(line_break()) + tail.push(line_break()))
        + below);
    assert(all_lines(parts)) by {
        assert(is_line(l));
        assert(is_line(head));
        assert(is_line(tail));
    }
    lemma_replace_lines(s, row, row + 1, parts, t);
    let now = split_lines(t);
    assert(now[row] == head);
    assert(now.take(row) =~= ls.take(row));
    lemma_line_start_of_prefix(now, ls, row);
    assert(line_start(now, row + 1) == line_start(now, row) + now[row].len() + 1);
}

/// Erasing within a line takes the character before the cursor out of that
/// line, and moves the cursor back by one.
pub proof fn lemma_erased_within(m: EditState)
    requires
        m.in_bounds(),
        m.col > 0,
    ensures
        m.erased() == (EditState {
            content: m.content.remove(m.offset() - 1),
            row: m.row,
            col: m.col - 1,
        }),
        m.erased().lines() == m.lines().update(
            m.row,
            m.lines()[m.row].remove(m.col - 1),
        ),
        m.erased().in_bounds(),
        m.erased().offset() == m.offset() - 1,
{
    let s = m.content;
    let ls = split_lines(s);
    let row = m.row;
    let col = m.col;
    let l = ls[row];
    let above = terminated(ls.take(row));
    let below = terminated(ls.skip(row + 1));
    let p = m.offset();
    let t = s.remove(p - 1);
    let shrunk = l.remove(col - 1);
    lemma_split_lines_shape(s);
    lemma_lines_around(s, row);
    lemma_line_within_text(s, row);
    lemma_terminated_one(shrunk);
    assert(s =~= (above + l.push(line_break()) + below).drop_last());
    assert(t.push(line_break()) =~= above + shrunk.push(line_break()) + below);
    assert(all_lines(seq![shrunk])) by {
        assert(is_line(l));
        assert(is_line(shrunk));
    }
    lemma_replace_lines(s, row, row + 1, seq![shrunk], t);
    let now = split_lines(t);
    assert(now =~= ls.update(row, shrunk));
    assert(now.take(row) =~= ls.take(row));
    lemma_line_start_of_prefix(now, ls, row);
}

/// Erasing at the start of a line below the first joins that line to the
/// one above it, and leaves the cursor where the two meet.
pub proof fn lemma_erased_joining(m: EditState)
    requires
        m.in_bounds(),
        m.col == 0,
        m.row > 0,
    ensures
        m.erased() == (EditState {
            content: m.content.remove(m.offset() - 1),
            row: m.row - 1,
            col: m.line_len(m.row - 1),
        }),
        m.erased().lines() == m.lines().take(m.row - 1) + seq![
            m.lines()[m.row - 1] + m.lines()[m.row],
        ] + m.lines().skip(m.row + 1),
        m.erased().in_bounds(),
        m.erased().offset() == m.offset() - 1,
{
    let s = m.content;
    let ls = split_lines(s);
    let row = m.row;
    let upper = ls[row - 1];
    let lower = ls[row];
    let above = terminated(ls.take(row - 1));
    let below = terminated(ls.skip(row + 1));
    let p = m.offset();
    let t = s.remove(p - 1);
    let joined = upper + lower;
    lemma_split_lines_shape(s);
    lemma_lines_around(s, row);
    lemma_lines_around(s, row - 1);
    lemma_line_within_text(s, row);
    lemma_terminated_one(upper);
    lemma_terminated_one(joined);
    lemma_terminated_concat(ls.take(row - 1), seq![upper]);
    assert(ls.take(row - 1) + seq![upper] =~= ls.take(row));
    assert(line_start(ls, row) == line_start(ls, row - 1) + upper.len() + 1);
    assert(s =~= (above + upper.push(line_break()) + lower.push(line_break()) + below).drop_last());
    assert(t.push(line_break()) =~= above + joined.push(line_break()) + below);
    assert(all_lines(seq![joined])) by {
        assert(is_line(upper));
        assert(is_line(lower));
        assert(is_line(joined));
    }
    lemma_replace_lines(s, row - 1, row + 1, seq![joined], t);
    let now = split_lines(t);
    assert(now[row - 1] == joined);
    assert(now.take(row - 1) =~= ls.take(row - 1));
    lemma_line_start_of_prefix(now, ls, row - 1);
}

} // verus!
