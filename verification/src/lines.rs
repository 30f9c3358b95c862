//! The line structure of a text: how a sequence of characters falls into
//! lines at its line breaks, and where each line starts.

use vstd::prelude::*;

verus! {

/// The character that ends a line.
pub open spec fn line_break() -> char {
    '\n'
}

/// A line holds no line break.
pub open spec fn is_line(l: Seq<char>) -> bool {
    forall|i: int| 0 <= i < l.len() ==> l[i] != line_break()
}

/// Every element of `ls` is a line.
pub open spec fn all_lines(ls: Seq<Seq<char>>) -> bool {
    forall|i: int| 0 <= i < ls.len() ==> is_line(#[trigger] ls[i])
}

/// The lines of `s`, in order: the pieces of `s` between its line breaks.
/// A text with `n` breaks has `n + 1` lines, some of which may be empty.
pub open spec fn split_lines(s: Seq<char>) -> Seq<Seq<char>>
    decreases s.len(),
{
    if s.len() == 0 {
        seq![Seq::<char>::empty()]
    } else {
        let init = split_lines(s.drop_last());
        if s.last() == line_break() {
            init.push(Seq::<char>::empty())
        } else {
            init.update(init.len() - 1, init.last().push(s.last()))
        }
    }
}

/// The lines `ls` written out one after another, each followed by a break.
pub open spec fn terminated(ls: Seq<Seq<char>>) -> Seq<char>
    decreases ls.len(),
{
    if ls.len() == 0 {
        Seq::<char>::empty()
    } else {
        terminated(ls.drop_last()) + ls.last().push(line_break())
    }
}

/// The offset at which line `row` starts: the lengths of the lines above it,
/// plus one break for each of them.
pub open spec fn line_start(ls: Seq<Seq<char>>, row: int) -> int
    decreases row,
{
    if row <= 0 {
        0
    } else {
        line_start(ls, row - 1) + ls[row - 1].len() + 1
    }
}

/// A text always has at least one line, and no line holds a break.
pub proof fn lemma_split_lines_shape(s: Seq<char>)
    ensures
        split_lines(s).len() >= 1,
        all_lines(split_lines(s)),
    decreases s.len(),
{
    if s.len() > 0 {
        lemma_split_lines_shape(s.drop_last());
    }
}

/// Writing out the lines of `s`, each with its break, spells `s` and one
/// final break.
pub proof fn lemma_split_lines_spell(s: Seq<char>)
    ensures
        terminated(split_lines(s)) == s.push(line_break()),
    decreases s.len(),
{
    let ls = split_lines(s);
    if s.len() == 0 {
        assert(terminated(ls.drop_last()) =~= Seq::<char>::empty());
    } else {
        let init = split_lines(s.drop_last());
        lemma_split_lines_shape(s.drop_last());
        lemma_split_lines_spell(s.drop_last());
        if s.last() == line_break() {
            assert(ls.drop_last() =~= init);
        } else {
            assert(ls.drop_last() =~= init.drop_last());
            assert(terminated(init.drop_last()) + init.last() =~= s.drop_last()) by {
                let whole = terminated(init.drop_last()) + init.last().push(line_break());
                assert(whole.drop_last() =~= terminated(init.drop_last()) + init.last());
            }
            assert(s.drop_last().push(s.last()) =~= s);
        }
    }
}

/// The lines of a text are the only way to cut it at its breaks: a non-empty
/// sequence of lines that spells `s` and one final break is `split_lines(s)`.
pub proof fn lemma_split_lines_unique(ls: Seq<Seq<char>>, s: Seq<char>)
    requires
        ls.len() >= 1,
        all_lines(ls),
        terminated(ls) == s.push(line_break()),
    ensures
        split_lines(s) == ls,
    decreases s.len(),
{
    let init = ls.drop_last();
    let last = ls.last();
    assert(terminated(init) + last =~= s) by {
        let whole = terminated(init) + last.push(line_break());
        assert(whole.drop_last() =~= terminated(init) + last);
    }
    if last.len() > 0 {
        let shorter = init.push(last.drop_last());
        assert(shorter.drop_last() =~= init);
        assert(terminated(shorter) =~= s.drop_last().push(line_break()));
        assert(all_lines(shorter)) by {
            assert forall|i: int| 0 <= i < shorter.len() implies is_line(#[trigger] shorter[i]) by {
                if i < init.len() {
                    assert(shorter[i] == ls[i]);
                } else {
                    assert(forall|j: int|
                        0 <= j < last.drop_last().len() ==> last.drop_last()[j] == last[j]);
                }
            }
        }
        lemma_split_lines_unique(shorter, s.drop_last());
        assert(shorter.update(shorter.len() - 1, shorter.last().push(s.last())) =~= ls) by {
            assert(last.drop_last().push(last.last()) =~= last);
        }
    } else if init.len() > 0 {
        assert(terminated(init) =~= s.drop_last().push(line_break()));
        assert(all_lines(init)) by {
            assert forall|i: int| 0 <= i < init.len() implies is_line(#[trigger] init[i]) by {
                assert(init[i] == ls[i]);
            }
        }
        lemma_split_lines_unique(init, s.drop_last());
        assert(last =~= Seq::<char>::empty());
    }
}

/// Writing out two runs of lines one after the other is writing out their
/// concatenation.
pub proof fn lemma_terminated_concat(a: Seq<Seq<char>>, b: Seq<Seq<char>>)
    ensures
        terminated(a + b) == terminated(a) + terminated(b),
    decreases b.len(),
{
    if b.len() > 0 {
        lemma_terminated_concat(a, b.drop_last());
        assert((a + b).drop_last() =~= a + b.drop_last());
    }
}

/// A line starts where the lines above it, written out, end.
pub proof fn lemma_line_start_is_prefix_len(ls: Seq<Seq<char>>, row: int)
    requires
        0 <= row <= ls.len(),
    ensures
        line_start(ls, row) == terminated(ls.take(row)).len(),
    decreases row,
{
    if row > 0 {
        lemma_line_start_is_prefix_len(ls, row - 1);
        assert(ls.take(row).drop_last() =~= ls.take(row - 1));
    }
}

/// Lines further down start further on.
pub proof fn lemma_line_start_increases(ls: Seq<Seq<char>>, i: int, j: int)
    requires
        0 <= i <= j,
    ensures
        line_start(ls, i) <= line_start(ls, j),
    decreases j - i,
{
    if i < j {
        lemma_line_start_increases(ls, i, j - 1);
    }
}

/// Every line lies within the text: it ends no later than the text does.
pub proof fn lemma_line_within_text(s: Seq<char>, row: int)
    requires
        0 <= row < split_lines(s).len(),
    ensures
        0 <= line_start(split_lines(s), row),
        line_start(split_lines(s), row) + split_lines(s)[row].len() <= s.len(),
{
    let ls = split_lines(s);
    lemma_split_lines_spell(s);
    lemma_line_start_increases(ls, 0, row);
    lemma_line_start_increases(ls, row + 1, ls.len() as int);
    lemma_line_start_is_prefix_len(ls, ls.len() as int);
    assert(ls.take(ls.len() as int) =~= ls);
}

/// A text has at most one line more than it has characters.
pub proof fn lemma_line_count_bound(s: Seq<char>)
    ensures
        1 <= split_lines(s).len() <= s.len() + 1,
    decreases s.len(),
{
    if s.len() > 0 {
        lemma_line_count_bound(s.drop_last());
    }
}

/// Writing out a single line gives the line and its break.
pub proof fn lemma_terminated_one(l: Seq<char>)
    ensures
        terminated(seq![l]) == l.push(line_break()),
{
    assert(terminated(seq![l].drop_last()) =~= Seq::<char>::empty());
}

/// A run of lines of a text can be exchanged for another run of lines: if
/// `t`, followed by a break, spells the lines above `i`, then `mid`, then the
/// lines from `j` on, these are the lines of `t`.
pub proof fn lemma_replace_lines(s: Seq<char>, i: int, j: int, mid: Seq<Seq<char>>, t: Seq<char>)
    requires
        0 <= i <= j <= split_lines(s).len(),
        all_lines(mid),
        i + mid.len() + (split_lines(s).len() - j) >= 1,
        t.push(line_break()) == terminated(split_lines(s).take(i)) + terminated(mid) + terminated(
            split_lines(s).skip(j),
        ),
    ensures
        split_lines(t) == split_lines(s).take(i) + mid + split_lines(s).skip(j),
{
    let ls = split_lines(s);
    let now = ls.take(i) + mid + ls.skip(j);
    lemma_split_lines_shape(s);
    lemma_terminated_concat(ls.take(i), mid);
    lemma_terminated_concat(ls.take(i) + mid, ls.skip(j));
    assert(all_lines(now)) by {
        assert forall|k: int| 0 <= k < now.len() implies is_line(#[trigger] now[k]) by {
            if k < i {
                assert(now[k] == ls[k]);
            } else if k < i + mid.len() {
                assert(now[k] == mid[k - i]);
            } else {
                assert(now[k] == ls[k - i - mid.len() + j]);
            }
        }
    }
    lemma_split_lines_unique(now, t);
}

/// A text followed by a break spells the lines above `row`, then line `row`
/// with its break, then the lines below it.
pub proof fn lemma_lines_around(s: Seq<char>, row: int)
    requires
        0 <= row < split_lines(s).len(),
    ensures
        s.push(line_break()) == terminated(split_lines(s).take(row)) + split_lines(s)[row].push(
            line_break(),
        ) + terminated(split_lines(s).skip(row + 1)),
        terminated(split_lines(s).take(row)).len() == line_start(split_lines(s), row),
{
    let ls = split_lines(s);
    lemma_split_lines_spell(s);
    lemma_terminated_one(ls[row]);
    lemma_terminated_concat(ls.take(row), seq![ls[row]]);
    lemma_terminated_concat(ls.take(row) + seq![ls[row]], ls.skip(row + 1));
    assert(ls.take(row) + seq![ls[row]] + ls.skip(row + 1) =~= ls);
    lemma_line_start_is_prefix_len(ls, row);
}

/// Where a line starts depends on the lines above it alone.
pub proof fn lemma_line_start_of_prefix(a: Seq<Seq<char>>, b: Seq<Seq<char>>, row: int)
    requires
        0 <= row <= a.len(),
        row <= b.len(),
        a.take(row) == b.take(row),
    ensures
        line_start(a, row) == line_start(b, row),
{
    lemma_line_start_is_prefix_len(a, row);
    lemma_line_start_is_prefix_len(b, row);
}

} // verus!
