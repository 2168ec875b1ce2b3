//! Measuring rendered text: the widest line and the number of lines.

use vstd::prelude::*;
use crate::control::{strip, visible};
use crate::error::InfoError;

verus! {

/// The visible size of a text: the length of its longest line, in characters,
/// and the number of its lines.
#[derive(Clone, Copy, Debug, PartialEq, Eq)]
pub struct Dimensions {
    pub width: usize,
    pub height: usize,
}

/// The lines of `text`: the segments between line breaks, in order. A text
/// with `n` line breaks has `n + 1` lines; a text that ends in a line break
/// ends in an empty line.
pub open spec fn lines(text: Seq<char>) -> Seq<Seq<char>>
    decreases text.len(),
{
    if text.len() == 0 {
        seq![Seq::<char>::empty()]
    } else {
        let before = lines(text.drop_last());
        if text.last() == '\n' {
            before.push(Seq::<char>::empty())
        } else {
            before.drop_last().push(before.last().push(text.last()))
        }
    }
}

/// The length of the longest of `lines`, counted in characters.
pub open spec fn widest(lines: Seq<Seq<char>>) -> nat
    decreases lines.len(),
{
    if lines.len() == 0 {
        0
    } else {
        let rest = widest(lines.drop_last());
        if lines.last().len() > rest {
            lines.last().len()
        } else {
            rest
        }
    }
}

/// How one more character changes the lines of a text: a line break opens a
/// new, empty line; any other character lengthens the last line by one.
pub proof fn lemma_lines_step(text: Seq<char>)
    requires
        text.len() > 0,
    ensures
        lines(text.drop_last()).len() >= 1,
        text.last() == '\n' ==> {
            &&& lines(text).len() == lines(text.drop_last()).len() + 1
            &&& lines(text).last().len() == 0
            &&& widest(lines(text)) == widest(lines(text.drop_last()))
        },
        text.last() != '\n' ==> {
            &&& lines(text).len() == lines(text.drop_last()).len()
            &&& lines(text).last().len() == lines(text.drop_last()).last().len() + 1
            &&& widest(lines(text)) >= widest(lines(text.drop_last()))
            &&& widest(lines(text)) >= lines(text).last().len()
            &&& widest(lines(text)) == widest(lines(text.drop_last()))
                || widest(lines(text)) == lines(text).last().len()
        },
{
    let before = lines(text.drop_last());
    lemma_lines_nonempty(text.drop_last());
    if text.last() == '\n' {
        let empty = Seq::<char>::empty();
        assert(before.push(empty).drop_last() =~= before);
    } else {
        let grown = before.last().push(text.last());
        assert(before.drop_last().push(grown).drop_last() =~= before.drop_last());
    }
}

/// The empty text is one empty line.
pub proof fn lemma_empty_text_measures()
    ensures
        lines(Seq::<char>::empty()) == seq![Seq::<char>::empty()],
        widest(lines(Seq::<char>::empty())) == 0,
{
    let only = seq![Seq::<char>::empty()];
    assert(only.drop_last() =~= Seq::<Seq<char>>::empty());
    assert(widest(only.drop_last()) == 0);
}

/// Every text has at least one line.
pub proof fn lemma_lines_nonempty(text: Seq<char>)
    ensures
        lines(text).len() >= 1,
    decreases text.len(),
{
    if text.len() > 0 {
        lemma_lines_nonempty(text.drop_last());
    }
}

/// A text has at least as many lines, and as wide a widest line, as any of
/// its prefixes.
pub proof fn lemma_prefix_measures_less(text: Seq<char>, k: int)
    requires
        0 <= k <= text.len(),
    ensures
        lines(text.take(k)).len() <= lines(text).len(),
        widest(lines(text.take(k))) <= widest(lines(text)),
    decreases text.len(),
{
    if k == text.len() {
        assert(text.take(k) =~= text);
    } else {
        assert(text.drop_last().take(k) =~= text.take(k));
        lemma_prefix_measures_less(text.drop_last(), k);
        lemma_lines_step(text);
    }
}

/// The number of line breaks in `text`.
pub open spec fn breaks(text: Seq<char>) -> nat
    decreases text.len(),
{
    if text.len() == 0 {
        0
    } else if text.last() == '\n' {
        breaks(text.drop_last()) + 1
    } else {
        breaks(text.drop_last())
    }
}

/// `lines` joined again, with one line break between each two.
pub open spec fn joined(lines: Seq<Seq<char>>) -> Seq<char>
    decreases lines.len(),
{
    if lines.len() == 0 {
        Seq::<char>::empty()
    } else if lines.len() == 1 {
        lines[0]
    } else {
        joined(lines.drop_last()).push('\n') + lines.last()
    }
}

/// A text has one line more than it has line breaks: a text that ends in a
/// line break ends in an empty line, which counts.
pub proof fn lemma_height_counts_breaks(text: Seq<char>)
    ensures
        lines(text).len() == breaks(text) + 1,
    decreases text.len(),
{
    if text.len() > 0 {
        lemma_height_counts_breaks(text.drop_last());
        lemma_lines_step(text);
    }
}

/// The lines of a text are what lies between its line breaks: no line holds
/// a line break, and the lines joined by line breaks are the text again.
pub proof fn lemma_lines_rejoin(text: Seq<char>)
    ensures
        joined(lines(text)) == text,
        forall|i: int, j: int|
            0 <= i < lines(text).len() && 0 <= j < lines(text)[i].len() ==> lines(text)[i][j]
                != '\n',
    decreases text.len(),
{
    if text.len() > 0 {
        let before = lines(text.drop_last());
        lemma_lines_rejoin(text.drop_last());
        lemma_lines_nonempty(text.drop_last());
        if text.last() == '\n' {
            let now = before.push(Seq::<char>::empty());
            assert(now.drop_last() =~= before);
            assert(joined(now) =~= joined(before).push('\n'));
            assert(text =~= text.drop_last().push('\n'));
        } else {
            let grown = before.last().push(text.last());
            let now = before.drop_last().push(grown);
            assert(now.drop_last() =~= before.drop_last());
            assert(joined(now) =~= joined(before).push(text.last()));
            assert(text =~= text.drop_last().push(text.last()));
        }
    }
}

/// The widest line is a maximum: no line is longer, and one line is as long.
pub proof fn lemma_widest_is_maximum(lines: Seq<Seq<char>>)
    ensures
        forall|i: int| 0 <= i < lines.len() ==> (#[trigger] lines[i]).len() <= widest(lines),
        lines.len() > 0 ==> exists|i: int|
            0 <= i < lines.len() && (#[trigger] lines[i]).len() == widest(lines),
    decreases lines.len(),
{
    if lines.len() > 0 {
        let rest = lines.drop_last();
        lemma_widest_is_maximum(rest);
        assert forall|i: int| 0 <= i < lines.len() implies (#[trigger] lines[i]).len() <= widest(
            lines,
        ) by {
            if i < rest.len() {
                assert(rest[i] == lines[i]);
            }
        }
        if lines.last().len() > widest(rest) || rest.len() == 0 {
            assert(lines[lines.len() - 1].len() == widest(lines));
        } else {
            let i = choose|i: int| 0 <= i < rest.len() && (#[trigger] rest[i]).len() == widest(rest);
            assert(lines[i] == rest[i]);
        }
    }
}

/// A text without a line break is one line, as wide as the text has
/// characters, whatever the characters are.
pub proof fn lemma_unbroken_text(text: Seq<char>)
    requires
        forall|i: int| 0 <= i < text.len() ==> text[i] != '\n',
    ensures
        lines(text) == seq![text],
        lines(text).len() == 1,
        widest(lines(text)) == text.len(),
    decreases text.len(),
{
    if text.len() == 0 {
        lemma_empty_text_measures();
        assert(text =~= Seq::<char>::empty());
    } else {
        lemma_unbroken_text(text.drop_last());
        let before = lines(text.drop_last());
        assert(before.drop_last() =~= Seq::<Seq<char>>::empty());
        assert(before.last().push(text.last()) =~= text);
        assert(before.drop_last().push(text) =~= seq![text]);
        assert(seq![text].drop_last() =~= Seq::<Seq<char>>::empty());
        assert(widest(seq![text].drop_last()) == 0);
    }
}

/// A line of one character is one wide, however many bytes the character
/// takes.
pub proof fn lemma_single_character(c: char)
    requires
        c != '\n',
    ensures
        lines(seq![c]).len() == 1,
        widest(lines(seq![c])) == 1,
{
    lemma_unbroken_text(seq![c]);
}

/// Measures `text`: the width is the length in characters of its longest
/// line, the height the number of its lines. `None` only where one of the
/// two does not fit in `usize`.
pub fn measure(text: &str) -> (r: Option<Dimensions>)
    ensures
        match r {
            Some(d) => d.width == widest(lines(text@)) && d.height == lines(text@).len(),
            None => widest(lines(text@)) > usize::MAX || lines(text@).len() > usize::MAX,
        },
{
    let mut width: usize = 0;
    let mut height: usize = 1;
    let mut current: usize = 0;
    proof {
        lemma_empty_text_measures();
        assert(text@.take(0) =~= Seq::<char>::empty());
    }
    for c in it: text.chars()
        invariant
            it.seq() == text@,
            height == lines(text@.take(it.index())).len(),
            current == lines(text@.take(it.index())).last().len(),
            width == widest(lines(text@.take(it.index()))),
    {
        proof {
            let grown = text@.take(it.index() + 1);
            assert(grown.drop_last() =~= text@.take(it.index()));
            assert(grown.last() == c);
            lemma_lines_step(grown);
            lemma_prefix_measures_less(text@, it.index() + 1);
        }
        if c == '\n' {
            match height.checked_add(1) {
                Some(h) => {
                    height = h;
                },
                None => {
                    return None;
                },
            }
            current = 0;
        } else {
            match current.checked_add(1) {
                Some(n) => {
                    current = n;
                },
                None => {
                    return None;
                },
            }
            if current > width {
                width = current;
            }
        }
    }
    proof {
        assert(text@.take(text@.len() as int) =~= text@);
    }
    Some(Dimensions { width, height })
}

/// Measures `rendered` as a terminal shows it: its control sequences are
/// taken out first, and count for nothing.
pub fn dimensions(rendered: &str) -> (r: Result<Dimensions, InfoError>)
    ensures
        match visible(rendered@) {
            None => r == Err::<Dimensions, InfoError>(InfoError::Pattern),
            Some(plain) => if widest(lines(plain)) <= usize::MAX && lines(plain).len()
                <= usize::MAX {
                r matches Ok(d) && d.width == widest(lines(plain)) && d.height == lines(
                    plain,
                ).len()
            } else {
                r == Err::<Dimensions, InfoError>(InfoError::Overflow)
            },
        },
{
    match strip(rendered) {
        None => Err(InfoError::Pattern),
        Some(plain) => match measure(plain.as_str()) {
            Some(d) => Ok(d),
            None => Err(InfoError::Overflow),
        },
    }
}

} // verus!
