//! What the frames without children send to a character terminal.
//!
//! A frame writes into its box and nowhere else: a text that a negative
//! offset moves to the right or down loses what would leave the box, and a
//! row of tokens scrolls as one line.
use vstd::prelude::*;

use crate::display::encode::{
    cursor_to, fill, lemma_shown_fits, pushCursor, pushFill, pushShown, shown, skip_after,
    take_after, window,
};
use crate::display::sgr::{pushRendition, pushReset, rendition, reset};
use crate::display::tty::TTYDisplay;
use crate::frame::style::{StyledToken, StyledTokenView};
use crate::frame::{
    EditorFrame, EditorFrameView, PixelFrame, PlotFrame, StatusFrame, StatusFrameView, TextFrame,
    TextFrameView,
};

verus! {

/// By how many cells a negative scroll offset moves a text away from the frame's edge.
pub open spec fn shift_of(offs: isize) -> nat {
    if offs < 0 {
        (-offs) as nat
    } else {
        0
    }
}

/// How many leading characters or lines a scroll offset hides.
pub open spec fn scroll_of(offs: isize) -> nat {
    if offs < 0 {
        0
    } else {
        offs as nat
    }
}

/// What is left of `len` cells behind a shift of `shift` cells.
pub open spec fn room(len: nat, shift: nat) -> nat {
    if shift < len {
        (len - shift) as nat
    } else {
        0
    }
}

/// What a status frame sends to the terminal: its row filled with the
/// background character, then, unless it is shifted out of the frame, the
/// part of its text that fits between the shift and the end of the row.
pub open spec fn status_output(frame: StatusFrameView, lenX: nat, minX: nat, minY: nat, cutX: nat)
    -> Seq<char> {
    cursor_to(minY + 1, minX + 1) + fill(frame.bgChar, lenX) + if shift_of(frame.offs) < lenX {
        cursor_to(minY + 1, minX + 1 + shift_of(frame.offs)) + shown(
            frame.text,
            scroll_of(frame.offs) + cutX,
            room(lenX, shift_of(frame.offs)),
        )
    } else {
        Seq::empty()
    }
}

/// The number of rows from row `minY` up to but not including row `maxY`.
pub open spec fn box_rows(minY: nat, maxY: nat) -> nat {
    if maxY > minY {
        (maxY - minY) as nat
    } else {
        0
    }
}

/// `count` rows from row `first` on, each filled with the background character.
pub open spec fn blank_rows(background: char, lenX: nat, column: nat, first: nat, count: nat) -> Seq<
    char,
>
    decreases count,
{
    if count == 0 {
        Seq::empty()
    } else {
        blank_rows(background, lenX, column, first, (count - 1) as nat) + cursor_to(
            (first + count - 1) as nat,
            column,
        ) + fill(background, lenX)
    }
}

/// How many of `total` lines are shown in `rows` rows when the first `first` are hidden.
pub open spec fn visible_lines(total: nat, first: nat, rows: nat) -> nat {
    if first >= total {
        0
    } else if total - first > rows {
        rows
    } else {
        (total - first) as nat
    }
}

/// `count` lines of text from line `first` on, one per row from `row` on.
pub open spec fn text_rows(
    lines: Seq<Seq<char>>,
    count: nat,
    first: nat,
    row: nat,
    column: nat,
    skip: nat,
    take: nat,
) -> Seq<char>
    decreases count,
{
    if count == 0 {
        Seq::empty()
    } else {
        text_rows(lines, (count - 1) as nat, first, row, column, skip, take) + cursor_to(
            (row + count - 1) as nat,
            column,
        ) + shown(lines[first + count - 1], skip, take)
    }
}

/// What a text frame sends to the terminal: its rows filled with the
/// background character, then, unless it is shifted out of the frame, the
/// lines that fit below the shift, of each the part that fits right of the
/// shift.
pub open spec fn text_output(
    frame: TextFrameView,
    lenX: nat,
    lenY: nat,
    minX: nat,
    minY: nat,
    maxY: nat,
    cutX: nat,
    cutY: nat,
) -> Seq<char> {
    blank_rows(frame.bgChar, lenX, minX + 1, minY + 1, box_rows(minY, maxY)) + if shift_of(
        frame.offsX,
    ) < lenX && shift_of(frame.offsY) < lenY {
        text_rows(
            frame.lines,
            visible_lines(
                frame.lines.len(),
                scroll_of(frame.offsY) + cutY,
                room(lenY, shift_of(frame.offsY)),
            ),
            scroll_of(frame.offsY) + cutY,
            minY + shift_of(frame.offsY) + 1,
            minX + shift_of(frame.offsX) + 1,
            scroll_of(frame.offsX) + cutX,
            room(lenX, shift_of(frame.offsX)),
        )
    } else {
        Seq::empty()
    }
}

/// What one token sends to the terminal: its rendition, the visible part of
/// its word, and the return to the default rendition.
pub open spec fn token_output(token: StyledTokenView, skip: nat, take: nat) -> Seq<char> {
    rendition(token.font, token.flags, token.fgColour, token.bgColour) + shown(
        token.word,
        skip,
        take,
    ) + reset()
}

/// What is left to skip of a row after its first `count` tokens.
pub open spec fn row_skip(tokens: Seq<StyledTokenView>, count: nat, skip: nat) -> nat
    decreases count,
{
    if count == 0 {
        skip
    } else {
        skip_after(row_skip(tokens, (count - 1) as nat, skip), tokens[count - 1].word.len())
    }
}

/// What is left of the width of a row after its first `count` tokens.
pub open spec fn row_take(tokens: Seq<StyledTokenView>, count: nat, skip: nat, take: nat) -> nat
    decreases count,
{
    if count == 0 {
        take
    } else {
        take_after(
            tokens[count - 1].word,
            row_skip(tokens, (count - 1) as nat, skip),
            row_take(tokens, (count - 1) as nat, skip, take),
        )
    }
}

/// What the first `count` tokens of a row send to the terminal. The row
/// scrolls as one line: every token is given what the tokens before it have
/// left to skip and have left of the width. What an escape character hides
/// of a word still uses its part of the width.
pub open spec fn tokens_output(tokens: Seq<StyledTokenView>, count: nat, skip: nat, take: nat)
    -> Seq<char>
    decreases count,
{
    if count == 0 {
        Seq::empty()
    } else {
        tokens_output(tokens, (count - 1) as nat, skip, take) + token_output(
            tokens[count - 1],
            row_skip(tokens, (count - 1) as nat, skip),
            row_take(tokens, (count - 1) as nat, skip, take),
        )
    }
}

/// `count` lines of tokens from line `first` on, one per row from `row` on.
pub open spec fn editor_rows(
    lines: Seq<Seq<StyledTokenView>>,
    count: nat,
    first: nat,
    row: nat,
    column: nat,
    skip: nat,
    take: nat,
) -> Seq<char>
    decreases count,
{
    if count == 0 {
        Seq::empty()
    } else {
        editor_rows(lines, (count - 1) as nat, first, row, column, skip, take) + cursor_to(
            (row + count - 1) as nat,
            column,
        ) + tokens_output(
            lines[first + count - 1],
            lines[first + count - 1].len(),
            skip,
            take,
        )
    }
}

/// What an editor frame sends to the terminal: its rows filled with the
/// background character, then, unless it is shifted out of the frame, the
/// lines that fit below the shift, of each the tokens with the part of the
/// row that fits right of the shift.
pub open spec fn editor_output(
    frame: EditorFrameView,
    lenX: nat,
    lenY: nat,
    minX: nat,
    minY: nat,
    maxY: nat,
    cutX: nat,
    cutY: nat,
) -> Seq<char> {
    blank_rows(frame.bgChar, lenX, minX + 1, minY + 1, box_rows(minY, maxY)) + if shift_of(
        frame.offsX,
    ) < lenX && shift_of(frame.offsY) < lenY {
        editor_rows(
            frame.lines,
            visible_lines(
                frame.lines.len(),
                scroll_of(frame.offsY) + cutY,
                room(lenY, shift_of(frame.offsY)),
            ),
            scroll_of(frame.offsY) + cutY,
            minY + shift_of(frame.offsY) + 1,
            minX + shift_of(frame.offsX) + 1,
            scroll_of(frame.offsX) + cutX,
            room(lenX, shift_of(frame.offsX)),
        )
    } else {
        Seq::empty()
    }
}

/// The text of the first `count` tokens of a row, joined.
pub open spec fn joined(tokens: Seq<StyledTokenView>, count: nat) -> Seq<char>
    decreases count,
{
    if count == 0 {
        Seq::empty()
    } else {
        joined(tokens, (count - 1) as nat) + tokens[count - 1].word
    }
}

/// The windows of the first `count` tokens of a row, joined: of every token
/// the part that lies in the window of the row.
pub open spec fn windows(tokens: Seq<StyledTokenView>, count: nat, skip: nat, take: nat) -> Seq<
    char,
>
    decreases count,
{
    if count == 0 {
        Seq::empty()
    } else {
        windows(tokens, (count - 1) as nat, skip, take) + window(
            tokens[count - 1].word,
            row_skip(tokens, (count - 1) as nat, skip),
            row_take(tokens, (count - 1) as nat, skip, take),
        )
    }
}

/// The window of two texts, one after the other, is the window of the first
/// and then, with what the first has left to skip and left of the width, the
/// window of the second.
pub proof fn lemma_window_of_two(a: Seq<char>, b: Seq<char>, skip: nat, take: nat)
    ensures
        window(a + b, skip, take) == window(a, skip, take) + window(
            b,
            skip_after(skip, a.len()),
            take_after(a, skip, take),
        ),
        skip_after(skip, (a + b).len()) == skip_after(skip_after(skip, a.len()), b.len()),
        take_after(a + b, skip, take) == take_after(
            b,
            skip_after(skip, a.len()),
            take_after(a, skip, take),
        ),
{
    assert(window(a + b, skip, take) =~= window(a, skip, take) + window(
        b,
        skip_after(skip, a.len()),
        take_after(a, skip, take),
    ));
}

/// A row of tokens scrolls as one line: what lies in the windows of its
/// tokens is the text of the tokens, joined, without the first `skip`
/// characters and no more than `take` in all.
pub proof fn lemma_row_is_one_line(tokens: Seq<StyledTokenView>, count: nat, skip: nat, take: nat)
    ensures
        windows(tokens, count, skip, take) == window(joined(tokens, count), skip, take),
        row_skip(tokens, count, skip) == skip_after(skip, joined(tokens, count).len()),
        row_take(tokens, count, skip, take) == take_after(joined(tokens, count), skip, take),
        windows(tokens, count, skip, take).len() <= take,
    decreases count,
{
    if count == 0 {
        assert(window(Seq::<char>::empty(), skip, take) =~= Seq::<char>::empty());
    } else {
        lemma_row_is_one_line(tokens, (count - 1) as nat, skip, take);
        lemma_window_of_two(joined(tokens, (count - 1) as nat), tokens[count - 1].word, skip, take);
    }
}

/// What the first `count` tokens of a row show of their words, joined.
pub open spec fn runs(tokens: Seq<StyledTokenView>, count: nat, skip: nat, take: nat) -> Seq<char>
    decreases count,
{
    if count == 0 {
        Seq::empty()
    } else {
        runs(tokens, (count - 1) as nat, skip, take) + shown(
            tokens[count - 1].word,
            row_skip(tokens, (count - 1) as nat, skip),
            row_take(tokens, (count - 1) as nat, skip, take),
        )
    }
}

/// What the tokens of a row show is no more than what lies in their
/// windows, and so no more than the width of the row.
pub proof fn lemma_row_fits(tokens: Seq<StyledTokenView>, count: nat, skip: nat, take: nat)
    ensures
        runs(tokens, count, skip, take).len() <= windows(tokens, count, skip, take).len() <= take,
    decreases count,
{
    lemma_row_is_one_line(tokens, count, skip, take);
    if count > 0 {
        lemma_row_fits(tokens, (count - 1) as nat, skip, take);
        lemma_shown_fits(
            tokens[count - 1].word,
            row_skip(tokens, (count - 1) as nat, skip),
            row_take(tokens, (count - 1) as nat, skip, take),
        );
    }
}

/// What a frame writes behind a shift ends where the frame ends: a text
/// that is shifted by `shift` cells and is given the room behind the shift
/// stays within `len` cells, and so do the lines below a shift.
pub proof fn lemma_fits_behind_shift(text: Seq<char>, skip: nat, total: nat, first: nat, len: nat, shift: nat)
    requires
        shift < len,
    ensures
        shift + shown(text, skip, room(len, shift)).len() <= len,
        shift + visible_lines(total, first, room(len, shift)) <= len,
{
    lemma_shown_fits(text, skip, room(len, shift));
}

/// The row of an editor frame that is shifted by `shift` cells stays within
/// the `len` cells of the frame.
pub proof fn lemma_row_fits_behind_shift(
    tokens: Seq<StyledTokenView>,
    skip: nat,
    len: nat,
    shift: nat,
)
    requires
        shift < len,
    ensures
        shift + runs(tokens, tokens.len(), skip, room(len, shift)).len() <= len,
{
    lemma_row_fits(tokens, tokens.len(), skip, room(len, shift));
}

/// By how many cells a scroll offset moves a text away from the frame's edge.
fn shiftOf(offs: isize) -> (shift: u128)
    ensures
        shift == shift_of(offs),
{
    if offs < 0 {
        (-(offs as i128)) as u128
    } else {
        0
    }
}

/// How many leading characters or lines a scroll offset hides.
fn scrollOf(offs: isize) -> (scroll: u128)
    ensures
        scroll == scroll_of(offs),
{
    if offs < 0 {
        0
    } else {
        offs as u128
    }
}

/// What is left of `len` cells behind a shift.
fn roomOf(len: usize, shift: u128) -> (left: usize)
    ensures
        left == room(len as nat, shift as nat),
{
    if shift < len as u128 {
        len - shift as usize
    } else {
        0
    }
}

/// How many lines are shown, and the first of them.
fn visibleLines(total: usize, first: u128, rows: usize) -> (r: (usize, usize))
    ensures
        r.1 == visible_lines(total as nat, first as nat, rows as nat),
        r.1 > 0 ==> r.0 == first,
        r.0 + r.1 <= total,
{
    if first >= total as u128 {
        (0, 0)
    } else {
        let start: usize = first as usize;
        if total - start > rows {
            (start, rows)
        } else {
            (start, total - start)
        }
    }
}

/// Appends the rows of a frame, each filled with the background character.
fn pushBlankRows(out: &mut Vec<char>, background: char, lenX: usize, minX: usize, minY: usize, maxY: usize)
    ensures
        final(out)@ == old(out)@ + blank_rows(
            background,
            lenX as nat,
            (minX + 1) as nat,
            (minY + 1) as nat,
            box_rows(minY as nat, maxY as nat),
        ),
{
    let column: u128 = minX as u128 + 1;
    let first: u128 = minY as u128 + 1;
    let count: usize = if maxY > minY {
        maxY - minY
    } else {
        0
    };
    let mut k: usize = 0;
    while k < count
        invariant
            k <= count,
            column == minX + 1,
            first == minY + 1,
            out@ == old(out)@ + blank_rows(
                background,
                lenX as nat,
                column as nat,
                first as nat,
                k as nat,
            ),
        decreases count - k,
    {
        pushCursor(out, first + k as u128, column);
        pushFill(out, background, lenX);
        k = k + 1;
        proof {
            assert(out@ =~= old(out)@ + blank_rows(
                background,
                lenX as nat,
                column as nat,
                first as nat,
                k as nat,
            ));
        }
    }
}

impl TTYDisplay {
    /// Renders a status frame into the clipped box that composition worked out.
    pub fn drawStatusFrame(
        &mut self,
        this: &StatusFrame,
        lenX: usize,
        lenY: usize,
        minX: usize,
        minY: usize,
        maxX: usize,
        maxY: usize,
        cutX: usize,
        cutY: usize,
    )
        ensures
            final(self).output@ == old(self).output@ + status_output(
                this@,
                lenX as nat,
                minX as nat,
                minY as nat,
                cutX as nat,
            ),
            final(self).listening == old(self).listening,
            final(self).pending == old(self).pending,
    {
        pushCursor(&mut self.output, minY as u128 + 1, minX as u128 + 1);
        pushFill(&mut self.output, this.bgChar, lenX);
        let shift: u128 = shiftOf(this.offs);
        if shift < lenX as u128 {
            pushCursor(&mut self.output, minY as u128 + 1, minX as u128 + 1 + shift);
            pushShown(
                &mut self.output,
                this.text.as_str(),
                scrollOf(this.offs) + cutX as u128,
                roomOf(lenX, shift),
            );
        }
        proof {
            assert(self.output@ =~= old(self).output@ + status_output(
                this@,
                lenX as nat,
                minX as nat,
                minY as nat,
                cutX as nat,
            ));
        }
    }

    /// Renders a text frame into the clipped box that composition worked out.
    pub fn drawTextFrame(
        &mut self,
        this: &TextFrame,
        lenX: usize,
        lenY: usize,
        minX: usize,
        minY: usize,
        maxX: usize,
        maxY: usize,
        cutX: usize,
        cutY: usize,
    )
        ensures
            final(self).output@ == old(self).output@ + text_output(
                this@,
                lenX as nat,
                lenY as nat,
                minX as nat,
                minY as nat,
                maxY as nat,
                cutX as nat,
                cutY as nat,
            ),
            final(self).listening == old(self).listening,
            final(self).pending == old(self).pending,
    {
        pushBlankRows(&mut self.output, this.bgChar, lenX, minX, minY, maxY);
        let ghost blank = self.output@;
        let shiftX: u128 = shiftOf(this.offsX);
        let shiftY: u128 = shiftOf(this.offsY);
        if shiftX < lenX as u128 && shiftY < lenY as u128 {
            let skip: u128 = scrollOf(this.offsX) + cutX as u128;
            let take: usize = roomOf(lenX, shiftX);
            let hidden: u128 = scrollOf(this.offsY) + cutY as u128;
            let column: u128 = minX as u128 + shiftX + 1;
            let row: u128 = minY as u128 + shiftY + 1;
            let (first, count) = visibleLines(this.lines.len(), hidden, roomOf(lenY, shiftY));
            let mut k: usize = 0;
            while k < count
                invariant
                    k <= count,
                    first + count <= this.lines.len(),
                    row < 0x1_0000_0000_0000_0000_0000,
                    self.listening == old(self).listening,
                    self.pending == old(self).pending,
                    self.output@ == blank + text_rows(
                        this@.lines,
                        k as nat,
                        first as nat,
                        row as nat,
                        column as nat,
                        skip as nat,
                        take as nat,
                    ),
                decreases count - k,
            {
                pushCursor(&mut self.output, row + k as u128, column);
                pushShown(&mut self.output, this.lines[first + k].as_str(), skip, take);
                k = k + 1;
                proof {
                    assert(this@.lines[first + k - 1] == this.lines@[first + k - 1]@);
                    assert(self.output@ =~= blank + text_rows(
                        this@.lines,
                        k as nat,
                        first as nat,
                        row as nat,
                        column as nat,
                        skip as nat,
                        take as nat,
                    ));
                }
            }
            proof {
                if count == 0 {
                    assert(text_rows(
                        this@.lines,
                        0,
                        hidden as nat,
                        row as nat,
                        column as nat,
                        skip as nat,
                        take as nat,
                    ) =~= Seq::<char>::empty());
                }
            }
        }
        proof {
            assert(self.output@ =~= old(self).output@ + text_output(
                this@,
                lenX as nat,
                lenY as nat,
                minX as nat,
                minY as nat,
                maxY as nat,
                cutX as nat,
                cutY as nat,
            ));
        }
    }

    /// Renders an editor frame into the clipped box that composition worked out.
    pub fn drawEditorFrame(
        &mut self,
        this: &EditorFrame,
        lenX: usize,
        lenY: usize,
        minX: usize,
        minY: usize,
        maxX: usize,
        maxY: usize,
        cutX: usize,
        cutY: usize,
    )
        ensures
            final(self).output@ == old(self).output@ + editor_output(
                this@,
                lenX as nat,
                lenY as nat,
                minX as nat,
                minY as nat,
                maxY as nat,
                cutX as nat,
                cutY as nat,
            ),
            final(self).listening == old(self).listening,
            final(self).pending == old(self).pending,
    {
        pushBlankRows(&mut self.output, this.bgChar, lenX, minX, minY, maxY);
        let ghost blank = self.output@;
        let shiftX: u128 = shiftOf(this.offsX);
        let shiftY: u128 = shiftOf(this.offsY);
        if shiftX < lenX as u128 && shiftY < lenY as u128 {
            let skip: u128 = scrollOf(this.offsX) + cutX as u128;
            let take: usize = roomOf(lenX, shiftX);
            let hidden: u128 = scrollOf(this.offsY) + cutY as u128;
            let column: u128 = minX as u128 + shiftX + 1;
            let row: u128 = minY as u128 + shiftY + 1;
            let (first, count) = visibleLines(this.lines.len(), hidden, roomOf(lenY, shiftY));
            let mut k: usize = 0;
            while k < count
                invariant
                    k <= count,
                    first + count <= this.lines.len(),
                    row < 0x1_0000_0000_0000_0000_0000,
                    self.listening == old(self).listening,
                    self.pending == old(self).pending,
                    self.output@ == blank + editor_rows(
                        this@.lines,
                        k as nat,
                        first as nat,
                        row as nat,
                        column as nat,
                        skip as nat,
                        take as nat,
                    ),
                decreases count - k,
            {
                pushCursor(&mut self.output, row + k as u128, column);
                let ghost before = self.output@;
                let line: &Vec<StyledToken> = &this.lines[first + k];
                let ghost tokens = this@.lines[first + k];
                assert(tokens =~= line@.map_values(|token: StyledToken| token@));
                let mut skipLeft: u128 = skip;
                let mut takeLeft: usize = take;
                let mut t: usize = 0;
                while t < line.len()
                    invariant
                        t <= line.len(),
                        tokens == line@.map_values(|token: StyledToken| token@),
                        self.listening == old(self).listening,
                        self.pending == old(self).pending,
                        skipLeft == row_skip(tokens, t as nat, skip as nat),
                        takeLeft == row_take(tokens, t as nat, skip as nat, take as nat),
                        self.output@ == before + tokens_output(
                            tokens,
                            t as nat,
                            skip as nat,
                            take as nat,
                        ),
                    decreases line.len() - t,
                {
                    let token: &StyledToken = &line[t];
                    pushRendition(
                        &mut self.output,
                        token.font,
                        token.flags,
                        token.fgColour,
                        token.bgColour,
                    );
                    let left = pushShown(&mut self.output, token.word.as_str(), skipLeft, takeLeft);
                    pushReset(&mut self.output);
                    skipLeft = left.0;
                    takeLeft = left.1;
                    t = t + 1;
                    proof {
                        assert(tokens[t - 1] == line@[t - 1]@);
                        assert(self.output@ =~= before + tokens_output(
                            tokens,
                            t as nat,
                            skip as nat,
                            take as nat,
                        ));
                    }
                }
                k = k + 1;
                proof {
                    assert(self.output@ =~= blank + editor_rows(
                        this@.lines,
                        k as nat,
                        first as nat,
                        row as nat,
                        column as nat,
                        skip as nat,
                        take as nat,
                    ));
                }
            }
            proof {
                if count == 0 {
                    assert(editor_rows(
                        this@.lines,
                        0,
                        hidden as nat,
                        row as nat,
                        column as nat,
                        skip as nat,
                        take as nat,
                    ) =~= Seq::<char>::empty());
                }
            }
        }
        proof {
            assert(self.output@ =~= old(self).output@ + editor_output(
                this@,
                lenX as nat,
                lenY as nat,
                minX as nat,
                minY as nat,
                maxY as nat,
                cutX as nat,
                cutY as nat,
            ));
        }
    }

    /// Renders a pixel frame: nothing, for now.
    pub fn drawPixelFrame(
        &mut self,
        this: &PixelFrame,
        lenX: usize,
        lenY: usize,
        minX: usize,
        minY: usize,
        maxX: usize,
        maxY: usize,
        cutX: usize,
        cutY: usize,
    )
        ensures
            *final(self) == *old(self),
    {
    }

    /// Renders a plot: nothing, for now.
    pub fn drawPlotFrame(
        &mut self,
        this: &PlotFrame,
        lenX: usize,
        lenY: usize,
        minX: usize,
        minY: usize,
        maxX: usize,
        maxY: usize,
        cutX: usize,
        cutY: usize,
    )
        ensures
            *final(self) == *old(self),
    {
    }
}

} // verus!
