//! The text that a character terminal is sent: numbers, cursor movements,
//! fillers, and the visible part of a line.
use vstd::prelude::*;
use vstd::std_specs::iter::IteratorSpec;

verus! {

/// The character of one decimal digit.
pub open spec fn digit(d: nat) -> char
    recommends
        d < 10,
{
    ((0x30 + d) as u8) as char
}

/// The decimal notation of a number.
pub open spec fn decimal(n: nat) -> Seq<char>
    decreases n,
{
    if n < 10 {
        seq![digit(n)]
    } else {
        decimal(n / 10).push(digit(n % 10))
    }
}

/// Appends the decimal notation of `n`.
pub fn pushDecimal(out: &mut Vec<char>, n: u128)
    ensures
        final(out)@ == old(out)@ + decimal(n as nat),
    decreases n,
{
    if n >= 10 {
        pushDecimal(out, n / 10);
    }
    let d: u8 = (n % 10) as u8;
    out.push((0x30 + d) as char);
    proof {
        assert(final(out)@ =~= old(out)@ + decimal(n as nat));
    }
}

/// The sequence that moves the cursor to a row and a column, both counted from one.
pub open spec fn cursor_to(row: nat, column: nat) -> Seq<char> {
    seq!['\x1b', '['] + decimal(row) + seq![';'] + decimal(column) + seq!['H']
}

/// Appends the sequence that moves the cursor.
pub fn pushCursor(out: &mut Vec<char>, row: u128, column: u128)
    ensures
        final(out)@ == old(out)@ + cursor_to(row as nat, column as nat),
{
    out.push('\x1b');
    out.push('[');
    pushDecimal(out, row);
    out.push(';');
    pushDecimal(out, column);
    out.push('H');
    proof {
        assert(out@ =~= old(out)@ + cursor_to(row as nat, column as nat));
    }
}

/// A run of `n` copies of one character.
pub open spec fn fill(background: char, n: nat) -> Seq<char> {
    Seq::new(n, |i: int| background)
}

/// Appends `n` copies of one character.
pub fn pushFill(out: &mut Vec<char>, background: char, n: usize)
    ensures
        final(out)@ == old(out)@ + fill(background, n as nat),
{
    let mut k: usize = 0;
    while k < n
        invariant
            k <= n,
            out@ == old(out)@ + fill(background, k as nat),
        decreases n - k,
    {
        out.push(background);
        k = k + 1;
        proof {
            assert(out@ =~= old(out)@ + fill(background, k as nat));
        }
    }
}

/// The characters of `text` from position `skip` on, at most `take` of them.
pub open spec fn window(text: Seq<char>, skip: nat, take: nat) -> Seq<char> {
    let from = if skip < text.len() { skip } else { text.len() };
    let to = if skip + take < text.len() { skip + take } else { text.len() };
    text.subrange(from as int, to as int)
}

/// The characters of `text` before its first escape character.
pub open spec fn before_escape(text: Seq<char>) -> Seq<char>
    decreases text.len(),
{
    if text.len() == 0 || text[0] == '\x1b' {
        Seq::empty()
    } else {
        seq![text[0]] + before_escape(text.drop_first())
    }
}

/// The part of a line that a frame shows: the window of `take` characters at
/// `skip`, up to the first escape character in it.
pub open spec fn shown(text: Seq<char>, skip: nat, take: nat) -> Seq<char> {
    before_escape(window(text, skip, take))
}

/// A text without an escape character is shown whole; one with an escape
/// character at `k` and none before is shown up to `k`.
pub proof fn lemma_before_escape(text: Seq<char>, k: int)
    requires
        0 <= k <= text.len(),
        forall|i: int| 0 <= i < k ==> text[i] != '\x1b',
        k < text.len() ==> text[k] == '\x1b',
    ensures
        before_escape(text) == text.take(k),
    decreases text.len(),
{
    if text.len() == 0 || text[0] == '\x1b' {
        assert(k == 0);
        assert(text.take(0) =~= Seq::<char>::empty());
    } else {
        let rest = text.drop_first();
        assert forall|i: int| 0 <= i < k - 1 implies rest[i] != '\x1b' by {
            assert(rest[i] == text[i + 1]);
        }
        lemma_before_escape(rest, k - 1);
        assert(text.take(k) =~= seq![text[0]] + rest.take(k - 1));
    }
}

/// What is left to skip after a text of `len` characters has gone by.
pub open spec fn skip_after(skip: nat, len: nat) -> nat {
    if skip > len {
        (skip - len) as nat
    } else {
        0
    }
}

/// What is left of the width `take` after the window of a text has used its part.
pub open spec fn take_after(text: Seq<char>, skip: nat, take: nat) -> nat {
    (take - window(text, skip, take).len()) as nat
}

/// What is shown of a text never takes more than the width that it is given.
pub proof fn lemma_shown_fits(text: Seq<char>, skip: nat, take: nat)
    ensures
        shown(text, skip, take).len() <= window(text, skip, take).len() <= take,
{
    lemma_before_escape_fits(window(text, skip, take));
}

/// The characters before the first escape character are no more than all.
pub proof fn lemma_before_escape_fits(text: Seq<char>)
    ensures
        before_escape(text).len() <= text.len(),
    decreases text.len(),
{
    if text.len() > 0 && text[0] != '\x1b' {
        lemma_before_escape_fits(text.drop_first());
    }
}

/// Appends the part of `text` that a frame shows, and tells what is left to
/// skip and what is left of the width for the text that follows in the row.
pub fn pushShown(out: &mut Vec<char>, text: &str, skip: u128, take: usize) -> (left: (u128, usize))
    ensures
        final(out)@ == old(out)@ + shown(text@, skip as nat, take as nat),
        left.0 == skip_after(skip as nat, text@.len()),
        left.1 == take_after(text@, skip as nat, take as nat),
{
    broadcast use vstd::string::group_string_axioms;

    let mut skipped: u128 = 0;
    let mut counted: usize = 0;
    let mut stopped: bool = false;
    let ghost base = out@;
    let ghost mut run: int = 0;
    let ghost mut open = true;
    let mut chars = text.chars();
    loop
        invariant_except_break
            open,
        invariant
            skipped <= skip,
            counted <= take,
            counted > 0 ==> skipped == skip,
            skipped + counted <= text@.len(),
            open ==> chars.remaining() == text@.skip(skipped + counted),
            !open ==> skipped + counted == text@.len() || (skipped == skip && counted == take),
            0 <= run <= counted,
            stopped ==> run < counted && text@[skipped + run] == '\x1b',
            !stopped ==> run == counted,
            out@ == base + text@.subrange(skipped as int, skipped + run),
            forall|j: int| skipped <= j < skipped + run ==> text@[j] != '\x1b',
        ensures
            !open,
        decreases text@.len() - skipped - counted,
    {
        if skipped == skip && counted == take {
            proof {
                open = false;
            }
            break ;
        }
        match chars.next() {
            Some(c) => {
                assert(c == text@[skipped + counted]);
                if skipped < skip {
                    skipped = skipped + 1;
                } else {
                    if !stopped && c != '\x1b' {
                        out.push(c);
                        proof {
                            run = run + 1;
                            assert(out@ =~= base + text@.subrange(skipped as int, skipped + run));
                        }
                    } else {
                        stopped = true;
                    }
                    counted = counted + 1;
                }
                assert(chars.remaining() =~= text@.skip(skipped + counted));
            },
            None => {
                proof {
                    open = false;
                }
                break ;
            },
        }
    }
    proof {
        let w = window(text@, skip as nat, take as nat);
        assert(w.len() == counted);
        assert(text@.subrange(skipped as int, skipped + run) =~= w.take(run));
        assert forall|i: int| 0 <= i < run implies w[i] != '\x1b' by {
            assert(w[i] == text@[skipped + i]);
        }
        if run < w.len() {
            assert(w[run] == text@[skipped + run]);
        }
        lemma_before_escape(w, run);
    }
    (skip - skipped, take - counted)
}

/// Appends a text, character by character.
pub fn pushText(out: &mut Vec<char>, text: &str)
    ensures
        final(out)@ == old(out)@ + text@,
{
    broadcast use vstd::string::group_string_axioms;

    let ghost mut done: int = 0;
    let mut chars = text.chars();
    loop
        invariant
            0 <= done <= text@.len(),
            chars.remaining() == text@.skip(done),
            out@ == old(out)@ + text@.take(done),
        ensures
            out@ == old(out)@ + text@,
        decreases text@.len() - done,
    {
        match chars.next() {
            Some(c) => {
                out.push(c);
                proof {
                    assert(c == text@[done]);
                    done = done + 1;
                    assert(out@ =~= old(out)@ + text@.take(done));
                    assert(chars.remaining() =~= text@.skip(done));
                }
            },
            None => {
                proof {
                    assert(text@.take(done) =~= text@);
                }
                break ;
            },
        }
    }
}

} // verus!
