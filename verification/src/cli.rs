//! The decisions of the command line interface: what a typed line asks for,
//! and how the answer is laid out as it streams in.
use vstd::prelude::*;

use crate::text::{chars_of, eq_ignore_ascii_case, eq_ignore_ascii_case_spec, is_white, is_whitespace, push_char, trim, trim_spec};

verus! {

/// The indent of the answer's lines.
pub const CLI_INDENT: &'static str = "  ";
/// The column after which white space breaks the answer's line.
pub const CLI_MAX_WIDTH: usize = 80;

/// What a typed line asks for.
#[derive(Debug, Clone, Copy, PartialEq, Eq, Structural)]
pub enum CliInput {
    /// Leave.
    Exit,
    /// Nothing: ask again.
    Skip,
    /// Send the trimmed line.
    Send,
}

/// What a typed line asks for: `exit` in any case leaves, a blank line is
/// passed over, anything else is sent trimmed.
pub open spec fn cli_input_spec(line: Seq<char>) -> CliInput {
    let input = trim_spec(line);
    if eq_ignore_ascii_case_spec(input, seq!['e', 'x', 'i', 't']) {
        CliInput::Exit
    } else if input.len() == 0 {
        CliInput::Skip
    } else {
        CliInput::Send
    }
}

/// What a typed line asks for, and the trimmed line.
pub fn cli_input(line: &str) -> (res: (CliInput, String))
    ensures
        res.0 == cli_input_spec(line@),
        res.1@ == trim_spec(line@),
{
    let input = trim(line);
    proof {
        reveal_strlit("exit");
        assert("exit"@ =~= seq!['e', 'x', 'i', 't']);
    }
    if eq_ignore_ascii_case(input.as_str(), "exit") {
        (CliInput::Exit, input)
    } else if input.unicode_len() == 0 {
        (CliInput::Skip, input)
    } else {
        (CliInput::Send, input)
    }
}

/// One character of the answer printed at column `col`: a newline, or white
/// space at or past the last column, starts a new indented line (the white
/// space is not printed); any other character is printed.
pub open spec fn cli_step(state: (Seq<char>, int), c: char) -> (Seq<char>, int) {
    let (out, col) = state;
    if c == '\n' || (is_white(c) && col >= CLI_MAX_WIDTH) {
        (out + seq!['\n', ' ', ' '], 2)
    } else {
        (out.push(c), col + 1)
    }
}

/// A piece of the answer printed from column `col`: what is printed, and the
/// column after it.
pub open spec fn cli_wrap_spec(token: Seq<char>, col: int) -> (Seq<char>, int)
    decreases token.len(),
{
    if token.len() == 0 {
        (Seq::empty(), col)
    } else {
        cli_step(cli_wrap_spec(token.drop_last(), col), token.last())
    }
}

/// What printing a piece of the answer from column `column` shows, and the
/// column after it.
pub fn cli_wrap(token: &str, column: usize) -> (res: (String, usize))
    requires
        column + token@.len() + 2 <= usize::MAX,
    ensures
        (res.0@, res.1 as int) == cli_wrap_spec(token@, column as int),
{
    let v = chars_of(token);
    let mut out = String::new();
    let mut col = column;
    let mut i: usize = 0;
    assert(v@.take(0) =~= Seq::<char>::empty());
    while i < v.len()
        invariant
            v@ == token@,
            column + v@.len() + 2 <= usize::MAX,
            i <= v@.len(),
            (out@, col as int) == cli_wrap_spec(v@.take(i as int), column as int),
            col <= column + 2 + i,
        decreases v@.len() - i,
    {
        let c = v[i];
        assert(v@.take(i + 1).drop_last() =~= v@.take(i as int));
        assert(v@.take(i + 1).last() == c);
        if c == '\n' || (is_whitespace(c) && col >= CLI_MAX_WIDTH) {
            let ghost before = out@;
            push_char(&mut out, '\n');
            push_char(&mut out, ' ');
            push_char(&mut out, ' ');
            assert(out@ =~= before + seq!['\n', ' ', ' ']);
            col = 2;
        } else {
            push_char(&mut out, c);
            col = col + 1;
        }
        i = i + 1;
    }
    assert(v@.take(v@.len() as int) =~= v@);
    (out, col)
}

/// The characters of a text that show: all but white space.
pub open spec fn visible(s: Seq<char>) -> Seq<char>
    decreases s.len(),
{
    if s.len() == 0 {
        Seq::empty()
    } else if is_white(s.last()) {
        visible(s.drop_last())
    } else {
        visible(s.drop_last()).push(s.last())
    }
}

/// What shows of two texts one after the other.
proof fn lemma_visible_concat(a: Seq<char>, b: Seq<char>)
    ensures
        visible(a + b) == visible(a) + visible(b),
    decreases b.len(),
{
    if b.len() == 0 {
        assert(a + b =~= a);
        assert(visible(a) + Seq::<char>::empty() =~= visible(a));
    } else {
        lemma_visible_concat(a, b.drop_last());
        assert((a + b).drop_last() =~= a + b.drop_last());
        assert((a + b).last() == b.last());
        if !is_white(b.last()) {
            assert(visible(a) + visible(b.drop_last()).push(b.last()) =~= (visible(a) + visible(b.drop_last())).push(
                b.last(),
            ));
        }
    }
}

/// Printing an answer shows every character of it that is not white space,
/// in order: breaking lines only puts line breaks and indents in place of
/// white space.
pub proof fn law_printing_keeps_what_shows(token: Seq<char>, col: int)
    ensures
        visible(cli_wrap_spec(token, col).0) == visible(token),
    decreases token.len(),
{
    if token.len() > 0 {
        law_printing_keeps_what_shows(token.drop_last(), col);
        let (out, c) = cli_wrap_spec(token.drop_last(), col);
        let ch = token.last();
        let brk = seq!['\n', ' ', ' '];
        assert(visible(brk) == Seq::<char>::empty()) by {
            let b1 = seq!['\n'];
            let b2 = seq!['\n', ' '];
            assert(b1.drop_last() =~= Seq::<char>::empty());
            assert(is_white('\n'));
            assert(is_white(' '));
            assert(visible(Seq::<char>::empty()) == Seq::<char>::empty());
            assert(b1.last() == '\n');
            assert(visible(b1) == Seq::<char>::empty());
            assert(b2.drop_last() =~= b1);
            assert(b2.last() == ' ');
            assert(visible(b2) == Seq::<char>::empty());
            assert(brk.drop_last() =~= b2);
            assert(brk.last() == ' ');
        }
        lemma_visible_concat(out, brk);
        assert(visible(out) + Seq::<char>::empty() =~= visible(out));
        assert(out.push(ch).drop_last() =~= out);
        if ch == '\n' || (is_white(ch) && c >= CLI_MAX_WIDTH) {
            assert(is_white(ch));
        }
    }
}

} // verus!
