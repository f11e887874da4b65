//! The [`HaskellShow`] trait, which describes printing objects in a form that `ghci` can
//! understand.
use vstd::prelude::*;

use crate::text::push_char;

verus! {

/// ASCII graphic characters: `!` through `~`.
pub open spec fn is_ascii_graphic(c: char) -> bool {
    '!' <= c && c <= '~'
}

/// The lower-case hexadecimal digit for `d < 16`.
pub open spec fn hex_digit(d: nat) -> char {
    if d < 10 {
        (('0' as nat) + d) as char
    } else {
        (('a' as nat) + (d - 10)) as char
    }
}

/// Lower-case hexadecimal notation of `n`, without leading zeros (`0` is `"0"`).
pub open spec fn hex_seq(n: nat) -> Seq<char>
    decreases n,
{
    if n < 16 {
        seq![hex_digit(n)]
    } else {
        hex_seq(n / 16).push(hex_digit(n % 16))
    }
}

/// A character literal as `ghci` reads it: quotes and backslashes escaped, printable ASCII
/// and space verbatim, everything else as a `\x` hexadecimal escape.
pub open spec fn show_char(c: char) -> Seq<char> {
    if c == '\'' || c == '\\' {
        seq!['\'', '\\', c, '\'']
    } else if is_ascii_graphic(c) || c == ' ' {
        seq!['\'', c, '\'']
    } else {
        seq!['\'', '\\', 'x'] + hex_seq(c as nat) + seq!['\'']
    }
}

/// The shown characters of `s`, separated by commas.
pub open spec fn show_chars_joined(s: Seq<char>) -> Seq<char>
    decreases s.len(),
{
    if s.len() == 0 {
        Seq::empty()
    } else if s.len() == 1 {
        show_char(s[0])
    } else {
        show_chars_joined(s.drop_last()) + seq![','] + show_char(s.last())
    }
}

/// A string as a list of characters, like `['a','b']`.
pub open spec fn show_str(s: Seq<char>) -> Seq<char> {
    seq!['['] + show_chars_joined(s) + seq![']']
}

/// A mechanism for printing objects in a form that `ghci` can understand.
///
/// In particular, strings are printed in the list-of-characters format (`['a', 'b', 'c']`) to
/// avoid issues with the `RebindableSyntax` language extension.
pub trait HaskellShow {
    /// Print this object in a form suitable for evaluation in `ghci`.
    fn haskell_show(&self) -> String;
}

fn hex_char(d: u32) -> (c: char)
    requires
        d < 16,
    ensures
        c == hex_digit(d as nat),
{
    if d < 10 {
        ((48 + d) as u8) as char
    } else {
        ((97 + (d - 10)) as u8) as char
    }
}

fn push_hex(s: &mut String, n: u32)
    ensures
        final(s)@ == old(s)@ + hex_seq(n as nat),
    decreases n,
{
    if n >= 16 {
        push_hex(s, n / 16);
    }
    push_char(s, hex_char(n % 16));
    assert(final(s)@ =~= old(s)@ + hex_seq(n as nat));
}

/// Append the shown form of `c` to `s`.
fn push_shown_char(s: &mut String, c: char)
    ensures
        final(s)@ == old(s)@ + show_char(c),
{
    let ghost s0 = s@;
    push_char(s, '\'');
    if c == '\'' || c == '\\' {
        push_char(s, '\\');
        push_char(s, c);
    } else if ('!' <= c && c <= '~') || c == ' ' {
        push_char(s, c);
    } else {
        push_char(s, '\\');
        push_char(s, 'x');
        push_hex(s, c as u32);
    }
    push_char(s, '\'');
    assert(s@ =~= s0 + show_char(c));
}

impl HaskellShow for char {
    fn haskell_show(&self) -> (r: String)
        ensures
            r@ == show_char(*self),
    {
        let mut r = String::new();
        push_shown_char(&mut r, *self);
        assert(r@ =~= show_char(*self));
        r
    }
}

impl HaskellShow for str {
    fn haskell_show(&self) -> (r: String)
        ensures
            r@ == show_str(self@),
    {
        let chars = crate::text::chars_of(self);
        let mut r = String::new();
        push_char(&mut r, '[');
        let mut i: usize = 0;
        while i < chars.len()
            invariant
                0 <= i <= chars.len(),
                chars@ == self@,
                r@ == seq!['['] + show_chars_joined(chars@.take(i as int)),
            decreases chars.len() - i,
        {
            if i > 0 {
                push_char(&mut r, ',');
            }
            push_shown_char(&mut r, chars[i]);
            assert(chars@.take(i + 1).drop_last() =~= chars@.take(i as int));
            assert(r@ =~= seq!['['] + show_chars_joined(chars@.take(i + 1)));
            i += 1;
        }
        push_char(&mut r, ']');
        assert(chars@.take(chars.len() as int) =~= chars@);
        assert(r@ =~= show_str(self@));
        r
    }
}

} // verus!
