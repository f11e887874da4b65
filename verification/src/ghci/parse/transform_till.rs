//! Parsers that can be handed to combinators: each reads characters at a position and gives
//! where it stopped and the text it produced.
use vstd::prelude::*;

use super::haskell_grammar::{module_name_at, scan_module_name};
use super::lines::{line_ending_or_eof_at, scan_line_ending_or_eof};
use super::scan::{starts_with_at, str_at};
use crate::text::{chars_of, push_str, string_of_range};

verus! {

/// A parser over characters.
pub trait TextParser {
    /// The parse at `i`: where it stops and what it produces.
    spec fn spec_parse(&self, s: Seq<char>, i: int) -> Option<(int, Seq<char>)>;

    /// Parse at `i`; see [`TextParser::spec_parse`].
    fn parse(&self, s: &Vec<char>, i: usize) -> (r: Option<(usize, String)>)
        requires
            i <= s.len(),
        ensures
            match r {
                Some((e, o)) => self.spec_parse(s@, i as int) == Some((e as int, o@)) && i <= e
                    <= s.len(),
                None => self.spec_parse(s@, i as int) is None,
            },
    ;
}

/// A Haskell module name; it produces the name.
pub struct ModuleNameParser;

impl TextParser for ModuleNameParser {
    open spec fn spec_parse(&self, s: Seq<char>, i: int) -> Option<(int, Seq<char>)> {
        match module_name_at(s, i) {
            Some(e) => Some((e, s.subrange(i, e))),
            None => None,
        }
    }

    fn parse(&self, s: &Vec<char>, i: usize) -> (r: Option<(usize, String)>) {
        match scan_module_name(s, i) {
            Some(e) => Some((e, string_of_range(s, i, e))),
            None => None,
        }
    }
}

/// One given character; it produces that character.
pub struct CharParser(pub char);

impl TextParser for CharParser {
    open spec fn spec_parse(&self, s: Seq<char>, i: int) -> Option<(int, Seq<char>)> {
        if 0 <= i < s.len() && s[i] == self.0 {
            Some((i + 1, seq![self.0]))
        } else {
            None
        }
    }

    fn parse(&self, s: &Vec<char>, i: usize) -> (r: Option<(usize, String)>) {
        if i < s.len() && s[i] == self.0 {
            let out = string_of_range(s, i, i + 1);
            assert(s@.subrange(i as int, i + 1) =~= seq![self.0]);
            Some((i + 1, out))
        } else {
            None
        }
    }
}

/// A literal text; it produces that text.
pub struct LiteralParser(pub &'static str);

impl TextParser for LiteralParser {
    open spec fn spec_parse(&self, s: Seq<char>, i: int) -> Option<(int, Seq<char>)> {
        if starts_with_at(s, i, self.0@) {
            Some((i + self.0@.len(), self.0@))
        } else {
            None
        }
    }

    fn parse(&self, s: &Vec<char>, i: usize) -> (r: Option<(usize, String)>) {
        if str_at(s, i, self.0) {
            Some((i + chars_of(self.0).len(), self.0.to_owned()))
        } else {
            None
        }
    }
}

/// The rest of the input; it produces that text.
pub struct RestParser;

impl TextParser for RestParser {
    open spec fn spec_parse(&self, s: Seq<char>, i: int) -> Option<(int, Seq<char>)> {
        if 0 <= i <= s.len() {
            Some((s.len() as int, s.subrange(i, s.len() as int)))
        } else {
            None
        }
    }

    fn parse(&self, s: &Vec<char>, i: usize) -> (r: Option<(usize, String)>) {
        Some((s.len(), string_of_range(s, i, s.len())))
    }
}

/// A line ending or the end of the input; it produces what it consumed.
pub struct LineEndingOrEofParser;

impl TextParser for LineEndingOrEofParser {
    open spec fn spec_parse(&self, s: Seq<char>, i: int) -> Option<(int, Seq<char>)> {
        match line_ending_or_eof_at(s, i) {
            Some(e) => Some((e, s.subrange(i, e))),
            None => None,
        }
    }

    fn parse(&self, s: &Vec<char>, i: usize) -> (r: Option<(usize, String)>) {
        match scan_line_ending_or_eof(s, i) {
            Some(e) => Some((e, string_of_range(s, i, e))),
            None => None,
        }
    }
}

/// One parser, then another; it produces what the second produces.
pub struct Preceded<A, B>(pub A, pub B);

impl<A: TextParser, B: TextParser> TextParser for Preceded<A, B> {
    open spec fn spec_parse(&self, s: Seq<char>, i: int) -> Option<(int, Seq<char>)> {
        match self.0.spec_parse(s, i) {
            Some((a, _)) => self.1.spec_parse(s, a),
            None => None,
        }
    }

    fn parse(&self, s: &Vec<char>, i: usize) -> (r: Option<(usize, String)>) {
        match self.0.parse(s, i) {
            Some((a, _)) => self.1.parse(s, a),
            None => None,
        }
    }
}

/// One parser, then another; it produces both outputs, one after the other.
pub struct Then<A, B>(pub A, pub B);

impl<A: TextParser, B: TextParser> TextParser for Then<A, B> {
    open spec fn spec_parse(&self, s: Seq<char>, i: int) -> Option<(int, Seq<char>)> {
        match self.0.spec_parse(s, i) {
            Some((a, x)) => match self.1.spec_parse(s, a) {
                Some((b, y)) => Some((b, x + y)),
                None => None,
            },
            None => None,
        }
    }

    fn parse(&self, s: &Vec<char>, i: usize) -> (r: Option<(usize, String)>) {
        match self.0.parse(s, i) {
            Some((a, x)) => match self.1.parse(s, a) {
                Some((b, y)) => {
                    let mut out = x;
                    push_str(&mut out, y.as_str());
                    Some((b, out))
                },
                None => None,
            },
            None => None,
        }
    }
}

} // verus!
