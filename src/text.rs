//! The executable operations on `String`.
use vstd::prelude::*;
use vstd::string::*;
use crate::spec::{bordered, line_of, outlined, overlined, repeated, underlined};

verus! {

/// Relies on `String::push`: appends the one character at the end.
#[verifier::external_body]
fn push_char(s: &mut String, c: char)
    ensures
        final(s)@ == old(s)@.push(c),
{
    s.push(c)
}

/// Appends `count` copies of `c` to `s`.
fn push_line(s: &mut String, c: char, count: usize)
    ensures
        final(s)@ == old(s)@ + line_of(c, count as nat),
{
    let ghost start = s@;
    let mut i: usize = 0;
    while i < count
        invariant
            i <= count,
            s@ == start + line_of(c, i as nat),
        decreases count - i,
    {
        push_char(s, c);
        i = i + 1;
        assert(s@ =~= start + line_of(c, i as nat));
    }
}


/// Repeats a text a number of times with a separator between the copies.
pub trait MultiPrint: View<V = Seq<char>> {
    /// `n` copies of the text, each neighbouring pair joined by one `sep`;
    /// no copies give the empty string.
    fn times(&self, n: usize, sep: char) -> (r: String)
        ensures
            r@ == repeated(self@, n as nat, sep),
    ;
}

/// Decorates a text with lines of a repeated character.
pub trait Decorate: View<V = Seq<char>> {
    /// The text with a line of `underline_character` on the next line.
    fn underline(&self, underline_character: char) -> (r: String)
        ensures
            r@ == underlined(self@, underline_character),
    ;

    /// The text with a line of `overline_character` on the previous line.
    fn overline(&self, overline_character: char) -> (r: String)
        ensures
            r@ == overlined(self@, overline_character),
    ;

    /// The text between a line of `overline_character` above and a line of
    /// `underline_character` below.
    fn outline(&self, overline_character: char, underline_character: char) -> (r: String)
        ensures
            r@ == outlined(self@, overline_character, underline_character),
    ;

    /// The text in a box: rules of `horizontal_character` above and below,
    /// `vertical_character` and a space on each side of the text.
    fn border(&self, horizontal_character: char, vertical_character: char) -> (r: String)
        ensures
            r@ == bordered(self@, horizontal_character, vertical_character),
    ;
}

impl MultiPrint for String {
    fn times(&self, n: usize, sep: char) -> (r: String) {
        let mut out = String::new();
        let mut i: usize = 0;
        while i < n
            invariant
                i <= n,
                out@ == repeated(self@, i as nat, sep),
            decreases n - i,
        {
            if i > 0 {
                push_char(&mut out, sep);
            }
            out.append(self.as_str());
            i = i + 1;
            assert(out@ =~= repeated(self@, i as nat, sep));
        }
        out
    }
}

impl Decorate for String {
    fn underline(&self, underline_character: char) -> (r: String) {
        let len = self.as_str().unicode_len();
        let mut out = self.clone();
        push_char(&mut out, '\n');
        push_line(&mut out, underline_character, len);
        out
    }

    fn overline(&self, overline_character: char) -> (r: String) {
        let len = self.as_str().unicode_len();
        let mut out = String::new();
        push_line(&mut out, overline_character, len);
        push_char(&mut out, '\n');
        out.append(self.as_str());
        assert(out@ =~= overlined(self@, overline_character));
        out
    }

    fn outline(&self, overline_character: char, underline_character: char) -> (r: String) {
        let len = self.as_str().unicode_len();
        let mut out = String::new();
        push_line(&mut out, overline_character, len);
        push_char(&mut out, '\n');
        out.append(self.as_str());
        push_char(&mut out, '\n');
        push_line(&mut out, underline_character, len);
        assert(out@ =~= outlined(self@, overline_character, underline_character));
        out
    }

    fn border(&self, horizontal_character: char, vertical_character: char) -> (r: String) {
        let len = self.as_str().unicode_len();
        let mut rule = String::new();
        push_line(&mut rule, horizontal_character, len);
        push_line(&mut rule, horizontal_character, 4);
        assert(rule@ =~= line_of(horizontal_character, self@.len() + 4));
        let mut out = rule.clone();
        push_char(&mut out, '\n');
        push_char(&mut out, vertical_character);
        push_char(&mut out, ' ');
        out.append(self.as_str());
        push_char(&mut out, ' ');
        push_char(&mut out, vertical_character);
        push_char(&mut out, '\n');
        out.append(rule.as_str());
        assert(out@ =~= bordered(self@, horizontal_character, vertical_character));
        out
    }
}

} // verus!
