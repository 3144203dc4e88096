//! The mathematical meaning of each operation, over sequences of characters.
use vstd::prelude::*;

verus! {

/// `count` copies of `c`.
pub open spec fn line_of(c: char, count: nat) -> Seq<char> {
    Seq::new(count, |i: int| c)
}

/// `n` copies of `t`, each neighbouring pair joined by one `sep`.
pub open spec fn repeated(t: Seq<char>, n: nat, sep: char) -> Seq<char>
    decreases n,
{
    if n == 0 {
        Seq::empty()
    } else if n == 1 {
        t
    } else {
        repeated(t, (n - 1) as nat, sep).push(sep) + t
    }
}

/// The text, a line break, then a line of `c` as long as the text.
pub open spec fn underlined(t: Seq<char>, c: char) -> Seq<char> {
    t.push('\n') + line_of(c, t.len())
}

/// A line of `c` as long as the text, a line break, then the text.
pub open spec fn overlined(t: Seq<char>, c: char) -> Seq<char> {
    line_of(c, t.len()).push('\n') + t
}

/// A line of `top` over the text and a line of `bottom` under it.
pub open spec fn outlined(t: Seq<char>, top: char, bottom: char) -> Seq<char> {
    line_of(top, t.len()).push('\n') + t.push('\n') + line_of(bottom, t.len())
}

/// A box: a rule of `h` four characters longer than the text, the text padded
/// with a space and a `v` on each side, and the same rule again.
pub open spec fn bordered(t: Seq<char>, h: char, v: char) -> Seq<char> {
    line_of(h, t.len() + 4) + seq!['\n', v, ' '] + t + seq![' ', v, '\n'] + line_of(h, t.len() + 4)
}

} // verus!
