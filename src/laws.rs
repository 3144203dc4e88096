//! Properties of the operations, proved over their meaning in `spec`.
use vstd::prelude::*;
use crate::spec::{line_of, outlined, overlined, repeated, underlined};

verus! {

/// No copies give the empty text, whatever the text and the separator.
pub proof fn lemma_times_zero(t: Seq<char>, sep: char)
    ensures
        repeated(t, 0, sep) == Seq::<char>::empty(),
{
}

/// One copy gives the text itself, with no separator.
pub proof fn lemma_times_one(t: Seq<char>, sep: char)
    ensures
        repeated(t, 1, sep) == t,
{
}

/// For at least one copy, the result is the `n` copies of the text with
/// exactly one separator between each neighbouring pair and nothing else:
/// the `k`-th copy starts at `k * (|t| + 1)` and is followed by a separator
/// unless it is the last.
pub proof fn lemma_times_layout(t: Seq<char>, n: nat, sep: char)
    requires
        n >= 1,
    ensures
        repeated(t, n, sep).len() == n * (t.len() + 1) - 1,
        forall|k: int| 0 <= k < n ==>
            #[trigger] repeated(t, n, sep).subrange(k * (t.len() + 1), k * (t.len() + 1) + t.len()) == t,
        forall|k: int| 0 <= k < n - 1 ==>
            #[trigger] repeated(t, n, sep)[k * (t.len() + 1) + t.len()] == sep,
    decreases n,
{
    let w = t.len() + 1;
    if n == 1 {
        assert(t.subrange(0, t.len() as int) =~= t);
    } else {
        let m = (n - 1) as nat;
        lemma_times_layout(t, m, sep);
        let p = repeated(t, m, sep);
        let r = repeated(t, n, sep);
        assert(r == p.push(sep) + t);
        assert(m * w + w == n * w) by (nonlinear_arith)
            requires m == n - 1;
        assert forall|k: int| 0 <= k < n implies
            #[trigger] r.subrange(k * w, k * w + t.len()) == t by {
            if k < m {
                assert(k * w + t.len() <= p.len()) by (nonlinear_arith)
                    requires k < m, p.len() == m * w - 1, w == t.len() + 1, k >= 0;
                assert(r.subrange(k * w, k * w + t.len()) =~= p.subrange(k * w, k * w + t.len()));
            } else {
                assert(k * w == m * w) by (nonlinear_arith)
                    requires k == m;
                assert(r.subrange(k * w, k * w + t.len()) =~= t);
            }
        }
        assert forall|k: int| 0 <= k < n - 1 implies
            #[trigger] r[k * w + t.len()] == sep by {
            if k < m - 1 {
                assert(k * w + t.len() < p.len()) by (nonlinear_arith)
                    requires k < m - 1, p.len() == m * w - 1, w == t.len() + 1, k >= 0;
            } else {
                assert(k * w + t.len() == p.len()) by (nonlinear_arith)
                    requires k == m - 1, p.len() == m * w - 1, w == t.len() + 1;
            }
        }
    }
}

/// The underlined text is twice as long as the text plus one line break, and
/// its second line is the character repeated as often as the text is long.
pub proof fn lemma_underline_shape(t: Seq<char>, c: char)
    ensures
        underlined(t, c).len() == 2 * t.len() + 1,
        underlined(t, c).subrange(0, t.len() as int) == t,
        underlined(t, c)[t.len() as int] == '\n',
        underlined(t, c).subrange(t.len() + 1 as int, 2 * t.len() + 1 as int) == line_of(c, t.len()),
{
    let u = underlined(t, c);
    assert(u.subrange(0, t.len() as int) =~= t);
    assert(u.subrange(t.len() + 1 as int, 2 * t.len() + 1 as int) =~= line_of(c, t.len()));
}

/// Overlining mirrors underlining: the same two lines in the other order.
pub proof fn lemma_overline_mirrors_underline(t: Seq<char>, c: char)
    ensures
        overlined(t, c) == underlined(t, c).subrange(t.len() + 1 as int, 2 * t.len() + 1 as int).push('\n')
            + underlined(t, c).subrange(0, t.len() as int),
{
    lemma_underline_shape(t, c);
    assert(overlined(t, c) =~= underlined(t, c).subrange(t.len() + 1 as int, 2 * t.len() + 1 as int).push('\n')
        + underlined(t, c).subrange(0, t.len() as int));
}

/// Outlining is overlining with `top`, a line break, and the line that
/// underlining with `bottom` puts under the text.
pub proof fn lemma_outline_is_overline_then_underline(t: Seq<char>, top: char, bottom: char)
    ensures
        outlined(t, top, bottom) == overlined(t, top).push('\n')
            + underlined(t, bottom).subrange(t.len() + 1 as int, 2 * t.len() + 1 as int),
{
    lemma_underline_shape(t, bottom);
    assert(outlined(t, top, bottom) =~= overlined(t, top).push('\n')
        + underlined(t, bottom).subrange(t.len() + 1 as int, 2 * t.len() + 1 as int));
}

} // verus!
