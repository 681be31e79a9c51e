//! The guaranteed properties of rendering and configuration, stated and
//! proved over the view's model.

use vstd::prelude::*;
use crate::model::{PrintableModel, joined, rendered, total_text_len};
use crate::model::{model_with_sep, model_with_left, model_with_right};
use crate::model::{lemma_joined_len, lemma_joined_split};

verus! {

/// `pat` occurs in `s` at position `p`.
pub open spec fn occurs_at(s: Seq<char>, pat: Seq<char>, p: int) -> bool {
    0 <= p && p + pat.len() <= s.len() && s.subrange(p, p + pat.len()) == pat
}

/// The position, in the rendered text, of the separator written after the
/// first k element texts.
pub open spec fn sep_position(m: PrintableModel, k: int) -> int {
    m.left_bound.len() + total_text_len(m.elems.take(k)) + (k - 1) * m.sep.len()
}

/// The rendered text is the joined element texts wrapped in the bounds:
/// it begins with the left bound and ends with the right bound,
/// unconditionally, and nothing else is written.
pub proof fn lemma_rendered_frame(m: PrintableModel)
    ensures
        rendered(m).len() == m.left_bound.len() + joined(m.elems, m.sep).len()
            + m.right_bound.len(),
        rendered(m).subrange(0, m.left_bound.len() as int) == m.left_bound,
        rendered(m).subrange(
            rendered(m).len() - m.right_bound.len(),
            rendered(m).len() as int,
        ) == m.right_bound,
{
    assert(rendered(m).subrange(0, m.left_bound.len() as int) =~= m.left_bound);
    assert(rendered(m).subrange(
        rendered(m).len() - m.right_bound.len(),
        rendered(m).len() as int,
    ) =~= m.right_bound);
}

/// With the default configuration and at least one element, the rendered
/// text starts with `[` and ends with `]`, its length accounts for the
/// element texts plus exactly n - 1 copies of `", "`, and that separator
/// occurs at each of the n - 1 positions between consecutive element
/// texts.
pub proof fn lemma_default_render(m: PrintableModel)
    requires
        m.sep == ", "@,
        m.left_bound == "["@,
        m.right_bound == "]"@,
        m.elems.len() >= 1,
    ensures
        rendered(m).len() == 2 + total_text_len(m.elems) + (m.elems.len() - 1) * 2,
        rendered(m).first() == '[',
        rendered(m).last() == ']',
        forall|k: int|
            1 <= k < m.elems.len() ==> occurs_at(rendered(m), ", "@, sep_position(m, k)),
{
    reveal_strlit("[");
    reveal_strlit("]");
    reveal_strlit(", ");
    lemma_joined_len(m.elems, m.sep);
    lemma_rendered_frame(m);
    assert(rendered(m).first() == '[');
    assert(rendered(m).last() == ']');
    assert forall|k: int|
        1 <= k < m.elems.len() implies occurs_at(rendered(m), ", "@, sep_position(m, k)) by {
        lemma_joined_split(m.elems, m.sep, k);
        lemma_joined_len(m.elems.take(k), m.sep);
        lemma_joined_len(m.elems.skip(k), m.sep);
        assert(m.elems.take(k).len() == k);
        let p = sep_position(m, k);
        assert(p == 1 + joined(m.elems.take(k), m.sep).len());
        assert(rendered(m).subrange(p, p + 2) =~= ", "@);
    }
}

/// An empty sequence renders as the two bounds and nothing else, with no
/// separator; with the default configuration that text is exactly `[]`.
pub proof fn lemma_render_empty(m: PrintableModel)
    requires
        m.elems.len() == 0,
    ensures
        rendered(m) == m.left_bound + m.right_bound,
        m.left_bound == "["@ && m.right_bound == "]"@ ==> rendered(m) == "[]"@,
{
    assert(rendered(m) =~= m.left_bound + m.right_bound);
    if m.left_bound == "["@ && m.right_bound == "]"@ {
        reveal_strlit("[");
        reveal_strlit("]");
        reveal_strlit("[]");
        assert(rendered(m) =~= "[]"@);
    }
}

/// A single-element sequence renders as the element's text wrapped in the
/// bounds, with no separator.
pub proof fn lemma_render_single(m: PrintableModel)
    requires
        m.elems.len() == 1,
    ensures
        rendered(m) == m.left_bound + m.elems[0] + m.right_bound,
{
    assert(rendered(m) =~= m.left_bound + m.elems[0] + m.right_bound);
}

/// Order preservation: a sequence of element texts `a`, `b`, `c` renders
/// exactly as `a`, `b`, `c` in that order, with one separator between each
/// adjacent pair, never reordered.
pub proof fn lemma_render_three(m: PrintableModel, a: Seq<char>, b: Seq<char>, c: Seq<char>)
    requires
        m.elems == seq![a, b, c],
    ensures
        rendered(m) == m.left_bound + a + m.sep + b + m.sep + c + m.right_bound,
{
    assert(m.elems.drop_first() =~= seq![b, c]);
    assert(seq![b, c].drop_first() =~= seq![c]);
    assert(joined(seq![c], m.sep) == c);
    assert(m.elems[0] == a && seq![b, c][0] == b);
    assert(joined(seq![b, c], m.sep) =~= b + m.sep + c);
    assert(joined(m.elems, m.sep) =~= a + m.sep + b + m.sep + c);
    assert(rendered(m) =~= m.left_bound + a + m.sep + b + m.sep + c + m.right_bound);
}

/// Configuration is independent: replacing distinct fields commutes, and
/// setting all three in any order yields the model with all three
/// replaced and the element texts untouched.
pub proof fn lemma_config_commutes(m: PrintableModel, s: Seq<char>, l: Seq<char>, r: Seq<char>)
    ensures
        model_with_left(model_with_sep(m, s), l) == model_with_sep(model_with_left(m, l), s),
        model_with_right(model_with_sep(m, s), r) == model_with_sep(model_with_right(m, r), s),
        model_with_right(model_with_left(m, l), r) == model_with_left(model_with_right(m, r), l),
        model_with_right(model_with_left(model_with_sep(m, s), l), r) == (PrintableModel {
            elems: m.elems,
            sep: s,
            left_bound: l,
            right_bound: r,
        }),
{
    assert(model_with_left(model_with_sep(m, s), l) =~= model_with_sep(
        model_with_left(m, l),
        s,
    ));
    assert(model_with_right(model_with_sep(m, s), r) =~= model_with_sep(
        model_with_right(m, r),
        s,
    ));
    assert(model_with_right(model_with_left(m, l), r) =~= model_with_left(
        model_with_right(m, r),
        l,
    ));
    assert(model_with_right(model_with_left(model_with_sep(m, s), l), r) =~= (PrintableModel {
        elems: m.elems,
        sep: s,
        left_bound: l,
        right_bound: r,
    }));
}

/// The final configuration is the last value set per field: setting the
/// same field twice keeps only the second value.
pub proof fn lemma_config_last_write_wins(
    m: PrintableModel,
    s1: Seq<char>,
    s2: Seq<char>,
    l1: Seq<char>,
    l2: Seq<char>,
    r1: Seq<char>,
    r2: Seq<char>,
)
    ensures
        model_with_sep(model_with_sep(m, s1), s2) == model_with_sep(m, s2),
        model_with_left(model_with_left(m, l1), l2) == model_with_left(m, l2),
        model_with_right(model_with_right(m, r1), r2) == model_with_right(m, r2),
{
    assert(model_with_sep(model_with_sep(m, s1), s2) =~= model_with_sep(m, s2));
    assert(model_with_left(model_with_left(m, l1), l2) =~= model_with_left(m, l2));
    assert(model_with_right(model_with_right(m, r1), r2) =~= model_with_right(m, r2));
}

} // verus!
