//! The mathematical model of a printable view: the element texts, the
//! separator and the two bounds as sequences of characters, and the text
//! that rendering such a view produces.

use vstd::prelude::*;

verus! {

/// The abstract state of a printable view: element texts in traversal
/// order, the separator, and the two bounds.
#[verifier::ext_equal]
pub struct PrintableModel {
    pub elems: Seq<Seq<char>>,
    pub sep: Seq<char>,
    pub left_bound: Seq<char>,
    pub right_bound: Seq<char>,
}

/// The element texts of a vector of strings, in order.
pub open spec fn texts_of(v: Seq<String>) -> Seq<Seq<char>> {
    v.map_values(|s: String| s@)
}

/// The element texts joined with `sep` strictly between consecutive
/// elements: never before the first nor after the last.
pub open spec fn joined(elems: Seq<Seq<char>>, sep: Seq<char>) -> Seq<char>
    decreases elems.len(),
{
    if elems.len() == 0 {
        Seq::<char>::empty()
    } else if elems.len() == 1 {
        elems[0]
    } else {
        elems[0] + sep + joined(elems.drop_first(), sep)
    }
}

/// The full text a view renders to: the joined element texts wrapped in the
/// bounds, unconditionally, even when the sequence is empty.
pub open spec fn rendered(m: PrintableModel) -> Seq<char> {
    m.left_bound + joined(m.elems, m.sep) + m.right_bound
}

/// The total length of the element texts alone.
pub open spec fn total_text_len(elems: Seq<Seq<char>>) -> nat
    decreases elems.len(),
{
    if elems.len() == 0 {
        0
    } else {
        elems[0].len() + total_text_len(elems.drop_first())
    }
}

/// The model after replacing the separator alone.
pub open spec fn model_with_sep(m: PrintableModel, sep: Seq<char>) -> PrintableModel {
    PrintableModel { sep, ..m }
}

/// The model after replacing the left bound alone.
pub open spec fn model_with_left(m: PrintableModel, left_bound: Seq<char>) -> PrintableModel {
    PrintableModel { left_bound, ..m }
}

/// The model after replacing the right bound alone.
pub open spec fn model_with_right(m: PrintableModel, right_bound: Seq<char>) -> PrintableModel {
    PrintableModel { right_bound, ..m }
}

/// Appending one more element text extends the joined text by one
/// separator and that text.
pub proof fn lemma_joined_push(elems: Seq<Seq<char>>, sep: Seq<char>, x: Seq<char>)
    requires
        elems.len() >= 1,
    ensures
        joined(elems.push(x), sep) == joined(elems, sep) + sep + x,
    decreases elems.len(),
{
    if elems.len() == 1 {
        assert(elems.push(x).drop_first() =~= seq![x]);
        assert(joined(seq![x], sep) == x);
        assert(elems.push(x)[0] == elems[0]);
        assert(joined(elems, sep) == elems[0]);
        assert(joined(elems.push(x), sep) =~= elems[0] + sep + x);
    } else {
        assert(elems.push(x).drop_first() =~= elems.drop_first().push(x));
        lemma_joined_push(elems.drop_first(), sep, x);
        assert(joined(elems.push(x), sep) =~= joined(elems, sep) + sep + x);
    }
}

/// A sequence of n element texts is joined with exactly n - 1 separators:
/// the joined text's length is the element texts' total length plus
/// (n - 1) separator lengths.
pub proof fn lemma_joined_len(elems: Seq<Seq<char>>, sep: Seq<char>)
    ensures
        elems.len() == 0 ==> joined(elems, sep).len() == 0,
        elems.len() >= 1 ==> joined(elems, sep).len() == total_text_len(elems) + (elems.len()
            - 1) * sep.len(),
    decreases elems.len(),
{
    if elems.len() == 0 {
    } else if elems.len() == 1 {
        assert(total_text_len(elems.drop_first()) == 0);
        assert(total_text_len(elems) == elems[0].len());
        assert((elems.len() - 1) * sep.len() == 0) by (nonlinear_arith)
            requires
                elems.len() == 1,
        ;
    } else {
        lemma_joined_len(elems.drop_first(), sep);
        let n = elems.len() as int;
        let l = sep.len() as int;
        assert(elems.drop_first().len() == n - 1);
        assert(joined(elems.drop_first(), sep).len() == total_text_len(elems.drop_first()) + (n
            - 2) * l);
        assert(joined(elems, sep).len() == elems[0].len() + l + joined(
            elems.drop_first(),
            sep,
        ).len());
        assert(total_text_len(elems) == elems[0].len() + total_text_len(elems.drop_first()));
        assert((elems.len() - 1) * sep.len() == (elems.drop_first().len() - 1) * sep.len()
            + sep.len()) by (nonlinear_arith)
            requires
                elems.len() >= 2,
                elems.drop_first().len() == elems.len() - 1,
        ;
        assert(joined(elems, sep).len() == total_text_len(elems) + (elems.len() - 1)
            * sep.len());
    }
}

/// The joined text splits at every element boundary: for any cut point k
/// strictly inside the sequence, it is the join of the first k element
/// texts, one separator, and the join of the rest, in that order.
pub proof fn lemma_joined_split(elems: Seq<Seq<char>>, sep: Seq<char>, k: int)
    requires
        1 <= k < elems.len(),
    ensures
        joined(elems, sep) == joined(elems.take(k), sep) + sep + joined(elems.skip(k), sep),
    decreases k,
{
    if k == 1 {
        assert(elems.take(1) =~= seq![elems[0]]);
        assert(joined(seq![elems[0]], sep) == elems[0]);
        assert(elems.skip(1) =~= elems.drop_first());
        assert(joined(elems, sep) =~= joined(elems.take(1), sep) + sep + joined(
            elems.skip(1),
            sep,
        ));
    } else {
        lemma_joined_split(elems.drop_first(), sep, k - 1);
        assert(elems.take(k).drop_first() =~= elems.drop_first().take(k - 1));
        assert(elems.skip(k) =~= elems.drop_first().skip(k - 1));
        assert(elems.take(k)[0] == elems[0]);
        assert(elems.take(k).len() == k);
        assert(joined(elems.take(k), sep) == elems[0] + sep + joined(
            elems.drop_first().take(k - 1),
            sep,
        ));
        assert(joined(elems, sep) =~= joined(elems.take(k), sep) + sep + joined(
            elems.skip(k),
            sep,
        ));
    }
}

} // verus!
