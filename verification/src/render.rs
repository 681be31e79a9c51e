//! The printable view itself: construction, builder-style configuration and
//! rendering.

use vstd::prelude::*;
use vstd::string::StringExecFns;
use crate::model::{PrintableModel, texts_of, joined, rendered};
use crate::model::{model_with_sep, model_with_left, model_with_right};
use crate::model::lemma_joined_push;
use crate::text::{u64_text, u64_to_string, i64_text, i64_to_string};

verus! {

/// Printable wrapper: holds the element texts of a sequence together with a
/// separator and two bounds, and renders them as
/// `left_bound elem sep elem ... right_bound`.
///
/// The configuration strings are owned, so reconfiguring one field never
/// touches the wrapped element texts nor the other fields.
#[derive(Clone)]
pub struct Printable {
    data: Vec<String>,
    sep: String,
    left_bound: String,
    right_bound: String,
}

impl View for Printable {
    type V = PrintableModel;

    closed spec fn view(&self) -> PrintableModel {
        PrintableModel {
            elems: texts_of(self.data@),
            sep: self.sep@,
            left_bound: self.left_bound@,
            right_bound: self.right_bound@,
        }
    }
}

impl Printable {
    /// Wraps a sequence of element texts with the default configuration:
    /// separator `", "`, left bound `"["`, right bound `"]"`.
    ///
    /// Construction never fails and performs no traversal.
    pub fn wrap(data: Vec<String>) -> (p: Printable)
        ensures
            p@.elems == texts_of(data@),
            p@.sep == ", "@,
            p@.left_bound == "["@,
            p@.right_bound == "]"@,
    {
        Printable {
            data,
            sep: String::from_str(", "),
            left_bound: String::from_str("["),
            right_bound: String::from_str("]"),
        }
    }

    /// Customizes the separator; the element texts and both bounds are
    /// carried over unchanged.
    pub fn with_separator(self, sep: &str) -> (p: Printable)
        ensures
            p@ == model_with_sep(self@, sep@),
            p@.sep == sep@,
            p@.elems == self@.elems,
            p@.left_bound == self@.left_bound,
            p@.right_bound == self@.right_bound,
    {
        let ghost m0 = self@;
        let Printable { data, left_bound, right_bound, .. } = self;
        let p = Printable { data, sep: sep.to_owned(), left_bound, right_bound };
        proof {
            assert(p@ =~= model_with_sep(m0, sep@));
        }
        p
    }

    /// Customizes the left bound; the element texts, the separator and the
    /// right bound are carried over unchanged.
    pub fn with_left_bound(self, left_bound: &str) -> (p: Printable)
        ensures
            p@ == model_with_left(self@, left_bound@),
            p@.left_bound == left_bound@,
            p@.elems == self@.elems,
            p@.sep == self@.sep,
            p@.right_bound == self@.right_bound,
    {
        let ghost m0 = self@;
        let Printable { data, sep, right_bound, .. } = self;
        let p = Printable { data, sep, left_bound: left_bound.to_owned(), right_bound };
        proof {
            assert(p@ =~= model_with_left(m0, left_bound@));
        }
        p
    }

    /// Customizes the right bound; the element texts, the separator and the
    /// left bound are carried over unchanged.
    pub fn with_right_bound(self, right_bound: &str) -> (p: Printable)
        ensures
            p@ == model_with_right(self@, right_bound@),
            p@.right_bound == right_bound@,
            p@.elems == self@.elems,
            p@.sep == self@.sep,
            p@.left_bound == self@.left_bound,
    {
        let ghost m0 = self@;
        let Printable { data, sep, left_bound, .. } = self;
        let p = Printable { data, sep, left_bound, right_bound: right_bound.to_owned() };
        proof {
            assert(p@ =~= model_with_right(m0, right_bound@));
        }
        p
    }

    /// Renders the view: the left bound, then the element texts in order
    /// with the separator strictly between consecutive elements, then the
    /// right bound. Reads the view only; the same view renders to the same
    /// text every time.
    pub fn render(&self) -> (s: String)
        ensures
            s@ == rendered(self@),
    {
        let ghost e = texts_of(self.data@);
        let mut s = String::new();
        s.append(self.left_bound.as_str());
        assert(s@ =~= self@.left_bound);
        let n = self.data.len();
        if n > 0 {
            s.append(self.data[0].as_str());
            assert(e.take(1) =~= seq![e[0]]);
            assert(s@ == self@.left_bound + joined(e.take(1), self@.sep));
            let mut i: usize = 1;
            while i < n
                invariant
                    1 <= i <= n,
                    n == self.data@.len(),
                    e == texts_of(self.data@),
                    s@ == self@.left_bound + joined(e.take(i as int), self@.sep),
                decreases n - i,
            {
                s.append(self.sep.as_str());
                s.append(self.data[i].as_str());
                proof {
                    assert(e.take(i as int).len() == i);
                    lemma_joined_push(e.take(i as int), self@.sep, e[i as int]);
                    assert(e.take(i + 1) =~= e.take(i as int).push(e[i as int]));
                    assert(s@ =~= self@.left_bound + joined(e.take(i + 1), self@.sep));
                }
                i = i + 1;
            }
            assert(e.take(n as int) =~= e);
        }
        s.append(self.right_bound.as_str());
        assert(s@ =~= rendered(self@));
        s
    }
}

/// Wrap a sequence of displayable elements into a [`Printable`] with the
/// default configuration. Each implementation fixes what the text form of
/// its elements is, through `text_seq`.
pub trait AsPrintable: Sized {
    /// The text forms of the elements, in traversal order.
    spec fn text_seq(&self) -> Seq<Seq<char>>;

    /// Wraps the sequence into a [`Printable`] with default configuration:
    /// separator `", "`, left bound `"["`, right bound `"]"`.
    fn printable(self) -> (p: Printable)
        ensures
            p@.elems == self.text_seq(),
            p@.sep == ", "@,
            p@.left_bound == "["@,
            p@.right_bound == "]"@,
    ;
}

impl AsPrintable for Vec<String> {
    open spec fn text_seq(&self) -> Seq<Seq<char>> {
        texts_of(self@)
    }

    fn printable(self) -> (p: Printable) {
        Printable::wrap(self)
    }
}

impl AsPrintable for Vec<u64> {
    open spec fn text_seq(&self) -> Seq<Seq<char>> {
        self@.map_values(|n: u64| u64_text(n as nat))
    }

    fn printable(self) -> (p: Printable) {
        let ghost t = self@.map_values(|n: u64| u64_text(n as nat));
        let mut data: Vec<String> = Vec::new();
        let mut i: usize = 0;
        while i < self.len()
            invariant
                0 <= i <= self@.len(),
                t == self@.map_values(|n: u64| u64_text(n as nat)),
                texts_of(data@) =~= t.take(i as int),
            decreases self@.len() - i,
        {
            let ghost prev = data@;
            data.push(u64_to_string(self[i]));
            proof {
                assert(texts_of(prev).len() == prev.len());
                assert(prev.len() == i as int);
                assert(data@ =~= prev.push(data@[i as int]));
                assert forall|j: int| 0 <= j < i + 1 implies texts_of(data@)[j] == t.take(
                    i + 1,
                )[j] by {
                    if j < i {
                        assert(texts_of(prev)[j] == t.take(i as int)[j]);
                        assert(texts_of(prev)[j] == prev[j]@);
                        assert(data@[j] == prev[j]);
                    } else {
                        assert(data@[j]@ == u64_text(self@[j] as nat));
                        assert(t[j] == u64_text(self@[j] as nat));
                    }
                }
                assert(texts_of(data@) =~= t.take(i + 1));
            }
            i = i + 1;
        }
        assert(t.take(self@.len() as int) =~= t);
        let p = Printable::wrap(data);
        assert(p@.elems =~= self.text_seq());
        p
    }
}

impl AsPrintable for Vec<i64> {
    open spec fn text_seq(&self) -> Seq<Seq<char>> {
        self@.map_values(|n: i64| i64_text(n as int))
    }

    fn printable(self) -> (p: Printable) {
        let ghost t = self@.map_values(|n: i64| i64_text(n as int));
        let mut data: Vec<String> = Vec::new();
        let mut i: usize = 0;
        while i < self.len()
            invariant
                0 <= i <= self@.len(),
                t == self@.map_values(|n: i64| i64_text(n as int)),
                texts_of(data@) =~= t.take(i as int),
            decreases self@.len() - i,
        {
            let ghost prev = data@;
            data.push(i64_to_string(self[i]));
            proof {
                assert(texts_of(prev).len() == prev.len());
                assert(prev.len() == i as int);
                assert(data@ =~= prev.push(data@[i as int]));
                assert forall|j: int| 0 <= j < i + 1 implies texts_of(data@)[j] == t.take(
                    i + 1,
                )[j] by {
                    if j < i {
                        assert(texts_of(prev)[j] == t.take(i as int)[j]);
                        assert(texts_of(prev)[j] == prev[j]@);
                        assert(data@[j] == prev[j]);
                    } else {
                        assert(data@[j]@ == i64_text(self@[j] as int));
                        assert(t[j] == i64_text(self@[j] as int));
                    }
                }
                assert(texts_of(data@) =~= t.take(i + 1));
            }
            i = i + 1;
        }
        assert(t.take(self@.len() as int) =~= t);
        let p = Printable::wrap(data);
        assert(p@.elems =~= self.text_seq());
        p
    }
}

} // verus!
