//! Changing the value that a parser produces.

use crate::session::{Outcome, Parse, ParseResult, Parser, Session};
use vstd::prelude::*;

verus! {

/// `f` can be called on every value, and values with the same view are
/// taken to values with the same view.
pub open spec fn is_pure<A: DeepView, B: DeepView, F: Fn(A) -> B>(f: F) -> bool {
    &&& forall|a: A| f.requires((a,))
    &&& forall|a1: A, a2: A, b1: B, b2: B|
        a1.deep_view() == a2.deep_view() && #[trigger] f.ensures((a1,), b1)
            && #[trigger] f.ensures((a2,), b2) ==> b1.deep_view() == b2.deep_view()
}

/// `f` can take a value seen as `a` to a value seen as `b`.
pub open spec fn maps_to<A: DeepView, B: DeepView, F: Fn(A) -> B>(f: F, a: A::V, b: B::V) -> bool {
    exists|x: A, y: B| x.deep_view() == a && #[trigger] f.ensures((x,), y) && y.deep_view() == b
}

/// What `f` makes of a value seen as `a`.
pub open spec fn image<A: DeepView, B: DeepView, F: Fn(A) -> B>(f: F, a: A::V) -> B::V {
    choose|b: B::V| maps_to::<A, B, F>(f, a, b)
}

/// `f` can be called on every value, and what it returns is seen as
/// `model` says.
pub open spec fn computes<A: DeepView, B: DeepView, F: Fn(A) -> B>(
    f: F,
    model: spec_fn(A::V) -> B::V,
) -> bool {
    &&& forall|a: A| f.requires((a,))
    &&& forall|a: A, b: B| #[trigger] f.ensures((a,), b) ==> b.deep_view() == model(a.deep_view())
}

/// A function computes its own image exactly where it is pure.
pub proof fn lemma_pure_computes_image<A: DeepView, B: DeepView, F: Fn(A) -> B>(f: F)
    ensures
        is_pure::<A, B, F>(f) <==> computes::<A, B, F>(f, |a: A::V| image::<A, B, F>(f, a)),
{
    let model = |a: A::V| image::<A, B, F>(f, a);
    if is_pure::<A, B, F>(f) {
        assert forall|a: A, b: B| #[trigger] f.ensures((a,), b) implies b.deep_view() == model(
            a.deep_view(),
        ) by {
            assert(maps_to::<A, B, F>(f, a.deep_view(), b.deep_view()));
        }
    }
}

/// `p`, with its value changed as `model` says.
pub open spec fn spec_map<P: Parse, V>(
    p: P,
    model: spec_fn(<P::Output as DeepView>::V) -> V,
    s: Session,
    cursor: usize,
) -> Outcome<V> {
    let one = p.spec_parse(s, cursor);
    match one.result {
        Err(at) => Outcome { text: one.text, result: Err(at) },
        Ok((next, value)) => Outcome { text: one.text, result: Ok((next, model(value))) },
    }
}

/// A clone of `val` is seen as `val` is.
pub open spec fn clones_alike<V: Clone + DeepView>(val: V) -> bool {
    forall|copy: V| #[trigger] cloned(val, copy) ==> copy.deep_view() == val.deep_view()
}

/// `p`, with `val` in place of the value it produces.
pub open spec fn spec_value<P: Parse, V: DeepView>(p: P, val: V, s: Session, cursor: usize) -> Outcome<
    V::V,
> {
    let one = p.spec_parse(s, cursor);
    match one.result {
        Err(at) => Outcome { text: one.text, result: Err(at) },
        Ok((next, _)) => Outcome { text: one.text, result: Ok((next, val.deep_view())) },
    }
}

/// A parser with a function applied to its value. `model` says what the
/// function computes.
pub struct Mapped<P: Parse, F, B: DeepView> {
    pub inner: P,
    pub f: F,
    pub model: Ghost<spec_fn(<P::Output as DeepView>::V) -> B::V>,
}

impl<P: Parse, B: DeepView, F: Fn(P::Output) -> B> Parse for Mapped<P, F, B> {
    type Output = B;

    open spec fn wf(&self) -> bool {
        self.inner.wf() && computes::<P::Output, B, F>(self.f, self.model@)
    }

    open spec fn read_only(&self) -> bool {
        self.inner.read_only()
    }

    open spec fn spec_parse(&self, s: Session, cursor: usize) -> Outcome<B::V> {
        spec_map(self.inner, self.model@, s, cursor)
    }

    proof fn lemma_outcome(&self, s: Session, cursor: usize) {
        self.inner.lemma_outcome(s, cursor);
    }

    fn parse(&self, session: &mut Parser, cursor: usize) -> (r: ParseResult<B>)
        ensures
            match r {
                Ok((next, made)) => spec_map(
                    self.inner,
                    self.model@,
                    old(session)@,
                    cursor,
                ).result == Ok::<(usize, B::V), usize>((next, made.deep_view())),
                Err(at) => spec_map(self.inner, self.model@, old(session)@, cursor).result
                    == Err::<(usize, B::V), usize>(at),
            },
    {
        match self.inner.parse(session, cursor) {
            Err(at) => Err(at),
            Ok((next, value)) => Ok((next, (self.f)(value))),
        }
    }
}

/// A parser with a fixed value in place of its own.
pub struct Value<P, V> {
    pub inner: P,
    pub val: V,
}

impl<P: Parse, V: Clone + DeepView> Parse for Value<P, V> {
    type Output = V;

    open spec fn wf(&self) -> bool {
        self.inner.wf() && clones_alike(self.val)
    }

    open spec fn read_only(&self) -> bool {
        self.inner.read_only()
    }

    open spec fn spec_parse(&self, s: Session, cursor: usize) -> Outcome<V::V> {
        spec_value(self.inner, self.val, s, cursor)
    }

    proof fn lemma_outcome(&self, s: Session, cursor: usize) {
        self.inner.lemma_outcome(s, cursor);
    }

    fn parse(&self, session: &mut Parser, cursor: usize) -> (r: ParseResult<V>) {
        match self.inner.parse(session, cursor) {
            Err(at) => Err(at),
            Ok((next, _)) => {
                let copy = self.val.clone();
                assert(cloned(self.val, copy));
                Ok((next, copy))
            },
        }
    }
}

} // verus!
