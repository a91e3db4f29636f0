//! Trying a parser and going on without it where it fails. The parsers
//! tried are read-only, so that a second attempt starts from the same
//! cursor in the same document.

use crate::session::{Outcome, Parse, ParseResult, Parser, Session};
use vstd::prelude::*;

verus! {

/// `p` where it succeeds, and elsewhere `q` from the same cursor, whatever
/// it returns.
pub open spec fn spec_alt2<P: Parse, Q: Parse<Output = P::Output>>(
    p: P,
    q: Q,
    s: Session,
    cursor: usize,
) -> Outcome<<P::Output as DeepView>::V> {
    let one = p.spec_parse(s, cursor);
    match one.result {
        Ok(_) => one,
        Err(_) => q.spec_parse(s, cursor),
    }
}

/// The value of `p` where it succeeds, and elsewhere a success without a
/// value at the cursor it started from.
pub open spec fn spec_opt<P: Parse>(p: P, s: Session, cursor: usize) -> Outcome<
    Option<<P::Output as DeepView>::V>,
> {
    match p.spec_parse(s, cursor).result {
        Ok((next, value)) => Outcome { text: s.text, result: Ok((next, Some(value))) },
        Err(_) => Outcome { text: s.text, result: Ok((cursor, None)) },
    }
}

/// The first of two parsers that succeeds.
pub struct Alt2<P, Q> {
    pub first: P,
    pub second: Q,
}

impl<P: Parse, Q: Parse<Output = P::Output>> Parse for Alt2<P, Q> {
    type Output = P::Output;

    open spec fn wf(&self) -> bool {
        &&& self.first.wf()
        &&& self.second.wf()
        &&& self.first.read_only()
        &&& self.second.read_only()
    }

    open spec fn read_only(&self) -> bool {
        true
    }

    open spec fn spec_parse(&self, s: Session, cursor: usize) -> Outcome<
        <P::Output as DeepView>::V,
    > {
        spec_alt2(self.first, self.second, s, cursor)
    }

    proof fn lemma_outcome(&self, s: Session, cursor: usize) {
        self.first.lemma_outcome(s, cursor);
        self.second.lemma_outcome(s, cursor);
    }

    fn parse(&self, session: &mut Parser, cursor: usize) -> (r: ParseResult<Self::Output>) {
        let _ = session.text_len();
        proof {
            self.first.lemma_outcome(session@, cursor);
        }
        match self.first.parse(session, cursor) {
            Ok((next, value)) => Ok((next, value)),
            Err(_) => self.second.parse(session, cursor),
        }
    }
}

/// A parser that may be left out.
pub struct Opt<P> {
    pub inner: P,
}

impl<P: Parse> Parse for Opt<P> {
    type Output = Option<P::Output>;

    open spec fn wf(&self) -> bool {
        self.inner.wf() && self.inner.read_only()
    }

    open spec fn read_only(&self) -> bool {
        true
    }

    open spec fn spec_parse(&self, s: Session, cursor: usize) -> Outcome<
        Option<<P::Output as DeepView>::V>,
    > {
        spec_opt(self.inner, s, cursor)
    }

    proof fn lemma_outcome(&self, s: Session, cursor: usize) {
        self.inner.lemma_outcome(s, cursor);
    }

    fn parse(&self, session: &mut Parser, cursor: usize) -> (r: ParseResult<Self::Output>) {
        let _ = session.text_len();
        proof {
            self.inner.lemma_outcome(session@, cursor);
        }
        match self.inner.parse(session, cursor) {
            Ok((next, value)) => Ok((next, Some(value))),
            Err(_) => Ok((cursor, None)),
        }
    }
}

} // verus!
