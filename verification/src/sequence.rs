//! Running parsers one after another, each from where the one before it
//! ended, and stopping at the first that fails.

use crate::session::{Outcome, Parse, ParseResult, Parser, Session};
use vstd::prelude::*;

verus! {

/// `p`, then `q` from where `p` ended: both values on success, and the
/// failure of the first that fails.
pub open spec fn spec_pair<P: Parse, Q: Parse>(
    p: P,
    q: Q,
    s: Session,
    cursor: usize,
) -> Outcome<(<P::Output as DeepView>::V, <Q::Output as DeepView>::V)> {
    let one = p.spec_parse(s, cursor);
    match one.result {
        Err(at) => Outcome { text: one.text, result: Err(at) },
        Ok((mid, v1)) => {
            let two = q.spec_parse(s.with_text(one.text), mid);
            match two.result {
                Err(at) => Outcome { text: two.text, result: Err(at) },
                Ok((next, v2)) => Outcome { text: two.text, result: Ok((next, (v1, v2))) },
            }
        },
    }
}

/// The pair of `p` and `q`, then `r` from where the pair ended: the
/// three values on success, and the failure of the first that fails.
pub open spec fn spec_tuple3<P: Parse, Q: Parse, R: Parse>(
    p: P,
    q: Q,
    r: R,
    s: Session,
    cursor: usize,
) -> Outcome<
    (<P::Output as DeepView>::V, <Q::Output as DeepView>::V, <R::Output as DeepView>::V),
> {
    let both = spec_pair(p, q, s, cursor);
    match both.result {
        Err(at) => Outcome { text: both.text, result: Err(at) },
        Ok((mid, (v1, v2))) => {
            let three = r.spec_parse(s.with_text(both.text), mid);
            match three.result {
                Err(at) => Outcome { text: three.text, result: Err(at) },
                Ok((next, v3)) => Outcome { text: three.text, result: Ok((next, (v1, v2, v3))) },
            }
        },
    }
}

/// `open`, `body` and `close` in a row, keeping the value of `body` alone.
pub open spec fn spec_delimited<P: Parse, Q: Parse, R: Parse>(
    open: P,
    body: Q,
    close: R,
    s: Session,
    cursor: usize,
) -> Outcome<<Q::Output as DeepView>::V> {
    let all = spec_tuple3(open, body, close, s, cursor);
    match all.result {
        Err(at) => Outcome { text: all.text, result: Err(at) },
        Ok((next, (_, value, _))) => Outcome { text: all.text, result: Ok((next, value)) },
    }
}

/// Two parsers in a row.
pub struct Pair<P, Q> {
    pub first: P,
    pub second: Q,
}

impl<P: Parse, Q: Parse> Parse for Pair<P, Q> {
    type Output = (P::Output, Q::Output);

    open spec fn wf(&self) -> bool {
        self.first.wf() && self.second.wf()
    }

    open spec fn read_only(&self) -> bool {
        self.first.read_only() && self.second.read_only()
    }

    open spec fn spec_parse(&self, s: Session, cursor: usize) -> Outcome<
        (<P::Output as DeepView>::V, <Q::Output as DeepView>::V),
    > {
        spec_pair(self.first, self.second, s, cursor)
    }

    proof fn lemma_outcome(&self, s: Session, cursor: usize) {
        let one = self.first.spec_parse(s, cursor);
        self.first.lemma_outcome(s, cursor);
        if let Ok((mid, _)) = one.result {
            self.second.lemma_outcome(s.with_text(one.text), mid);
        }
    }

    fn parse(&self, session: &mut Parser, cursor: usize) -> (r: ParseResult<Self::Output>) {
        match self.first.parse(session, cursor) {
            Err(at) => Err(at),
            Ok((mid, v1)) => match self.second.parse(session, mid) {
                Err(at) => Err(at),
                Ok((next, v2)) => Ok((next, (v1, v2))),
            },
        }
    }
}

/// Three parsers in a row.
pub struct Tuple3<P, Q, R> {
    pub first: P,
    pub second: Q,
    pub third: R,
}

impl<P: Parse, Q: Parse, R: Parse> Parse for Tuple3<P, Q, R> {
    type Output = (P::Output, Q::Output, R::Output);

    open spec fn wf(&self) -> bool {
        self.first.wf() && self.second.wf() && self.third.wf()
    }

    open spec fn read_only(&self) -> bool {
        self.first.read_only() && self.second.read_only() && self.third.read_only()
    }

    open spec fn spec_parse(&self, s: Session, cursor: usize) -> Outcome<
        (<P::Output as DeepView>::V, <Q::Output as DeepView>::V, <R::Output as DeepView>::V),
    > {
        spec_tuple3(self.first, self.second, self.third, s, cursor)
    }

    proof fn lemma_outcome(&self, s: Session, cursor: usize) {
        lemma_tuple3_outcome(self.first, self.second, self.third, s, cursor);
    }

    fn parse(&self, session: &mut Parser, cursor: usize) -> (r: ParseResult<Self::Output>) {
        match self.first.parse(session, cursor) {
            Err(at) => Err(at),
            Ok((mid1, v1)) => match self.second.parse(session, mid1) {
                Err(at) => Err(at),
                Ok((mid2, v2)) => match self.third.parse(session, mid2) {
                    Err(at) => Err(at),
                    Ok((next, v3)) => Ok((next, (v1, v2, v3))),
                },
            },
        }
    }
}

/// What `lemma_outcome` states, of three parsers in a row.
pub proof fn lemma_tuple3_outcome<P: Parse, Q: Parse, R: Parse>(
    p: P,
    q: Q,
    r: R,
    s: Session,
    cursor: usize,
)
    requires
        p.wf(),
        q.wf(),
        r.wf(),
        s.valid(),
    ensures
        spec_tuple3(p, q, r, s, cursor).result matches Ok((next, _)) ==> cursor <= next,
        p.read_only() && q.read_only() && r.read_only() ==> spec_tuple3(
            p,
            q,
            r,
            s,
            cursor,
        ).text == s.text,
        s.with_text(spec_tuple3(p, q, r, s, cursor).text).valid(),
{
    let one = p.spec_parse(s, cursor);
    p.lemma_outcome(s, cursor);
    if let Ok((mid1, _)) = one.result {
        let two = q.spec_parse(s.with_text(one.text), mid1);
        q.lemma_outcome(s.with_text(one.text), mid1);
        if let Ok((mid2, _)) = two.result {
            r.lemma_outcome(s.with_text(two.text), mid2);
        }
    }
}

/// A parser between two others whose values are dropped.
pub struct Delimited<P, Q, R> {
    pub open: P,
    pub body: Q,
    pub close: R,
}

impl<P: Parse, Q: Parse, R: Parse> Parse for Delimited<P, Q, R> {
    type Output = Q::Output;

    open spec fn wf(&self) -> bool {
        self.open.wf() && self.body.wf() && self.close.wf()
    }

    open spec fn read_only(&self) -> bool {
        self.open.read_only() && self.body.read_only() && self.close.read_only()
    }

    open spec fn spec_parse(&self, s: Session, cursor: usize) -> Outcome<
        <Q::Output as DeepView>::V,
    > {
        spec_delimited(self.open, self.body, self.close, s, cursor)
    }

    proof fn lemma_outcome(&self, s: Session, cursor: usize) {
        lemma_tuple3_outcome(self.open, self.body, self.close, s, cursor);
    }

    fn parse(&self, session: &mut Parser, cursor: usize) -> (r: ParseResult<Self::Output>) {
        match self.open.parse(session, cursor) {
            Err(at) => Err(at),
            Ok((mid1, _)) => match self.body.parse(session, mid1) {
                Err(at) => Err(at),
                Ok((mid2, value)) => match self.close.parse(session, mid2) {
                    Err(at) => Err(at),
                    Ok((next, _)) => Ok((next, value)),
                },
            },
        }
    }
}

} // verus!
