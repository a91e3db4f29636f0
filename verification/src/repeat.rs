//! Running one parser again and again, and collecting what it produces.

use crate::session::{Outcome, Parse, ParseResult, Parser, Session};
use vstd::prelude::*;

verus! {

/// What a repetition comes to: the document it leaves behind, the cursor
/// it ends at, and the values collected in order.
pub struct Run<V> {
    pub text: Seq<u8>,
    pub end: usize,
    pub items: Seq<V>,
}

/// The repetition of `p` from `cursor`. It ends at the first failure of
/// `p`, at the cursor of that attempt. It also ends with a success of `p`
/// that does not advance the cursor: that value is the last one collected.
pub open spec fn spec_run<P: Parse>(p: P, s: Session, cursor: usize) -> Run<
    <P::Output as DeepView>::V,
>
    decreases usize::MAX - cursor,
{
    let one = p.spec_parse(s, cursor);
    match one.result {
        Err(_) => Run { text: one.text, end: cursor, items: Seq::empty() },
        Ok((next, value)) => if next <= cursor {
            Run { text: one.text, end: next, items: seq![value] }
        } else {
            let rest = spec_run(p, s.with_text(one.text), next);
            Run { text: rest.text, end: rest.end, items: seq![value] + rest.items }
        },
    }
}

/// Zero or more times `p`: always a success, with the values of the
/// repetition from `cursor`.
pub open spec fn spec_many0<P: Parse>(p: P, s: Session, cursor: usize) -> Outcome<
    Seq<<P::Output as DeepView>::V>,
> {
    let run = spec_run(p, s, cursor);
    Outcome { text: run.text, result: Ok((run.end, run.items)) }
}

/// One or more times `p`: the failure of `p` at `cursor` where it fails
/// there, and the repetition from `cursor` elsewhere.
pub open spec fn spec_many1<P: Parse>(p: P, s: Session, cursor: usize) -> Outcome<
    Seq<<P::Output as DeepView>::V>,
> {
    let one = p.spec_parse(s, cursor);
    match one.result {
        Err(at) => Outcome { text: one.text, result: Err(at) },
        Ok(_) => spec_many0(p, s, cursor),
    }
}

/// A repetition never ends before the cursor it started from, leaves the
/// document unchanged where `p` is read-only, and leaves it a text that a
/// machine can hold.
pub proof fn lemma_run<P: Parse>(p: P, s: Session, cursor: usize)
    requires
        p.wf(),
        s.valid(),
    ensures
        cursor <= spec_run(p, s, cursor).end,
        p.read_only() ==> spec_run(p, s, cursor).text == s.text,
        s.with_text(spec_run(p, s, cursor).text).valid(),
    decreases usize::MAX - cursor,
{
    let one = p.spec_parse(s, cursor);
    p.lemma_outcome(s, cursor);
    if let Ok((next, _)) = one.result {
        if next > cursor {
            lemma_run(p, s.with_text(one.text), next);
        }
    }
}

/// Runs `p` from `cursor` until it fails or stands still, and appends what
/// it produces to `items`. Returns the cursor at which the repetition ends.
fn collect<P: Parse>(p: &P, session: &mut Parser, cursor: usize, items: &mut Vec<P::Output>) -> (end:
    usize)
    requires
        p.wf(),
    ensures
        final(session)@ == old(session)@.with_text(spec_run(*p, old(session)@, cursor).text),
        end == spec_run(*p, old(session)@, cursor).end,
        final(items).deep_view() == old(items).deep_view() + spec_run(
            *p,
            old(session)@,
            cursor,
        ).items,
{
    let ghost start = session@;
    let ghost given = items.deep_view();
    let mut at: usize = cursor;
    loop
        invariant
            p.wf(),
            start == old(session)@,
            given == old(items).deep_view(),
            session@.entities == start.entities,
            spec_run(*p, start, cursor).text == spec_run(*p, session@, at).text,
            spec_run(*p, start, cursor).end == spec_run(*p, session@, at).end,
            given + spec_run(*p, start, cursor).items == items.deep_view() + spec_run(
                *p,
                session@,
                at,
            ).items,
        decreases usize::MAX - at,
    {
        let ghost here = session@;
        let ghost had = items.deep_view();
        match p.parse(session, at) {
            Err(_) => {
                proof {
                    assert(had + Seq::empty() =~= had);
                }
                return at;
            },
            Ok((next, value)) => {
                items.push(value);
                proof {
                    assert(items.deep_view() =~= had.push(value.deep_view()));
                }
                if next <= at {
                    proof {
                        assert(had + seq![value.deep_view()] =~= had.push(value.deep_view()));
                    }
                    return next;
                }
                proof {
                    let rest = spec_run(*p, session@, next);
                    assert(had + (seq![value.deep_view()] + rest.items) =~= had.push(
                        value.deep_view(),
                    ) + rest.items);
                }
                at = next;
            },
        }
    }
}

/// Zero or more times one parser.
pub struct Many0<P> {
    pub item: P,
}

impl<P: Parse> Parse for Many0<P> {
    type Output = Vec<P::Output>;

    open spec fn wf(&self) -> bool {
        self.item.wf()
    }

    open spec fn read_only(&self) -> bool {
        self.item.read_only()
    }

    open spec fn spec_parse(&self, s: Session, cursor: usize) -> Outcome<
        Seq<<P::Output as DeepView>::V>,
    > {
        spec_many0(self.item, s, cursor)
    }

    proof fn lemma_outcome(&self, s: Session, cursor: usize) {
        lemma_run(self.item, s, cursor);
    }

    fn parse(&self, session: &mut Parser, cursor: usize) -> (r: ParseResult<Self::Output>) {
        let mut items: Vec<P::Output> = Vec::new();
        assert(items.deep_view() =~= Seq::empty());
        let end = collect(&self.item, session, cursor, &mut items);
        proof {
            let run = spec_run(self.item, old(session)@, cursor);
            assert(Seq::empty() + run.items =~= run.items);
        }
        Ok((end, items))
    }
}

/// One or more times one parser.
pub struct Many1<P> {
    pub item: P,
}

impl<P: Parse> Parse for Many1<P> {
    type Output = Vec<P::Output>;

    open spec fn wf(&self) -> bool {
        self.item.wf()
    }

    open spec fn read_only(&self) -> bool {
        self.item.read_only()
    }

    open spec fn spec_parse(&self, s: Session, cursor: usize) -> Outcome<
        Seq<<P::Output as DeepView>::V>,
    > {
        spec_many1(self.item, s, cursor)
    }

    proof fn lemma_outcome(&self, s: Session, cursor: usize) {
        self.item.lemma_outcome(s, cursor);
        lemma_run(self.item, s, cursor);
    }

    fn parse(&self, session: &mut Parser, cursor: usize) -> (r: ParseResult<Self::Output>) {
        let mut items: Vec<P::Output> = Vec::new();
        match self.item.parse(session, cursor) {
            Err(at) => Err(at),
            Ok((next, value)) => {
                items.push(value);
                assert(items.deep_view() =~= seq![value.deep_view()]);
                if next <= cursor {
                    Ok((next, items))
                } else {
                    let end = collect(&self.item, session, next, &mut items);
                    Ok((end, items))
                }
            },
        }
    }
}

} // verus!
