//! What holds of the parsers, whatever they are made of.

use crate::branch::{Alt2, Opt};
use crate::expand::{
    lemma_reference_span, reference, spec_entity_expander, spec_expand, EntityExpander, Expand,
};
use crate::repeat::{lemma_run, Many0, Many1};
use crate::sequence::Delimited;
use crate::session::{Parse, Session};
use vstd::prelude::*;

verus! {

/// Where a read-only parser fails, the document is as it was: a parser run
/// afterwards from the same cursor does what it would have done had the
/// failing parser never run.
pub proof fn lemma_failure_consumes_nothing<P: Parse, Q: Parse>(
    p: P,
    q: Q,
    s: Session,
    cursor: usize,
)
    requires
        p.wf(),
        p.read_only(),
        s.valid(),
        p.spec_parse(s, cursor).result is Err,
    ensures
        p.spec_parse(s, cursor).text == s.text,
        q.spec_parse(s.with_text(p.spec_parse(s, cursor).text), cursor) == q.spec_parse(s, cursor),
{
    p.lemma_outcome(s, cursor);
    assert(s.with_text(s.text) == s);
}

/// Where the expansion of an entity fails, the document is as it was.
pub proof fn lemma_failed_expansion_keeps_document(s: Session, cursor: usize)
    ensures
        spec_entity_expander(s, cursor).result is Err ==> spec_entity_expander(s, cursor).text
            == s.text,
        spec_expand(reference(), s, cursor).result is Err ==> spec_expand(
            reference(),
            s,
            cursor,
        ).text == s.text,
{
}

/// A parser that may be left out always succeeds, and where the parser
/// itself fails it succeeds without a value at the cursor it started from.
pub proof fn lemma_opt_total<P: Parse>(p: P, s: Session, cursor: usize)
    ensures
        (Opt { inner: p }).spec_parse(s, cursor).result is Ok,
        p.spec_parse(s, cursor).result is Err ==> (Opt { inner: p }).spec_parse(s, cursor).result
            == Ok::<(usize, Option<<P::Output as DeepView>::V>), usize>((cursor, None)),
{
}

/// Zero or more times a parser always succeeds, and never ends before the
/// cursor it started from.
pub proof fn lemma_many0_total<P: Parse>(p: P, s: Session, cursor: usize)
    requires
        p.wf(),
        s.valid(),
    ensures
        (Many0 { item: p }).spec_parse(s, cursor).result is Ok,
        cursor <= (Many0 { item: p }).spec_parse(s, cursor).result->Ok_0.0,
{
    lemma_run(p, s, cursor);
}

/// One or more times a parser fails exactly where the parser fails, and
/// with its failure.
pub proof fn lemma_many1_strict<P: Parse>(p: P, s: Session, cursor: usize)
    ensures
        (Many1 { item: p }).spec_parse(s, cursor).result is Err <==> p.spec_parse(
            s,
            cursor,
        ).result is Err,
        p.spec_parse(s, cursor).result matches Err(at) ==> (Many1 { item: p }).spec_parse(
            s,
            cursor,
        ).result == Err::<(usize, Seq<<P::Output as DeepView>::V>), usize>(at),
{
}

/// Where the first of two alternatives succeeds, the second has no say.
pub proof fn lemma_alt2_left_bias<P: Parse, Q: Parse<Output = P::Output>>(
    p: P,
    q: Q,
    s: Session,
    cursor: usize,
)
    requires
        p.spec_parse(s, cursor).result is Ok,
    ensures
        (Alt2 { first: p, second: q }).spec_parse(s, cursor) == p.spec_parse(s, cursor),
{
}

/// Where the first of two alternatives fails, the result is that of the
/// second from the same cursor, its failure included.
pub proof fn lemma_alt2_last_failure_wins<P: Parse, Q: Parse<Output = P::Output>>(
    p: P,
    q: Q,
    s: Session,
    cursor: usize,
)
    requires
        p.spec_parse(s, cursor).result is Err,
    ensures
        (Alt2 { first: p, second: q }).spec_parse(s, cursor) == q.spec_parse(s, cursor),
{
}

/// A delimited parser succeeds exactly where its three parts succeed one
/// after another; it then ends where the last part ends, with the value of
/// the middle part.
pub proof fn lemma_delimited_discards_framing<P: Parse, Q: Parse, R: Parse>(
    a: P,
    b: Q,
    c: R,
    s: Session,
    cursor: usize,
)
    ensures
        ({
            let whole = (Delimited { open: a, body: b, close: c }).spec_parse(s, cursor);
            let one = a.spec_parse(s, cursor);
            match one.result {
                Err(at) => whole.result == Err::<(usize, <Q::Output as DeepView>::V), usize>(at),
                Ok((mid1, _)) => {
                    let two = b.spec_parse(s.with_text(one.text), mid1);
                    match two.result {
                        Err(at) => whole.result == Err::<
                            (usize, <Q::Output as DeepView>::V),
                            usize,
                        >(at),
                        Ok((mid2, value)) => {
                            let three = c.spec_parse(s.with_text(two.text), mid2);
                            match three.result {
                                Err(at) => whole.result == Err::<
                                    (usize, <Q::Output as DeepView>::V),
                                    usize,
                                >(at),
                                Ok((next, _)) => whole.result == Ok::<
                                    (usize, <Q::Output as DeepView>::V),
                                    usize,
                                >((next, value)),
                            }
                        },
                    }
                },
            }
        }),
{
}

/// The two parsers that expand an entity do the same.
pub proof fn lemma_expanders_agree(s: Session, cursor: usize)
    requires
        s.valid(),
    ensures
        (Expand { name: reference() }).spec_parse(s, cursor) == (EntityExpander {  }).spec_parse(
            s,
            cursor,
        ),
{
    if reference().spec_parse(s, cursor).result is Ok {
        lemma_reference_span(s, cursor);
    }
}

} // verus!
