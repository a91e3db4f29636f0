//! The parsers that a session hands out. Each is a value that can be put
//! into others and is run with `Parse::parse`, on the session and from a
//! cursor.

use crate::branch::{spec_alt2, spec_opt, Alt2, Opt};
use crate::expand::{reference, spec_entity_expander, spec_expand, EntityExpander, Expand};
use crate::primitives::{
    accepts, answers, decides, lemma_decides_answers, spec_none_of, spec_tag, spec_take_until,
    spec_take_while_m_n, NoneOf, Tag, TakeUntil, TakeWhileMN,
};
use crate::repeat::{spec_many0, spec_many1, Many0, Many1};
use crate::sequence::{spec_delimited, spec_pair, spec_tuple3, Delimited, Pair, Tuple3};
use crate::session::{Parse, Parser, Session};
use crate::transform::{
    clones_alike, computes, image, is_pure, lemma_pure_computes_image, spec_map, spec_value, Mapped,
    Value,
};
use vstd::prelude::*;

verus! {

impl Parser {
    /// The parser that matches the literal `expected`.
    pub fn tag<'a>(&self, expected: &'a str) -> (p: Tag<'a>)
        ensures
            p == (Tag { expected }),
            p.wf(),
            p.read_only(),
            forall|s: Session, cursor: usize| #[trigger]
                p.spec_parse(s, cursor) == spec_tag(expected@, s, cursor),
    {
        Tag { expected }
    }

    /// The parser that runs `parser1` and then `parser2`.
    pub fn pair<P: Parse, Q: Parse>(&self, parser1: P, parser2: Q) -> (p: Pair<P, Q>)
        ensures
            p == (Pair { first: parser1, second: parser2 }),
            p.wf() == (parser1.wf() && parser2.wf()),
            p.read_only() == (parser1.read_only() && parser2.read_only()),
            forall|s: Session, cursor: usize| #[trigger]
                p.spec_parse(s, cursor) == spec_pair(parser1, parser2, s, cursor),
    {
        Pair { first: parser1, second: parser2 }
    }

    /// The parser that runs `parser1`, `parser2` and `parser3` in a row.
    pub fn tuple3<P: Parse, Q: Parse, R: Parse>(
        &self,
        parser1: P,
        parser2: Q,
        parser3: R,
    ) -> (p: Tuple3<P, Q, R>)
        ensures
            p == (Tuple3 { first: parser1, second: parser2, third: parser3 }),
            p.wf() == (parser1.wf() && parser2.wf() && parser3.wf()),
            p.read_only() == (parser1.read_only() && parser2.read_only() && parser3.read_only()),
            forall|s: Session, cursor: usize| #[trigger]
                p.spec_parse(s, cursor) == spec_tuple3(parser1, parser2, parser3, s, cursor),
    {
        Tuple3 { first: parser1, second: parser2, third: parser3 }
    }

    /// The parser that runs `parser` zero or more times.
    pub fn many0<P: Parse>(&self, parser: P) -> (p: Many0<P>)
        ensures
            p == (Many0 { item: parser }),
            p.wf() == parser.wf(),
            p.read_only() == parser.read_only(),
            forall|s: Session, cursor: usize| #[trigger]
                p.spec_parse(s, cursor) == spec_many0(parser, s, cursor),
    {
        Many0 { item: parser }
    }

    /// The parser that runs `parser` one or more times.
    pub fn many1<P: Parse>(&self, parser: P) -> (p: Many1<P>)
        ensures
            p == (Many1 { item: parser }),
            p.wf() == parser.wf(),
            p.read_only() == parser.read_only(),
            forall|s: Session, cursor: usize| #[trigger]
                p.spec_parse(s, cursor) == spec_many1(parser, s, cursor),
    {
        Many1 { item: parser }
    }

    /// The parser that runs `parser` and applies `map_fn` to its value.
    /// What `map_fn` computes is taken from its own contract.
    pub fn map<P: Parse, B: DeepView, F: Fn(P::Output) -> B>(&self, parser: P, map_fn: F) -> (p:
        Mapped<P, F, B>)
        ensures
            p.inner == parser,
            p.f == map_fn,
            p.model@ == (|a: <P::Output as DeepView>::V| image::<P::Output, B, F>(map_fn, a)),
            p.wf() == (parser.wf() && is_pure::<P::Output, B, F>(map_fn)),
            p.read_only() == parser.read_only(),
            forall|s: Session, cursor: usize| #[trigger]
                p.spec_parse(s, cursor) == spec_map(
                    parser,
                    |a: <P::Output as DeepView>::V| image::<P::Output, B, F>(map_fn, a),
                    s,
                    cursor,
                ),
    {
        proof {
            lemma_pure_computes_image::<P::Output, B, F>(map_fn);
        }
        self.map_as(
            parser,
            map_fn,
            Ghost(|a: <P::Output as DeepView>::V| image::<P::Output, B, F>(map_fn, a)),
        )
    }

    /// The parser that runs `parser` and applies `map_fn` to its value,
    /// where `map_fn` computes what `model` says.
    pub fn map_as<P: Parse, B: DeepView, F: Fn(P::Output) -> B>(
        &self,
        parser: P,
        map_fn: F,
        model: Ghost<spec_fn(<P::Output as DeepView>::V) -> B::V>,
    ) -> (p: Mapped<P, F, B>)
        ensures
            p == (Mapped::<P, F, B> { inner: parser, f: map_fn, model }),
            p.wf() == (parser.wf() && computes::<P::Output, B, F>(map_fn, model@)),
            p.read_only() == parser.read_only(),
            forall|s: Session, cursor: usize| #[trigger]
                p.spec_parse(s, cursor) == spec_map(parser, model@, s, cursor),
    {
        Mapped { inner: parser, f: map_fn, model }
    }

    /// The parser that runs `parser1` and, where it fails, `parser2` from
    /// the same cursor. Both are read-only.
    pub fn alt2<P: Parse, Q: Parse<Output = P::Output>>(&self, parser1: P, parser2: Q) -> (p:
        Alt2<P, Q>)
        ensures
            p == (Alt2 { first: parser1, second: parser2 }),
            p.wf() == (parser1.wf() && parser2.wf() && parser1.read_only()
                && parser2.read_only()),
            p.read_only(),
            forall|s: Session, cursor: usize| #[trigger]
                p.spec_parse(s, cursor) == spec_alt2(parser1, parser2, s, cursor),
    {
        Alt2 { first: parser1, second: parser2 }
    }

    /// The parser that runs `parser1` and succeeds without a value where it
    /// fails. `parser1` is read-only.
    pub fn opt<P: Parse>(&self, parser1: P) -> (p: Opt<P>)
        ensures
            p == (Opt { inner: parser1 }),
            p.wf() == (parser1.wf() && parser1.read_only()),
            p.read_only(),
            forall|s: Session, cursor: usize| #[trigger]
                p.spec_parse(s, cursor) == spec_opt(parser1, s, cursor),
    {
        Opt { inner: parser1 }
    }

    /// The parser that runs `parser1`, `parser2` and `parser3` in a row and
    /// keeps the value of `parser2`.
    pub fn delimited<P: Parse, Q: Parse, R: Parse>(
        &self,
        parser1: P,
        parser2: Q,
        parser3: R,
    ) -> (p: Delimited<P, Q, R>)
        ensures
            p == (Delimited { open: parser1, body: parser2, close: parser3 }),
            p.wf() == (parser1.wf() && parser2.wf() && parser3.wf()),
            p.read_only() == (parser1.read_only() && parser2.read_only() && parser3.read_only()),
            forall|s: Session, cursor: usize| #[trigger]
                p.spec_parse(s, cursor) == spec_delimited(parser1, parser2, parser3, s, cursor),
    {
        Delimited { open: parser1, body: parser2, close: parser3 }
    }

    /// The parser that runs `parser1` and produces a clone of `val`.
    pub fn value<P: Parse, V: Clone + DeepView>(&self, parser1: P, val: V) -> (p: Value<P, V>)
        ensures
            p == (Value { inner: parser1, val }),
            p.wf() == (parser1.wf() && clones_alike(val)),
            p.read_only() == parser1.read_only(),
            forall|s: Session, cursor: usize| #[trigger]
                p.spec_parse(s, cursor) == spec_value(parser1, val, s, cursor),
    {
        Value { inner: parser1, val }
    }

    /// The parser that takes one character that is none of `charlist`.
    pub fn none_of(&self, charlist: String) -> (p: NoneOf)
        ensures
            p == (NoneOf { excluded: charlist }),
            p.wf(),
            p.read_only(),
            forall|s: Session, cursor: usize| #[trigger]
                p.spec_parse(s, cursor) == spec_none_of(charlist@, s, cursor),
    {
        NoneOf { excluded: charlist }
    }

    /// The parser that takes the text up to the first `substr`.
    pub fn take_until<'a>(&self, substr: &'a str) -> (p: TakeUntil<'a>)
        ensures
            p == (TakeUntil { needle: substr }),
            p.wf(),
            p.read_only(),
            forall|s: Session, cursor: usize| #[trigger]
                p.spec_parse(s, cursor) == spec_take_until(substr@, s, cursor),
    {
        TakeUntil { needle: substr }
    }

    /// The parser that takes the characters that `predicate` accepts, where
    /// they are at least `min` and at most `max`. Which characters
    /// `predicate` accepts is taken from its own contract.
    pub fn take_while_m_n<F: Fn(char) -> bool>(&self, min: usize, max: usize, predicate: F) -> (p:
        TakeWhileMN<F>)
        ensures
            p.min == min,
            p.max == max,
            p.keep == predicate,
            p.model@ == (|ch: char| accepts(predicate, ch)),
            p.wf() == decides(predicate),
            p.read_only(),
            forall|s: Session, cursor: usize| #[trigger]
                p.spec_parse(s, cursor) == spec_take_while_m_n(
                    min,
                    max,
                    |ch: char| accepts(predicate, ch),
                    s,
                    cursor,
                ),
    {
        proof {
            lemma_decides_answers(predicate);
        }
        self.take_while_m_n_as(min, max, predicate, Ghost(|ch: char| accepts(predicate, ch)))
    }

    /// The parser that takes the characters that `predicate` accepts, where
    /// they are at least `min` and at most `max`, and where `predicate`
    /// accepts the characters that `model` says.
    pub fn take_while_m_n_as<F: Fn(char) -> bool>(
        &self,
        min: usize,
        max: usize,
        predicate: F,
        model: Ghost<spec_fn(char) -> bool>,
    ) -> (p: TakeWhileMN<F>)
        ensures
            p == (TakeWhileMN { min, max, keep: predicate, model }),
            p.wf() == answers(predicate, model@),
            p.read_only(),
            forall|s: Session, cursor: usize| #[trigger]
                p.spec_parse(s, cursor) == spec_take_while_m_n(min, max, model@, s, cursor),
    {
        TakeWhileMN { min, max, keep: predicate, model }
    }

    /// The parser that expands the entity reference at the cursor.
    pub fn entityexpander(&self) -> (p: EntityExpander)
        ensures
            p.wf(),
            !p.read_only(),
            forall|s: Session, cursor: usize| #[trigger]
                p.spec_parse(s, cursor) == spec_entity_expander(s, cursor),
    {
        EntityExpander {  }
    }

    /// The parser that expands the entity reference at the cursor, put
    /// together from the parsers that recognise one.
    pub fn entityexpander2(&self) -> (p: Expand<
        Delimited<Tag<'static>, TakeUntil<'static>, Tag<'static>>,
    >)
        ensures
            p == (Expand { name: reference() }),
            p.wf(),
            !p.read_only(),
            forall|s: Session, cursor: usize| #[trigger]
                p.spec_parse(s, cursor) == spec_expand(reference(), s, cursor),
    {
        Expand { name: self.delimited(self.tag("&"), self.take_until(";"), self.tag(";")) }
    }
}

} // verus!
