//! The parsers that look at the document itself.

use crate::session::{Outcome, Parse, ParseResult, Parser, Session};
use crate::text::{
    char_at, find_from, first_occurrence, lemma_boundary_after_char, lemma_boundary_in_bounds,
    lemma_encode_concat,
    lemma_first_occurrence, lemma_occurrence_on_boundary, occurs_at, slice, starts_at, width_at,
};
use vstd::prelude::*;
use vstd::std_specs::iter::IteratorSpec;
use vstd::utf8::*;

verus! {

/// Matching the literal `expected` at `cursor`: a success just past it where
/// the document holds its bytes there, a failure at `cursor` elsewhere.
pub open spec fn spec_tag(expected: Seq<char>, s: Session, cursor: usize) -> Outcome<()> {
    let needle = encode_utf8(expected);
    Outcome {
        text: s.text,
        result: if occurs_at(s.text, needle, cursor as int) {
            Ok(((cursor + needle.len()) as usize, ()))
        } else {
            Err(cursor)
        },
    }
}

/// Matches a literal.
pub struct Tag<'a> {
    pub expected: &'a str,
}

impl<'a> Parse for Tag<'a> {
    type Output = ();

    open spec fn wf(&self) -> bool {
        true
    }

    open spec fn read_only(&self) -> bool {
        true
    }

    open spec fn spec_parse(&self, s: Session, cursor: usize) -> Outcome<()> {
        spec_tag(self.expected@, s, cursor)
    }

    proof fn lemma_outcome(&self, s: Session, cursor: usize) {
    }

    fn parse(&self, session: &mut Parser, cursor: usize) -> (r: ParseResult<()>) {
        let text = session.document.as_str().as_bytes();
        let needle = self.expected.as_bytes();
        if starts_at(text, needle, cursor) {
            let _ = text.len();
            Ok((cursor + needle.len(), ()))
        } else {
            Err(cursor)
        }
    }
}

/// Taking the text from `cursor` up to the first occurrence of `needle` at
/// or after it: a success at the start of that occurrence, with the text
/// before it; a failure at `cursor` where `needle` does not occur, or where
/// no character begins at `cursor`.
pub open spec fn spec_take_until(needle: Seq<char>, s: Session, cursor: usize) -> Outcome<
    Seq<char>,
> {
    Outcome {
        text: s.text,
        result: if is_char_boundary(s.text, cursor as int) {
            match first_occurrence(s.text, encode_utf8(needle), cursor as int) {
                Some(at) => Ok((at as usize, decode_utf8(s.text.subrange(cursor as int, at)))),
                None => Err(cursor),
            }
        } else {
            Err(cursor)
        },
    }
}

/// Takes the text up to a substring.
pub struct TakeUntil<'a> {
    pub needle: &'a str,
}

impl<'a> Parse for TakeUntil<'a> {
    type Output = String;

    open spec fn wf(&self) -> bool {
        true
    }

    open spec fn read_only(&self) -> bool {
        true
    }

    open spec fn spec_parse(&self, s: Session, cursor: usize) -> Outcome<Seq<char>> {
        spec_take_until(self.needle@, s, cursor)
    }

    proof fn lemma_outcome(&self, s: Session, cursor: usize) {
        lemma_first_occurrence(s.text, encode_utf8(self.needle@), cursor as int);
    }

    fn parse(&self, session: &mut Parser, cursor: usize) -> (r: ParseResult<String>) {
        let doc = session.document.as_str();
        let ghost text = encode_utf8(doc@);
        let ghost needle = encode_utf8(self.needle@);
        if !doc.is_char_boundary(cursor) {
            return Err(cursor);
        }
        match find_from(doc.as_bytes(), self.needle.as_bytes(), cursor) {
            None => Err(cursor),
            Some(at) => {
                proof {
                    lemma_first_occurrence(text, needle, cursor as int);
                    encode_utf8_valid_utf8(doc@);
                    encode_utf8_valid_utf8(self.needle@);
                    if needle.len() > 0 {
                        lemma_occurrence_on_boundary(text, needle, at as int);
                    } else {
                        assert(text.subrange(cursor as int, cursor as int) =~= needle);
                    }
                }
                match slice(doc, cursor, at) {
                    Some(piece) => Ok((at, piece.to_owned())),
                    None => Err(cursor),
                }
            },
        }
    }
}

/// Taking one character at `cursor` unless it is one of `excluded`: a
/// success just past the character, with it as a text; a failure at `cursor`
/// where the document ends, where no character begins, or where the
/// character is excluded.
pub open spec fn spec_none_of(excluded: Seq<char>, s: Session, cursor: usize) -> Outcome<
    Seq<char>,
> {
    Outcome {
        text: s.text,
        result: if cursor < s.text.len() && is_char_boundary(s.text, cursor as int)
            && !excluded.contains(char_at(s.text, cursor as int)) {
            Ok(
                (
                    (cursor + width_at(s.text, cursor as int)) as usize,
                    seq![char_at(s.text, cursor as int)],
                ),
            )
        } else {
            Err(cursor)
        },
    }
}

/// Tells whether `ch` is one of the characters of `set`.
pub fn has_char(set: &str, ch: char) -> (found: bool)
    ensures
        found == set@.contains(ch),
{
    let mut chars = set.chars();
    let ghost mut seen: int = 0;
    proof {
        assert(set@.skip(0) =~= set@);
    }
    loop
        invariant
            0 <= seen <= set@.len(),
            chars.remaining() == set@.skip(seen),
            forall|k: int| 0 <= k < seen ==> set@[k] != ch,
        decreases set@.len() - seen,
    {
        broadcast use vstd::string::group_string_axioms;

        match chars.next() {
            None => {
                return false;
            },
            Some(next) => {
                assert(next == set@.skip(seen)[0]);
                assert(set@.skip(seen).drop_first() =~= set@.skip(seen + 1));
                if next == ch {
                    return true;
                }
                proof {
                    seen = seen + 1;
                }
            },
        }
    }
}

/// Takes one character outside a set.
pub struct NoneOf {
    pub excluded: String,
}

impl Parse for NoneOf {
    type Output = String;

    open spec fn wf(&self) -> bool {
        true
    }

    open spec fn read_only(&self) -> bool {
        true
    }

    open spec fn spec_parse(&self, s: Session, cursor: usize) -> Outcome<Seq<char>> {
        spec_none_of(self.excluded@, s, cursor)
    }

    proof fn lemma_outcome(&self, s: Session, cursor: usize) {
        if cursor < s.text.len() && is_char_boundary(s.text, cursor as int) {
            lemma_boundary_after_char(s.text, cursor as int);
        }
    }

    fn parse(&self, session: &mut Parser, cursor: usize) -> (r: ParseResult<String>) {
        let doc = session.document.as_str();
        let ghost text = encode_utf8(doc@);
        if cursor >= doc.as_bytes().len() || !doc.is_char_boundary(cursor) {
            return Err(cursor);
        }
        let (_, rest) = doc.split_at(cursor);
        proof {
            encode_utf8_valid_utf8(doc@);
            lemma_boundary_after_char(text, cursor as int);
            encode_utf8_first_scalar(rest@);
            char_u32_cast(rest@[0], decode_first_scalar(encode_utf8(rest@)));
        }
        let ch = rest.get_char(0);
        if has_char(self.excluded.as_str(), ch) {
            return Err(cursor);
        }
        let unit = rest.substring_char(0, 1);
        proof {
            reveal_with_fuel(encode_utf8, 2);
            assert(unit@ =~= seq![ch]);
            assert(encode_utf8(unit@) =~= encode_scalar(ch as u32));
        }
        let width = unit.len();
        Ok((cursor + width, unit.to_owned()))
    }
}

/// The predicate `keep` can answer that it accepts the character `ch`.
pub open spec fn accepts<F: Fn(char) -> bool>(keep: F, ch: char) -> bool {
    keep.ensures((ch,), true)
}

/// The predicate `keep` can be asked of every character, and answers one way.
pub open spec fn decides<F: Fn(char) -> bool>(keep: F) -> bool {
    forall|ch: char|
        #[trigger] keep.requires((ch,)) && !(keep.ensures((ch,), true) && keep.ensures(
            (ch,),
            false,
        ))
}

/// The predicate `keep` can be asked of every character, and answers as
/// `model` says.
pub open spec fn answers<F: Fn(char) -> bool>(keep: F, model: spec_fn(char) -> bool) -> bool {
    &&& forall|ch: char| keep.requires((ch,))
    &&& forall|ch: char, kept: bool| #[trigger] keep.ensures((ch,), kept) ==> kept == model(ch)
}

/// A predicate answers as its own contract says exactly where it answers
/// one way.
pub proof fn lemma_decides_answers<F: Fn(char) -> bool>(keep: F)
    ensures
        decides(keep) <==> answers(keep, |ch: char| accepts(keep, ch)),
{
    let model = |ch: char| accepts(keep, ch);
    if decides(keep) {
        assert forall|ch: char, kept: bool| #[trigger] keep.ensures((ch,), kept) implies kept
            == model(ch) by {
            assert(keep.requires((ch,)));
        }
    }
    if answers(keep, model) {
        assert forall|ch: char|
            #[trigger] keep.requires((ch,)) && !(keep.ensures((ch,), true) && keep.ensures(
                (ch,),
                false,
            )) by {
            if keep.ensures((ch,), true) && keep.ensures((ch,), false) {
                assert(false == model(ch));
            }
        }
    }
}

/// The number of characters at the start of `chars` that `keep` accepts,
/// up to the first that it does not accept.
pub open spec fn run_length(chars: Seq<char>, keep: spec_fn(char) -> bool) -> nat
    decreases chars.len(),
{
    if chars.len() > 0 && keep(chars[0]) {
        1 + run_length(chars.drop_first(), keep)
    } else {
        0
    }
}

/// Taking the characters from `cursor` on that `keep` accepts, up to the
/// first that it does not accept or to the end of the document: a success
/// just past them, with them as a text, where their number is at least
/// `min` and at most `max`; a failure at `cursor` elsewhere, and where no
/// character begins at `cursor`.
pub open spec fn spec_take_while_m_n(
    min: usize,
    max: usize,
    keep: spec_fn(char) -> bool,
    s: Session,
    cursor: usize,
) -> Outcome<Seq<char>> {
    let rest = decode_utf8(s.text.subrange(cursor as int, s.text.len() as int));
    let count = run_length(rest, keep);
    let taken = rest.take(count as int);
    Outcome {
        text: s.text,
        result: if is_char_boundary(s.text, cursor as int) && min <= count <= max {
            Ok(((cursor + encode_utf8(taken).len()) as usize, taken))
        } else {
            Err(cursor)
        },
    }
}

/// The run that `keep` accepts at the start of `chars` is no longer than
/// `chars`.
pub proof fn lemma_run_length(chars: Seq<char>, keep: spec_fn(char) -> bool)
    ensures
        run_length(chars, keep) <= chars.len(),
    decreases chars.len(),
{
    if chars.len() > 0 && keep(chars[0]) {
        lemma_run_length(chars.drop_first(), keep);
    }
}

/// Takes a run of characters of bounded length. `model` says which
/// characters the predicate accepts.
pub struct TakeWhileMN<F> {
    pub min: usize,
    pub max: usize,
    pub keep: F,
    pub model: Ghost<spec_fn(char) -> bool>,
}

impl<F: Fn(char) -> bool> Parse for TakeWhileMN<F> {
    type Output = String;

    open spec fn wf(&self) -> bool {
        answers(self.keep, self.model@)
    }

    open spec fn read_only(&self) -> bool {
        true
    }

    open spec fn spec_parse(&self, s: Session, cursor: usize) -> Outcome<Seq<char>> {
        spec_take_while_m_n(self.min, self.max, self.model@, s, cursor)
    }

    proof fn lemma_outcome(&self, s: Session, cursor: usize) {
        if is_char_boundary(s.text, cursor as int) {
            lemma_boundary_in_bounds(s.text, cursor as int);
            let tail = s.text.subrange(cursor as int, s.text.len() as int);
            let rest = decode_utf8(tail);
            let count = run_length(rest, self.model@);
            lemma_run_length(rest, self.model@);
            valid_utf8_split(s.text, cursor as int);
            decode_utf8_encode_utf8(tail);
            lemma_encode_concat(rest.take(count as int), rest.skip(count as int));
            assert(rest.take(count as int) + rest.skip(count as int) =~= rest);
        }
    }

    fn parse(&self, session: &mut Parser, cursor: usize) -> (r: ParseResult<String>)
        ensures
            match r {
                Ok((next, taken)) => spec_take_while_m_n(
                    self.min,
                    self.max,
                    self.model@,
                    old(session)@,
                    cursor,
                ).result == Ok::<(usize, Seq<char>), usize>((next, taken@)),
                Err(at) => spec_take_while_m_n(
                    self.min,
                    self.max,
                    self.model@,
                    old(session)@,
                    cursor,
                ).result == Err::<(usize, Seq<char>), usize>(at),
            },
    {
        let doc = session.document.as_str();
        let ghost text = encode_utf8(doc@);
        let len = doc.as_bytes().len();
        if !doc.is_char_boundary(cursor) {
            return Err(cursor);
        }
        proof {
            encode_utf8_valid_utf8(doc@);
            lemma_boundary_in_bounds(text, cursor as int);
        }
        let (_, rest) = doc.split_at(cursor);
        proof {
            encode_utf8_decode_utf8(rest@);
            lemma_run_length(rest@, self.model@);
        }
        match count_run(rest, &self.keep, self.max, self.model) {
            None => Err(cursor),
            Some(count) => {
                if count < self.min {
                    return Err(cursor);
                }
                let taken = rest.substring_char(0, count);
                proof {
                    lemma_encode_concat(rest@.take(count as int), rest@.skip(count as int));
                    assert(rest@.take(count as int) + rest@.skip(count as int) =~= rest@);
                    assert(taken@ =~= rest@.take(count as int));
                }
                let width = taken.as_bytes().len();
                Ok((cursor + width, taken.to_owned()))
            },
        }
    }
}

/// Counts the characters at the start of `rest` that `keep` accepts, and
/// gives up where they are more than `max`.
fn count_run<F: Fn(char) -> bool>(
    rest: &str,
    keep: &F,
    max: usize,
    Ghost(model): Ghost<spec_fn(char) -> bool>,
) -> (counted: Option<usize>)
    requires
        answers(*keep, model),
    ensures
        match counted {
            Some(count) => count == run_length(rest@, model) && count <= max,
            None => run_length(rest@, model) > max,
        },
{
    let mut chars = rest.chars();
    let mut count: usize = 0;
    proof {
        assert(rest@.skip(0) =~= rest@);
    }
    loop
        invariant
            answers(*keep, model),
            chars.remaining() == rest@.skip(count as int),
            run_length(rest@, model) == count + run_length(rest@.skip(count as int), model),
            count <= rest@.len(),
            count <= max,
        decreases rest@.len() - count,
    {
        broadcast use vstd::string::group_string_axioms;

        match chars.next() {
            None => {
                return Some(count);
            },
            Some(ch) => {
                assert(ch == rest@.skip(count as int)[0]);
                assert(rest@.skip(count as int).drop_first() =~= rest@.skip(count + 1));
                if !keep(ch) {
                    return Some(count);
                }
                if count == max {
                    return None;
                }
                count += 1;
            },
        }
    }
}

} // verus!
