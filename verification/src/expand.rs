//! Entity expansion: the parsers that rewrite the document. Where a
//! reference to a known entity stands at the cursor, its replacement text
//! is put in its place, and parsing goes on from the same cursor, through
//! the replacement text.
//!
//! Cursors taken before an expansion that lie behind the place of the
//! expansion no longer point where they did. So these parsers belong in
//! sequences and repetitions that walk forward, and not under `Alt2` or
//! `Opt`, which ask for read-only parsers.

use crate::primitives::{Tag, TakeUntil};
use crate::sequence::{spec_delimited, Delimited};
use crate::session::{Outcome, Parse, ParseResult, Parser, Session};
use crate::text::{
    can_splice, first_occurrence, lemma_boundary_in_bounds, lemma_encode_len,
    lemma_first_occurrence,
    lemma_occurrence_ends_on_boundary, lemma_occurrence_on_boundary, lemma_splice_valid,
    replace_range, splice,
};
use vstd::prelude::*;
use vstd::utf8::*;

verus! {

/// The parser that recognises a reference to an entity: `&`, the name of
/// the entity, `;`. It produces the name.
pub open spec fn reference() -> Delimited<Tag<'static>, TakeUntil<'static>, Tag<'static>> {
    Delimited {
        open: Tag { expected: "&" },
        body: TakeUntil { needle: ";" },
        close: Tag { expected: ";" },
    }
}

/// Expanding the entity reference at `cursor`: where a reference to an
/// entity of the table stands there, the document with the replacement
/// text in place of the reference, and a success at `cursor` with an empty
/// text; where the name is not in the table, or the document would grow
/// beyond what a machine can hold, the document as it is and a failure at
/// `cursor`; where no reference stands there, the document as it is and the
/// failure of the parser that recognises one.
pub open spec fn spec_entity_expander(s: Session, cursor: usize) -> Outcome<Seq<char>> {
    match reference().spec_parse(s, cursor).result {
        Err(at) => Outcome { text: s.text, result: Err(at) },
        Ok((end, name)) => {
            let with = encode_utf8(s.entities[name]);
            if s.entities.contains_key(name) && s.text.len() - (end - cursor) + with.len()
                <= usize::MAX {
                Outcome {
                    text: splice(s.text, cursor as int, end as int, with),
                    result: Ok((cursor, Seq::empty())),
                }
            } else {
                Outcome { text: s.text, result: Err(cursor) }
            }
        },
    }
}

/// Expanding what `name` recognises at `cursor` as a reference to the
/// entity that its value names: as `spec_entity_expander`, with `name` in
/// place of the parser that recognises a reference, and with a failure at
/// `cursor` as well where what `name` matched is not made of whole
/// characters from `cursor` on.
pub open spec fn spec_expand<P: Parse<Output = String>>(name: P, s: Session, cursor: usize) -> Outcome<
    Seq<char>,
> {
    match name.spec_parse(s, cursor).result {
        Err(at) => Outcome { text: s.text, result: Err(at) },
        Ok((end, found)) => {
            let with = encode_utf8(s.entities[found]);
            if s.entities.contains_key(found) && can_splice(
                s.text,
                cursor as int,
                end as int,
                with,
            ) {
                Outcome {
                    text: splice(s.text, cursor as int, end as int, with),
                    result: Ok((cursor, Seq::empty())),
                }
            } else {
                Outcome { text: s.text, result: Err(cursor) }
            }
        },
    }
}

/// A reference that is recognised at `cursor` is made of whole characters.
pub proof fn lemma_reference_span(s: Session, cursor: usize)
    requires
        s.valid(),
        reference().spec_parse(s, cursor).result is Ok,
    ensures
        cursor <= reference().spec_parse(s, cursor).result->Ok_0.0,
        is_char_boundary(s.text, cursor as int),
        is_char_boundary(s.text, reference().spec_parse(s, cursor).result->Ok_0.0 as int),
{
    reveal_strlit("&");
    reveal_strlit(";");
    let amp = encode_utf8("&"@);
    let semi = encode_utf8(";"@);
    lemma_encode_len("&"@);
    lemma_encode_len(";"@);
    encode_utf8_valid_utf8("&"@);
    encode_utf8_valid_utf8(";"@);
    lemma_occurrence_on_boundary(s.text, amp, cursor as int);
    lemma_occurrence_ends_on_boundary(s.text, amp, cursor as int);
    let name_at = cursor + amp.len();
    lemma_first_occurrence(s.text, semi, name_at);
    let semi_at = first_occurrence(s.text, semi, name_at)->0;
    lemma_occurrence_on_boundary(s.text, semi, semi_at);
    lemma_occurrence_ends_on_boundary(s.text, semi, semi_at);
}

/// Expands the entity reference at the cursor.
pub struct EntityExpander {}

impl Parse for EntityExpander {
    type Output = String;

    open spec fn wf(&self) -> bool {
        true
    }

    open spec fn read_only(&self) -> bool {
        false
    }

    open spec fn spec_parse(&self, s: Session, cursor: usize) -> Outcome<Seq<char>> {
        spec_entity_expander(s, cursor)
    }

    proof fn lemma_outcome(&self, s: Session, cursor: usize) {
        if let Ok((end, name)) = reference().spec_parse(s, cursor).result {
            let with = encode_utf8(s.entities[name]);
            lemma_reference_span(s, cursor);
            encode_utf8_valid_utf8(s.entities[name]);
            lemma_splice_valid(s.text, cursor as int, end as int, with);
        }
    }

    fn parse(&self, session: &mut Parser, cursor: usize) -> (r: ParseResult<String>) {
        let recognise = Delimited {
            open: Tag { expected: "&" },
            body: TakeUntil { needle: ";" },
            close: Tag { expected: ";" },
        };
        let _ = session.text_len();
        proof {
            recognise.lemma_outcome(session@, cursor);
        }
        match recognise.parse(session, cursor) {
            Err(at) => Err(at),
            Ok((end, name)) => {
                proof {
                    lemma_reference_span(session@, cursor);
                }
                match session.dtdgenentities.get(name.as_str()) {
                    None => Err(cursor),
                    Some(with) => {
                        proof {
                            lemma_boundary_in_bounds(session@.text, end as int);
                        }
                        if replace_range(&mut session.document, cursor, end, with.as_str()) {
                            Ok((cursor, String::new()))
                        } else {
                            Err(cursor)
                        }
                    },
                }
            },
        }
    }
}

/// Expands what a parser recognises as a reference to the entity that its
/// value names.
pub struct Expand<P> {
    pub name: P,
}

impl<P: Parse<Output = String>> Parse for Expand<P> {
    type Output = String;

    open spec fn wf(&self) -> bool {
        self.name.wf() && self.name.read_only()
    }

    open spec fn read_only(&self) -> bool {
        false
    }

    open spec fn spec_parse(&self, s: Session, cursor: usize) -> Outcome<Seq<char>> {
        spec_expand(self.name, s, cursor)
    }

    proof fn lemma_outcome(&self, s: Session, cursor: usize) {
        if let Ok((end, found)) = self.name.spec_parse(s, cursor).result {
            let with = encode_utf8(s.entities[found]);
            encode_utf8_valid_utf8(s.entities[found]);
            if can_splice(s.text, cursor as int, end as int, with) {
                lemma_splice_valid(s.text, cursor as int, end as int, with);
            }
        }
    }

    fn parse(&self, session: &mut Parser, cursor: usize) -> (r: ParseResult<String>) {
        let _ = session.text_len();
        proof {
            self.name.lemma_outcome(session@, cursor);
        }
        match self.name.parse(session, cursor) {
            Err(at) => Err(at),
            Ok((end, found)) => match session.dtdgenentities.get(found.as_str()) {
                None => Err(cursor),
                Some(with) => {
                    if replace_range(&mut session.document, cursor, end, with.as_str()) {
                        Ok((cursor, String::new()))
                    } else {
                        Err(cursor)
                    }
                },
            },
        }
    }
}

} // verus!
