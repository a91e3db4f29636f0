//! The parsing session, the shape of a parse result, and what it is to be a
//! parser.

use crate::entities::EntityTable;
use vstd::prelude::*;
use vstd::utf8::*;

verus! {

/// What every parser returns: on success the cursor after the match and the
/// value produced, on failure the cursor at which matching gave up.
pub type ParseResult<Output> = Result<(usize, Output), usize>;

/// One parsing session: the document that all cursors point into, and the
/// entities that may be expanded in it.
pub struct Parser {
    pub document: String,
    pub dtdgenentities: EntityTable,
}

/// A session as parsers see it: the document's bytes and the entity table.
pub struct Session {
    pub text: Seq<u8>,
    pub entities: Map<Seq<char>, Seq<char>>,
}

impl Session {
    /// This session with another document.
    pub open spec fn with_text(self, text: Seq<u8>) -> Session {
        Session { text, entities: self.entities }
    }

    /// The document is a text in UTF-8 that a machine can hold.
    pub open spec fn valid(self) -> bool {
        valid_utf8(self.text) && self.text.len() <= usize::MAX
    }
}

impl View for Parser {
    type V = Session;

    open spec fn view(&self) -> Session {
        Session { text: encode_utf8(self.document@), entities: self.dtdgenentities@ }
    }
}

impl Parser {
    /// The length of the document in bytes.
    pub fn text_len(&self) -> (len: usize)
        ensures
            len == self@.text.len(),
            self@.valid(),
    {
        proof {
            encode_utf8_valid_utf8(self.document@);
        }
        self.document.as_str().as_bytes().len()
    }
}

/// What running a parser comes to: the document it leaves behind, and its
/// result, with the value produced taken by its view.
pub struct Outcome<V> {
    pub text: Seq<u8>,
    pub result: Result<(usize, V), usize>,
}

/// A parse result with the value produced taken by its view.
pub open spec fn result_view<T: DeepView>(r: ParseResult<T>) -> Result<(usize, T::V), usize> {
    match r {
        Ok((next, value)) => Ok((next, value.deep_view())),
        Err(at) => Err(at),
    }
}

/// A parser: anything that can be run on a session from a cursor.
pub trait Parse {
    /// The type of the value produced on success.
    type Output: DeepView;

    /// What must hold of the parts of a parser for it to be run.
    spec fn wf(&self) -> bool;

    /// True of the parsers that leave the document as it is, whatever they
    /// return.
    spec fn read_only(&self) -> bool;

    /// The document left behind and the result of running this parser on
    /// session `s` from `cursor`.
    spec fn spec_parse(&self, s: Session, cursor: usize) -> Outcome<
        <Self::Output as DeepView>::V,
    >;

    /// A success never lies before the cursor it started from, a read-only
    /// parser leaves the document unchanged, and the document stays a text
    /// that a machine can hold.
    proof fn lemma_outcome(&self, s: Session, cursor: usize)
        requires
            self.wf(),
            s.valid(),
        ensures
            self.spec_parse(s, cursor).result matches Ok((next, _)) ==> cursor <= next,
            self.read_only() ==> self.spec_parse(s, cursor).text == s.text,
            s.with_text(self.spec_parse(s, cursor).text).valid(),
    ;

    /// Runs this parser on `session` from `cursor`.
    fn parse(&self, session: &mut Parser, cursor: usize) -> (r: ParseResult<Self::Output>)
        requires
            self.wf(),
        ensures
            final(session)@ == old(session)@.with_text(
                self.spec_parse(old(session)@, cursor).text,
            ),
            result_view(r) == self.spec_parse(old(session)@, cursor).result,
    ;
}

} // verus!
