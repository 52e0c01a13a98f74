//! The XML tokenizer: quick_xml's pull reader behind a trusted wrapper that
//! hands out the library's own tokens and logs, in ghost state, exactly the
//! tokens it has produced.

use vstd::prelude::*;
use crate::token::Token;
use quick_xml::events::Event;

verus! {

#[verifier::external_type_specification]
#[verifier::external_body]
#[verifier::reject_recursive_types(R)]
/// Declares quick_xml's pull reader type.
pub struct ExReader<R>(quick_xml::Reader<R>);

#[verifier::external_type_specification]
#[verifier::external_body]
/// Declares quick_xml's general-reference event type.
pub struct ExBytesRef<'a>(quick_xml::events::BytesRef<'a>);

/// Relies on BytesRef::resolve_char_ref: a character reference resolves to
/// its character (or fails as malformed); any other reference is a named
/// entity, handed on by name for the scanner to resolve.
#[verifier::external_body]
fn ref_token(e: quick_xml::events::BytesRef<'_>) -> Token {
    match e.resolve_char_ref() {
        Ok(Some(c)) => Token::Text(c.to_string()),
        Ok(None) => Token::Ref(e.xml10_content().into_owned()),
        Err(err) => Token::Malformed(err.to_string()),
    }
}

/// A pull tokenizer over an in-memory document, producing one `Token` per
/// call. `tokens` is the sequence of every token handed out so far.
pub struct Tokenizer<'a> {
    /// The underlying pull reader.
    pub reader: quick_xml::Reader<&'a [u8]>,
    /// The reusable event buffer.
    pub buf: Vec<u8>,
    /// Every token this tokenizer has produced, in order.
    pub tokens: Ghost<Seq<Token>>,
    /// An upper bound on how many more ordinary tokens can come: the input
    /// is finite, so after finitely many tokens only `Eof` or `Malformed`
    /// is left.
    pub fuel: Ghost<nat>,
}

/// Relies on quick_xml::Reader::from_reader: a fresh reader positioned at
/// the start of the document.
#[verifier::external_body]
fn reader_from_bytes<'a>(input: &'a [u8]) -> quick_xml::Reader<&'a [u8]> {
    quick_xml::Reader::from_reader(input)
}

impl<'a> Tokenizer<'a> {
    /// A tokenizer positioned at the start of `input`.
    pub fn new(input: &'a [u8]) -> (t: Tokenizer<'a>)
        ensures
            t.tokens@ == Seq::<Token>::empty(),
    {
        Tokenizer {
            reader: reader_from_bytes(input),
            buf: Vec::new(),
            tokens: Ghost(Seq::empty()),
            fuel: Ghost(arbitrary()),
        }
    }

    /// Relies on quick_xml::Reader::read_event_into: the next structural
    /// event of the document, decoded to a plain token. Element names are
    /// handed on as text; text events carry the event's content with
    /// end-of-line normalization; character references are resolved to
    /// their character by BytesRef::resolve_char_ref and named entity
    /// references are handed on by name; after the document's end every
    /// call returns `Eof`; a parse failure becomes `Malformed` with the
    /// reader's message. Nothing is promised about which token comes back,
    /// but the input is a finite slice and every token other than `Eof` and
    /// `Malformed` consumes part of it, so `fuel` bounds the ordinary
    /// tokens still to come.
    #[verifier::external_body]
    pub fn next(&mut self) -> (t: Token)
        ensures
            final(self).tokens@ == old(self).tokens@.push(t),
            final(self).fuel@ <= old(self).fuel@,
            !(t is Eof) && !(t is Malformed) ==> final(self).fuel@ < old(self).fuel@,
    {
        self.buf.clear();
        match self.reader.read_event_into(&mut self.buf) {
            Ok(Event::Start(e)) => Token::Open(e.name().as_ref().to_string()),
            Ok(Event::End(e)) => Token::Close(e.name().as_ref().to_string()),
            Ok(Event::Text(e)) => Token::Text(e.xml10_content().into_owned()),
            Ok(Event::GeneralRef(e)) => ref_token(e),
            Ok(Event::Eof) => Token::Eof,
            Ok(_) => Token::Skip,
            Err(e) => Token::Malformed(e.to_string()),
        }
    }
}

} // verus!
