//! The tokenizer: `quick_xml`'s pull reader over a document held in memory.
//!
//! Nothing in this file is proved. It states what the document tree
//! takes on trust from the tokenizer.

use quick_xml::events::{BytesStart, Event};
use quick_xml::Reader;
use vstd::prelude::*;

verus! {

/// `quick_xml::Reader`: the tokenizer's reader. Nothing of what it holds is
/// seen here but through the names below.
#[verifier::external_type_specification]
#[verifier::external_body]
#[verifier::reject_recursive_types(R)]
pub struct ExReader<R>(Reader<R>);

/// An attribute as the tokenizer read it: its name and its value as written,
/// or nothing where the attribute is malformed or repeats a name.
pub type RawAttribute = Option<(Vec<u8>, Vec<u8>)>;

/// One event of the tokenizer, with what this library reads of it.
pub enum Token {
    /// `<tag ...>`: the tag's name and its attributes.
    Start(Vec<u8>, Vec<RawAttribute>),
    /// `<tag .../>`: the tag's name and its attributes.
    Empty(Vec<u8>, Vec<RawAttribute>),
    /// `</tag>`: the tag's name.
    End(Vec<u8>),
    /// The text between two tags, as written.
    Text(Vec<u8>),
    /// A comment, a declaration, a processing instruction, a document type
    /// or a CDATA section.
    Other,
    /// The end of the document.
    Eof,
}

/// A `Token` as a value of specifications.
pub enum TokenView {
    Start(Seq<u8>, Seq<Option<(Seq<u8>, Seq<u8>)>>),
    Empty(Seq<u8>, Seq<Option<(Seq<u8>, Seq<u8>)>>),
    End(Seq<u8>),
    Text(Seq<u8>),
    Other,
    Eof,
}

/// Raw attributes as a value of specifications.
pub open spec fn raw_attributes_view(attributes: Seq<RawAttribute>) -> Seq<
    Option<(Seq<u8>, Seq<u8>)>,
> {
    Seq::new(
        attributes.len(),
        |i: int|
            match attributes[i] {
                Some(pair) => Some((pair.0@, pair.1@)),
                None => None,
            },
    )
}

impl View for Token {
    type V = TokenView;

    open spec fn view(&self) -> TokenView {
        match *self {
            Token::Start(name, attributes) => TokenView::Start(
                name@,
                raw_attributes_view(attributes@),
            ),
            Token::Empty(name, attributes) => TokenView::Empty(
                name@,
                raw_attributes_view(attributes@),
            ),
            Token::End(name) => TokenView::End(name@),
            Token::Text(text) => TokenView::Text(text@),
            Token::Other => TokenView::Other,
            Token::Eof => TokenView::Eof,
        }
    }
}

/// What the tokenizer returns when a reader over the document `source` is
/// asked for an event for the `n`-th time, counting from 0: the event, or
/// nothing where it reports an error.
pub uninterp spec fn token_at(source: Seq<u8>, n: nat) -> Option<TokenView>;

/// The document that a reader reads.
pub uninterp spec fn reader_source(reader: Reader<&[u8]>) -> Seq<u8>;

/// How often a reader has been asked for an event.
pub uninterp spec fn reader_polls(reader: Reader<&[u8]>) -> nat;

/// `quick_xml::Reader::from_reader`: a reader at the start of `source`, with
/// the settings that the tokenizer starts with.
#[verifier::external_body]
pub(crate) fn open_reader<'a>(source: &'a [u8]) -> (reader: Reader<&'a [u8]>)
    ensures
        reader_source(reader) == source@,
        reader_polls(reader) == 0,
{
    Reader::from_reader(source)
}

/// `quick_xml::Reader::read_event`: the reader's next event, or what the
/// tokenizer says of the markup that it rejects. Whether an event comes
/// back, and which, depends on the document and on how many events were
/// read before, and on nothing else.
#[verifier::external_body]
pub(crate) fn next_token(reader: &mut Reader<&[u8]>) -> (r: Result<Token, String>)
    ensures
        reader_source(*final(reader)) == reader_source(*old(reader)),
        reader_polls(*final(reader)) == reader_polls(*old(reader)) + 1,
        match token_at(reader_source(*old(reader)), reader_polls(*old(reader))) {
            Some(token) => r matches Ok(t) && t@ == token,
            None => r is Err,
        },
{
    let own = |e: &BytesStart| e.attributes().map(
        |a| a.ok().map(|a| (a.key.0.to_vec(), a.value.to_vec())),
    ).collect();
    Ok(match reader.read_event().map_err(|e| e.to_string())? {
        Event::Start(e) => Token::Start(e.name().0.to_vec(), own(&e)),
        Event::Empty(e) => Token::Empty(e.name().0.to_vec(), own(&e)),
        Event::End(e) => Token::End(e.name().0.to_vec()),
        Event::Text(e) => Token::Text(e.to_vec()),
        Event::Eof => Token::Eof,
        _ => Token::Other,
    })
}

} // verus!
