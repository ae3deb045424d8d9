//! What a file holds: text, or bytes that are no text.

use vstd::prelude::*;
use vstd::utf8::{decode_utf8, encode_utf8, valid_utf8};
use crate::text::{lemma_decode_encoded, text_from_utf8};

verus! {

/// The content of one file.
#[derive(Debug, Clone, PartialEq, Eq)]
pub enum Content {
    /// The file decodes as UTF-8.
    Text(String),
    /// The file does not decode; its bytes are kept as they are.
    Binary(Vec<u8>),
}

/// The mathematical value of a [`Content`].
pub enum ContentView {
    Text(Seq<char>),
    Binary(Seq<u8>),
}

impl View for Content {
    type V = ContentView;

    open spec fn view(&self) -> ContentView {
        match self {
            Content::Text(s) => ContentView::Text(s@),
            Content::Binary(b) => ContentView::Binary(b@),
        }
    }
}

/// Bytes are text exactly when they are well-formed UTF-8.
pub open spec fn classify(bytes: Seq<u8>) -> ContentView {
    if valid_utf8(bytes) {
        ContentView::Text(decode_utf8(bytes))
    } else {
        ContentView::Binary(bytes)
    }
}

/// The bytes that a file with this content holds.
pub open spec fn bytes_of(content: ContentView) -> Seq<u8> {
    match content {
        ContentView::Text(s) => encode_utf8(s),
        ContentView::Binary(b) => b,
    }
}

impl Content {
    /// Reads the bytes of a file: text where they decode, binary otherwise.
    pub fn from_bytes(bytes: Vec<u8>) -> (content: Content)
        ensures
            content@ == classify(bytes@),
            bytes_of(content@) == bytes@,
    {
        match text_from_utf8(bytes.as_slice()) {
            Some(s) => {
                proof {
                    lemma_decode_encoded(s@);
                }
                Content::Text(s)
            },
            None => Content::Binary(bytes),
        }
    }

    /// Whether the content is text.
    pub fn is_text(&self) -> (r: bool)
        ensures
            r == (self@ is Text),
    {
        match self {
            Content::Text(_) => true,
            Content::Binary(_) => false,
        }
    }

    /// A copy of the content.
    pub fn duplicate(&self) -> (copy: Content)
        ensures
            copy@ == self@,
    {
        match self {
            Content::Text(s) => Content::Text(s.clone()),
            Content::Binary(b) => Content::Binary(b.clone()),
        }
    }

    /// The bytes to store in a file with this content.
    pub fn to_bytes(&self) -> (bytes: Vec<u8>)
        ensures
            bytes@ == bytes_of(self@),
    {
        match self {
            Content::Text(s) => s.as_str().as_bytes_vec(),
            Content::Binary(b) => b.clone(),
        }
    }
}

} // verus!
