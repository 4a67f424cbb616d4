use vstd::prelude::*;
use vstd::string::StringSliceAdditionalSpecFns;

use crate::parse::{content_range_total_spec, parse_content_range_total, parse_u64_bytes,
    parse_u64_spec};

verus! {

/// The origin-response headers this core reads, each as the header's value
/// when the header is present. A value whose bytes cannot be read as a
/// string is handed over as the empty string, which no numeral grammar here
/// accepts, so it decides exactly as an unreadable value does.
pub struct OriginHeaders {
    /// The `Content-Type` value.
    pub content_type: Option<String>,
    /// The `Content-Range` value.
    pub content_range: Option<String>,
    /// The `Content-Length` value.
    pub content_length: Option<String>,
}

/// Ghost image of `OriginHeaders`: the content type as its characters, the
/// two parsed values as their UTF-8 bytes.
pub struct HeadersView {
    pub content_type: Option<Seq<char>>,
    pub content_range: Option<Seq<u8>>,
    pub content_length: Option<Seq<u8>>,
}

impl View for OriginHeaders {
    type V = HeadersView;

    open spec fn view(&self) -> HeadersView {
        HeadersView {
            content_type: match self.content_type {
                Some(s) => Some(s@),
                None => None,
            },
            content_range: match self.content_range {
                Some(s) => Some(vstd::utf8::encode_utf8(s@)),
                None => None,
            },
            content_length: match self.content_length {
                Some(s) => Some(vstd::utf8::encode_utf8(s@)),
                None => None,
            },
        }
    }
}

/// The resource total a response's headers declare: the total component of
/// `Content-Range` when it reads as a number, else the `Content-Length`
/// value when it reads as a number, else nothing.
pub open spec fn total_size_spec(h: HeadersView) -> Option<u64> {
    let from_range = match h.content_range {
        Some(cr) => content_range_total_spec(cr),
        None => None,
    };
    match from_range {
        Some(t) => Some(t),
        None => match h.content_length {
            Some(cl) => parse_u64_spec(cl),
            None => None,
        },
    }
}

/// Reads the full resource size a response declares, preferring the total of
/// its `Content-Range` over its `Content-Length`.
pub fn get_total_size(headers: &OriginHeaders) -> (r: Option<u64>)
    ensures
        r == total_size_spec(headers@),
{
    match &headers.content_range {
        Some(cr) => {
            match parse_content_range_total(cr.as_str()) {
                Some(t) => {
                    return Some(t);
                },
                None => {},
            }
        },
        None => {},
    }
    match &headers.content_length {
        Some(cl) => parse_u64_bytes(cl.as_str().as_bytes()),
        None => None,
    }
}

/// Whether a body of `len` accumulated bytes is the whole resource: a
/// present `Content-Range` decides (complete iff `len` equals its total,
/// never complete when the total cannot be read); else a readable
/// `Content-Length` decides; with neither signal the body is presumed
/// complete.
pub open spec fn response_complete_spec(h: HeadersView, len: u64) -> bool {
    match h.content_range {
        Some(cr) => match content_range_total_spec(cr) {
            Some(t) => len == t,
            None => false,
        },
        None => match h.content_length {
            Some(cl) => match parse_u64_spec(cl) {
                Some(l) => len == l,
                None => true,
            },
            None => true,
        },
    }
}

/// Decides whether a response whose body accumulated `content_length` bytes
/// delivered the whole resource, from its headers alone.
pub fn check_response_complete(headers: &OriginHeaders, content_length: u64) -> (complete: bool)
    ensures
        complete == response_complete_spec(headers@, content_length),
{
    match &headers.content_range {
        Some(cr) => {
            match parse_content_range_total(cr.as_str()) {
                Some(t) => content_length == t,
                None => false,
            }
        },
        None => {
            match &headers.content_length {
                Some(cl) => {
                    match parse_u64_bytes(cl.as_str().as_bytes()) {
                        Some(l) => content_length == l,
                        None => true,
                    }
                },
                None => true,
            }
        },
    }
}

} // verus!
