//! Normalisation of a response head for the HTTP/2 wire.
use vstd::prelude::*;

use crate::headers::{
    ascii_lower, has_name, lemma_has_name_values, lemma_push_values, lemma_without_has, lemma_without_values,
    values_of, with_value, without, Entries, HeaderMap,
};
use crate::text::{decimal, decimal_string};

verus! {

/// How much body a response carries.
#[derive(Debug, Clone, Copy, PartialEq, Eq, Structural)]
pub enum BodySize {
    /// No body may be sent.
    NoBody,
    /// A body of length zero.
    Empty,
    /// A body of exactly this many bytes.
    Sized(u64),
    /// A body of unknown length, streamed until it ends.
    Stream,
}

impl BodySize {
    /// Whether nothing follows the head.
    pub open spec fn spec_is_eof(self) -> bool {
        self is NoBody || self is Empty || self == BodySize::Sized(0)
    }

    /// Whether nothing follows the head: no body, an empty one, or a sized one of zero bytes.
    pub fn is_eof(&self) -> (r: bool)
        ensures
            r == self.spec_is_eof(),
    {
        match self {
            BodySize::NoBody | BodySize::Empty | BodySize::Sized(0) => true,
            _ => false,
        }
    }
}

/// The status and headers of a response.
#[derive(Debug, Clone)]
pub struct ResponseHead {
    pub status: u16,
    pub headers: HeaderMap,
}

pub open spec fn content_length() -> Seq<char> {
    ascii_lower("content-length"@)
}

pub open spec fn connection() -> Seq<char> {
    ascii_lower("connection"@)
}

pub open spec fn transfer_encoding() -> Seq<char> {
    ascii_lower("transfer-encoding"@)
}

pub open spec fn date() -> Seq<char> {
    ascii_lower("date"@)
}

/// Statuses whose responses never carry a body: 204, 100 and 102.
pub open spec fn bodiless_status(status: u16) -> bool {
    status == 204 || status == 100 || status == 102
}

/// The body size once the status has had its say.
pub open spec fn prepared_size(status: u16, size: BodySize) -> BodySize {
    if bodiless_status(status) {
        BodySize::NoBody
    } else if status == 101 {
        BodySize::Stream
    } else {
        size
    }
}

/// Whether no content-length is written: switching protocols, or a streamed body.
pub open spec fn skip_length(status: u16, size: BodySize) -> bool {
    status == 101 || size is Stream
}

/// The headers after the content-length rules: any content-length the head
/// carried is dropped, and one is written only for an empty or sized body.
pub open spec fn length_headers(h: Entries, status: u16, size: BodySize) -> Entries {
    let base = without(h, content_length());
    match prepared_size(status, size) {
        BodySize::Empty => with_value(base, content_length(), "0"@),
        BodySize::Sized(n) => if skip_length(status, size) {
            base
        } else {
            with_value(base, content_length(), decimal(n as nat))
        },
        _ => base,
    }
}

/// The headers of a prepared response: content-length set by the body size,
/// connection and transfer-encoding removed, and `date_value` added as the
/// date unless a date is present.
pub open spec fn prepared_headers(
    h: Entries,
    status: u16,
    size: BodySize,
    date_value: Seq<char>,
) -> Entries {
    let l = length_headers(h, status, size);
    let c = without(without(l, connection()), transfer_encoding());
    if has_name(c, date()) {
        c
    } else {
        c.push((date(), date_value))
    }
}

/// Makes a response head legal on an HTTP/2 stream: fixes the body size for
/// the status, writes or drops content-length, drops the headers that HTTP/2
/// forbids, and adds a date from `date_value` where the head has none.
pub fn prepare_response(date_value: &String, head: &mut ResponseHead, size: &mut BodySize)
    ensures
        final(head).status == old(head).status,
        *final(size) == prepared_size(old(head).status, *old(size)),
        final(head).headers@ == prepared_headers(
            old(head).headers@,
            old(head).status,
            *old(size),
            date_value@,
        ),
{
    let mut skip_len = match size {
        BodySize::Stream => true,
        _ => false,
    };
    let status = head.status;
    head.headers.remove("content-length");
    if status == 204 || status == 100 || status == 102 {
        *size = BodySize::NoBody;
    } else if status == 101 {
        skip_len = true;
        *size = BodySize::Stream;
    }
    proof {
        reveal_strlit("content-length");
        reveal_strlit("connection");
        reveal_strlit("transfer-encoding");
        reveal_strlit("date");
        reveal_strlit("0");
    }
    match *size {
        BodySize::Empty => {
            head.headers.insert("content-length", String::from_str("0"));
        },
        BodySize::Sized(len) => {
            if !skip_len {
                head.headers.insert("content-length", decimal_string(len));
            }
        },
        _ => {},
    }
    head.headers.remove("connection");
    head.headers.remove("transfer-encoding");
    if !head.headers.contains_key("date") {
        head.headers.append("date", date_value.clone());
    }
}

/// The header names that the preparer touches are distinct.
proof fn lemma_names_distinct()
    ensures
        content_length() != connection(),
        content_length() != transfer_encoding(),
        content_length() != date(),
        connection() != transfer_encoding(),
        connection() != date(),
        transfer_encoding() != date(),
        "0"@ == seq!['0'],
{
    reveal_strlit("content-length");
    reveal_strlit("connection");
    reveal_strlit("transfer-encoding");
    reveal_strlit("date");
    reveal_strlit("0");
    assert("content-length"@.len() == 14);
    assert("connection"@.len() == 10);
    assert("transfer-encoding"@.len() == 17);
    assert("date"@.len() == 4);
    assert(content_length().len() == 14);
    assert(connection().len() == 10);
    assert(transfer_encoding().len() == 17);
    assert(date().len() == 4);
}

/// A response whose status forbids a body ends up with no body and no
/// content-length header, whatever size was reported or header was set.
pub proof fn lemma_bodiless_status(h: Entries, status: u16, size: BodySize, date_value: Seq<char>)
    requires
        bodiless_status(status),
    ensures
        prepared_size(status, size) == BodySize::NoBody,
        !has_name(prepared_headers(h, status, size, date_value), content_length()),
{
    lemma_no_length_without_size(h, status, size, date_value);
}

/// Where the prepared body has no size of its own (none, or streamed), no
/// content-length header remains, even one the head already carried.
pub proof fn lemma_no_length_without_size(
    h: Entries,
    status: u16,
    size: BodySize,
    date_value: Seq<char>,
)
    requires
        prepared_size(status, size) is NoBody || prepared_size(status, size) is Stream,
    ensures
        !has_name(prepared_headers(h, status, size, date_value), content_length()),
{
    lemma_names_distinct();
    lemma_without_has(h, content_length(), content_length());
    let l = length_headers(h, status, size);
    let c1 = without(l, connection());
    let c = without(c1, transfer_encoding());
    lemma_without_has(l, connection(), content_length());
    lemma_without_has(c1, transfer_encoding(), content_length());
    lemma_has_name_values(c, content_length());
    lemma_has_name_values(c.push((date(), date_value)), content_length());
    lemma_push_values(c, (date(), date_value), content_length());
}

/// A switching-protocols response streams its body and never carries
/// content-length, even where the head had one.
pub proof fn lemma_switching_protocols(h: Entries, size: BodySize, date_value: Seq<char>)
    ensures
        prepared_size(101, size) == BodySize::Stream,
        !has_name(prepared_headers(h, 101, size, date_value), content_length()),
{
    lemma_no_length_without_size(h, 101, size, date_value);
}

/// A sized body that is not exempt from content-length gets exactly one
/// content-length header, holding the byte count in decimal.
pub proof fn lemma_sized_content_length(h: Entries, status: u16, n: u64, date_value: Seq<char>)
    requires
        prepared_size(status, BodySize::Sized(n)) == BodySize::Sized(n),
        !skip_length(status, BodySize::Sized(n)),
    ensures
        values_of(prepared_headers(h, status, BodySize::Sized(n), date_value), content_length())
            == seq![decimal(n as nat)],
{
    lemma_names_distinct();
    let b = without(h, content_length());
    let w = without(b, content_length());
    let l = length_headers(h, status, BodySize::Sized(n));
    assert(l == w.push((content_length(), decimal(n as nat))));
    lemma_without_values(b, content_length(), content_length());
    lemma_push_values(w, (content_length(), decimal(n as nat)), content_length());
    assert(Seq::<Seq<char>>::empty().push(decimal(n as nat)) =~= seq![decimal(n as nat)]);
    let c1 = without(l, connection());
    let c = without(c1, transfer_encoding());
    lemma_without_values(l, connection(), content_length());
    lemma_without_values(c1, transfer_encoding(), content_length());
    lemma_push_values(c, (date(), date_value), content_length());
}

/// A date header that the head already has is never replaced.
pub proof fn lemma_date_kept(h: Entries, status: u16, size: BodySize, date_value: Seq<char>)
    requires
        has_name(h, date()),
    ensures
        values_of(prepared_headers(h, status, size, date_value), date()) == values_of(h, date()),
{
    lemma_names_distinct();
    let base = without(h, content_length());
    lemma_without_values(h, content_length(), date());
    let l = length_headers(h, status, size);
    lemma_without_values(base, content_length(), date());
    lemma_push_values(without(base, content_length()), (content_length(), "0"@), date());
    match prepared_size(status, size) {
        BodySize::Sized(n) => {
            lemma_push_values(
                without(base, content_length()),
                (content_length(), decimal(n as nat)),
                date(),
            );
        },
        _ => {},
    }
    assert(values_of(l, date()) == values_of(h, date()));
    let c1 = without(l, connection());
    let c = without(c1, transfer_encoding());
    lemma_without_values(l, connection(), date());
    lemma_without_values(c1, transfer_encoding(), date());
    lemma_has_name_values(h, date());
    lemma_has_name_values(c, date());
}

} // verus!
