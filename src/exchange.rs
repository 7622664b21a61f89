//! The dispatch lifecycle of a request: the snapshot sent on the wire, the
//! decoding of what comes back, and the single pending exchange whose result
//! alone is taken.

use vstd::prelude::*;
use vstd::utf8::{decode_utf8, valid_utf8};

use crate::body::selected_bytes;
use crate::pairs::{copy_pairs, pairs_view};
use crate::request::{RequestData, RequestDataView};

verus! {

/// What is sent for a request: verb, URL, headers and body bytes.
pub struct WireRequest {
    pub method: String,
    pub url: String,
    pub headers: Vec<(String, String)>,
    pub body: Vec<u8>,
}

/// The wire request carries the content's verb, URL and headers as they
/// are, and the bytes of its selected body.
pub open spec fn is_wire_of(w: WireRequest, content: RequestDataView) -> bool {
    &&& w.method@ == content.method.verb()
    &&& w.url@ == content.url
    &&& pairs_view(w.headers@) == content.headers
    &&& w.body@ == selected_bytes(content.body, content.selected_body)
}

/// The snapshot of a request that goes on the wire.
pub fn build_wire_request(data: &RequestData) -> (r: WireRequest)
    ensures
        is_wire_of(r, data@),
{
    WireRequest {
        method: data.method.to_string(),
        url: data.url_string.clone(),
        headers: copy_pairs(&data.headers),
        body: data.body_bytes(),
    }
}

/// The error shown for a response body that is not UTF-8.
pub open spec fn invalid_utf8_message() -> Seq<char> {
    "Response is invalid UTF-8"@
}

/// Relies on `String::from_utf8`: it succeeds exactly on valid UTF-8, with
/// the text those bytes encode.
#[verifier::external_body]
fn utf8_text(bytes: Vec<u8>) -> (r: Option<String>)
    ensures
        match r {
            Some(s) => valid_utf8(bytes@) && s@ == decode_utf8(bytes@),
            None => !valid_utf8(bytes@),
        },
{
    String::from_utf8(bytes).ok()
}

/// What a transfer delivered: the body bytes, or the transport's error text.
pub open spec fn fetched_view(f: Result<Vec<u8>, String>) -> Result<Seq<u8>, Seq<char>> {
    match f {
        Ok(b) => Ok(b@),
        Err(e) => Err(e@),
    }
}

/// The text of a result.
pub open spec fn outcome_view(o: Result<String, String>) -> Result<Seq<char>, Seq<char>> {
    match o {
        Ok(s) => Ok(s@),
        Err(e) => Err(e@),
    }
}

/// The result shown for what a transfer delivered: the body as text when it
/// is UTF-8, a fixed error when it is not, the transport's error verbatim.
pub open spec fn decoded(fetched: Result<Seq<u8>, Seq<char>>) -> Result<Seq<char>, Seq<char>> {
    match fetched {
        Ok(b) => if valid_utf8(b) {
            Ok(decode_utf8(b))
        } else {
            Err(invalid_utf8_message())
        },
        Err(e) => Err(e),
    }
}

/// The result shown for what a transfer delivered.
pub fn decode_response(fetched: Result<Vec<u8>, String>) -> (r: Result<String, String>)
    ensures
        outcome_view(r) == decoded(fetched_view(fetched)),
{
    match fetched {
        Ok(bytes) => match utf8_text(bytes) {
            Some(text) => Ok(text),
            None => Err(String::from_str("Response is invalid UTF-8")),
        },
        Err(e) => Err(e),
    }
}

/// The state of the exchanges of one request: how many were sent, whether
/// the latest is still awaited, and the result shown.
pub struct ExchangeView {
    pub sent: nat,
    pub pending: bool,
    pub outcome: Option<Result<Seq<char>, Seq<char>>>,
}

/// A new send: it becomes the only exchange awaited, and nothing is shown
/// until it completes.
pub open spec fn after_send(e: ExchangeView) -> ExchangeView {
    ExchangeView { sent: e.sent + 1, pending: true, outcome: None }
}

/// A result arriving for the send numbered `ticket`: taken only when that send
/// is the latest and still awaited, ignored otherwise.
pub open spec fn after_receive(
    e: ExchangeView,
    ticket: nat,
    fetched: Result<Seq<u8>, Seq<char>>,
) -> ExchangeView {
    if e.pending && ticket == e.sent {
        ExchangeView { sent: e.sent, pending: false, outcome: Some(decoded(fetched)) }
    } else {
        e
    }
}

/// Of two sends, the result of the newer one is shown once it has arrived,
/// whether the older result arrives before or after it.
pub proof fn lemma_newer_result_wins(
    e: ExchangeView,
    older: Result<Seq<u8>, Seq<char>>,
    newer: Result<Seq<u8>, Seq<char>>,
)
    ensures
        ({
            let first = after_send(e);
            let second = after_send(first);
            &&& after_receive(after_receive(second, second.sent, newer), first.sent, older).outcome
                == Some(decoded(newer))
            &&& after_receive(after_receive(second, first.sent, older), second.sent, newer).outcome
                == Some(decoded(newer))
        }),
{
}

fn copy_outcome(o: &Option<Result<String, String>>) -> (r: Option<Result<String, String>>)
    ensures
        r == *o,
{
    match o {
        Some(Ok(s)) => Some(Ok(s.clone())),
        Some(Err(s)) => Some(Err(s.clone())),
        None => None,
    }
}

/// The exchanges of one request.
pub struct Exchange {
    sent: u64,
    pending: bool,
    outcome: Option<Result<String, String>>,
}

impl View for Exchange {
    type V = ExchangeView;

    closed spec fn view(&self) -> ExchangeView {
        ExchangeView {
            sent: self.sent as nat,
            pending: self.pending,
            outcome: match self.outcome {
                Some(o) => Some(outcome_view(o)),
                None => None,
            },
        }
    }
}

impl Exchange {
    /// Nothing sent yet.
    pub fn new() -> (r: Self)
        ensures
            r@ == (ExchangeView { sent: 0, pending: false, outcome: None }),
    {
        Exchange { sent: 0, pending: false, outcome: None }
    }

    /// Starts a new exchange and returns its ticket; `None`, with nothing
    /// changed, once the counter of sends is exhausted.
    pub fn begin(&mut self) -> (r: Option<u64>)
        ensures
            old(self)@.sent < u64::MAX ==> final(self)@ == after_send(old(self)@) && r == Some(
                final(self)@.sent as u64,
            ),
            old(self)@.sent >= u64::MAX ==> final(self)@ == old(self)@ && r is None,
    {
        if self.sent == u64::MAX {
            return None;
        }
        self.sent = self.sent + 1;
        self.pending = true;
        self.outcome = None;
        Some(self.sent)
    }

    /// Hands in what the transfer numbered `ticket` delivered; returns whether
    /// it was taken.
    pub fn deliver(&mut self, ticket: u64, fetched: Result<Vec<u8>, String>) -> (taken: bool)
        ensures
            final(self)@ == after_receive(old(self)@, ticket as nat, fetched_view(fetched)),
            taken == (old(self)@.pending && ticket == old(self)@.sent),
    {
        if self.pending && ticket == self.sent {
            let shown = decode_response(fetched);
            self.pending = false;
            self.outcome = Some(shown);
            true
        } else {
            false
        }
    }

    /// Whether the latest exchange is still awaited.
    pub fn is_pending(&self) -> (r: bool)
        ensures
            r == self@.pending,
    {
        self.pending
    }

    /// The result shown, if any.
    pub fn outcome(&self) -> (r: Option<Result<String, String>>)
        ensures
            match r {
                Some(o) => self@.outcome == Some(outcome_view(o)),
                None => self@.outcome is None,
            },
    {
        copy_outcome(&self.outcome)
    }
}

} // verus!
