//! The client's two delivery protocols, as state machines that the caller
//! drives with what the transport hands it: the direct channel follows a
//! stream of responses, the indirect one waits for a confirmation event.

use vstd::prelude::*;
use crate::rpc::{
    lemma_decode_unique, return_value_decodable, return_value_decodes, DirectRequestStatus, OperationStatus,
    RpcReturnValue,
};
use crate::scale::{bytes_prefix, read_array32, read_bytes};
use vstd::utf8::{decode_utf8, valid_utf8};

verus! {

/// Where a direct request stands.
#[derive(Clone, Debug)]
pub enum DirectState {
    /// Sent, and waiting for more responses.
    Submitted,
    /// Finished, with the result payload if there is one.
    Completed(Option<Vec<u8>>),
    /// The worker reported an error, with its message.
    Failed(String),
    /// The stream ended, or carried a status that ends the wait, without a
    /// result.
    Cancelled,
    /// A final response whose value could not be decoded.
    Undecodable,
    /// The caller's deadline passed before the request ended.
    TimedOut,
}

/// `DirectState` with its byte strings as sequences.
pub enum DirectStateView {
    Submitted,
    Completed(Option<Seq<u8>>),
    Failed(Seq<char>),
    Cancelled,
    Undecodable,
    TimedOut,
}

impl DirectState {
    pub open spec fn view(&self) -> DirectStateView {
        match self {
            DirectState::Submitted => DirectStateView::Submitted,
            DirectState::Completed(None) => DirectStateView::Completed(None),
            DirectState::Completed(Some(v)) => DirectStateView::Completed(Some(v@)),
            DirectState::Failed(m) => DirectStateView::Failed(m@),
            DirectState::Cancelled => DirectStateView::Cancelled,
            DirectState::Undecodable => DirectStateView::Undecodable,
            DirectState::TimedOut => DirectStateView::TimedOut,
        }
    }
}

/// Relies on `String::from_utf8`: it succeeds exactly on valid UTF-8, and the
/// string holds the characters that the bytes spell.
#[verifier::external_body]
fn string_from_utf8(v: Vec<u8>) -> (r: Option<String>)
    ensures
        r is Some <==> valid_utf8(v@),
        r matches Some(s) ==> s@ == decode_utf8(v@),
{
    String::from_utf8(v).ok()
}

/// The optional payload at the front of `b`: a 0 for none, or a 1 followed by
/// a length-prefixed byte string.
pub open spec fn optional_bytes_prefix(b: Seq<u8>) -> Option<Option<Seq<u8>>> {
    if b.len() == 0 {
        None
    } else if b[0] == 0 {
        Some(None)
    } else if b[0] == 1 {
        match bytes_prefix(b.skip(1)) {
            Some((v, _)) => Some(Some(v)),
            None => None,
        }
    } else {
        None
    }
}

/// The state that a live request moves to on the response `rv`.
pub open spec fn after_response(rv: RpcReturnValue) -> DirectStateView {
    if rv.status is Error {
        match bytes_prefix(rv.value@) {
            Some((m, _)) => if valid_utf8(m) {
                DirectStateView::Failed(decode_utf8(m))
            } else {
                DirectStateView::Undecodable
            },
            None => DirectStateView::Undecodable,
        }
    } else if !rv.do_watch {
        match optional_bytes_prefix(rv.value@) {
            Some(p) => DirectStateView::Completed(p),
            None => DirectStateView::Undecodable,
        }
    } else if rv.status is TrustedOperationStatus {
        DirectStateView::Submitted
    } else {
        DirectStateView::Cancelled
    }
}

/// The progress that a response reports, if it carries an operation status.
pub open spec fn progress(rv: RpcReturnValue) -> Option<OperationStatus> {
    match rv.status {
        DirectRequestStatus::TrustedOperationStatus(s) => Some(s),
        _ => None,
    }
}

/// Reads the optional payload at the front of `b`.
pub fn decode_optional_bytes(b: &[u8]) -> (r: Option<Option<Vec<u8>>>)
    ensures
        r is None <==> optional_bytes_prefix(b@) is None,
        r matches Some(None) ==> optional_bytes_prefix(b@) == Some(None::<Seq<u8>>),
        r matches Some(Some(v)) ==> optional_bytes_prefix(b@) == Some(Some(v@)),
{
    let len: usize = b.len();
    if len == 0 {
        None
    } else if b[0] == 0 {
        Some(None)
    } else if b[0] == 1 {
        match read_bytes(b, 1) {
            Some((v, _)) => Some(Some(v)),
            None => None,
        }
    } else {
        None
    }
}

/// Reads the length-prefixed byte string at the front of `b`.
pub fn decode_bytes(b: &[u8]) -> (r: Option<Vec<u8>>)
    ensures
        r is None <==> bytes_prefix(b@) is None,
        r matches Some(v) ==> bytes_prefix(b@) matches Some((m, _)) && m == v@,
{
    assert(b@.skip(0) =~= b@);
    match read_bytes(b, 0) {
        Some((v, _)) => Some(v),
        None => None,
    }
}

impl DirectState {
    pub open spec fn is_terminal(&self) -> bool {
        !(self is Submitted)
    }

    /// A request that has just been sent.
    pub fn new() -> (r: Self)
        ensures
            r is Submitted,
    {
        DirectState::Submitted
    }

    /// Whether the wait is over.
    pub fn is_done(&self) -> (r: bool)
        ensures
            r == self.is_terminal(),
    {
        !matches!(self, DirectState::Submitted)
    }

    /// Takes one decoded response. A request that has reached its end stays
    /// there; a live one moves as `after_response` says and reports the
    /// response's operation status as progress.
    pub fn apply(&mut self, rv: &RpcReturnValue) -> (obs: Option<OperationStatus>)
        ensures
            old(self).is_terminal() ==> final(self)@ == old(self)@ && obs is None,
            !old(self).is_terminal() ==> final(self)@ == after_response(*rv) && obs == progress(
                *rv,
            ),
    {
        if self.is_done() {
            return None;
        }
        let obs = match rv.status {
            DirectRequestStatus::TrustedOperationStatus(s) => Some(s),
            _ => None,
        };
        if matches!(rv.status, DirectRequestStatus::Error) {
            *self = match decode_bytes(rv.value.as_slice()) {
                Some(m) => match string_from_utf8(m) {
                    Some(text) => DirectState::Failed(text),
                    None => DirectState::Undecodable,
                },
                None => DirectState::Undecodable,
            };
        } else if !rv.do_watch {
            *self = match decode_optional_bytes(rv.value.as_slice()) {
                Some(p) => DirectState::Completed(p),
                None => DirectState::Undecodable,
            };
        } else if obs.is_none() {
            *self = DirectState::Cancelled;
        }
        obs
    }

    /// Takes one response as it came off the stream. One that cannot be read
    /// as a return value is passed over.
    pub fn receive(&mut self, response: &[u8]) -> (obs: Option<OperationStatus>)
        ensures
            old(self).is_terminal() || !return_value_decodable(response@) ==> final(self)@ == old(
                self,
            )@ && obs is None,
            !old(self).is_terminal() && return_value_decodable(response@) ==> forall|
                rv: RpcReturnValue,
            |
                #[trigger] return_value_decodes(response@, rv) ==> final(self)@ == after_response(rv)
                    && obs == progress(rv),
    {
        match RpcReturnValue::decode(response) {
            None => None,
            Some(v) => {
                let obs = self.apply(&v);
                proof {
                    assert forall|rv: RpcReturnValue| #[trigger]
                        return_value_decodes(response@, rv) implies after_response(v)
                        == after_response(rv) && progress(v) == progress(rv) by {
                        lemma_decode_unique(response@, v, rv);
                    }
                }
                obs
            },
        }
    }

    /// The caller's deadline has passed: a live request times out.
    pub fn expire(&mut self)
        ensures
            old(self).is_terminal() ==> final(self)@ == old(self)@,
            !old(self).is_terminal() ==> *final(self) is TimedOut,
    {
        if !self.is_done() {
            *self = DirectState::TimedOut;
        }
    }

    /// The transport has closed: a live request is cancelled.
    pub fn close(&mut self)
        ensures
            old(self).is_terminal() ==> final(self)@ == old(self)@,
            !old(self).is_terminal() ==> *final(self) is Cancelled,
    {
        if !self.is_done() {
            *self = DirectState::Cancelled;
        }
    }
}

/// The confirmation event that the chain emits once the worker has processed
/// a block.
#[derive(Clone, Copy, Debug)]
pub struct ProcessedParentchainBlock {
    pub signer: [u8; 32],
    pub block_hash: [u8; 32],
    pub merkle_root: [u8; 32],
}

impl ProcessedParentchainBlock {
    /// Reads the event's three 32-byte fields from the front of `b`.
    pub fn decode(b: &[u8]) -> (r: Option<Self>)
        ensures
            r is None <==> b@.len() < 96,
            r matches Some(e) ==> e.signer@ == b@.subrange(0, 32) && e.block_hash@
                == b@.subrange(32, 64) && e.merkle_root@ == b@.subrange(64, 96),
    {
        if b.len() < 96 {
            return None;
        }
        Some(
            ProcessedParentchainBlock {
                signer: read_array32(b, 0),
                block_hash: read_array32(b, 32),
                merkle_root: read_array32(b, 64),
            },
        )
    }
}

/// The wait for the event that confirms a request included in the block
/// `expected`.
#[derive(Clone, Debug)]
pub struct IndirectWait {
    pub expected: [u8; 32],
    pub confirmed: Option<Vec<u8>>,
    /// Whether the caller's deadline passed before the confirmation came.
    pub timed_out: bool,
}

impl IndirectWait {
    /// A confirmation, once there is one, is the expected block's hash; a
    /// wait that timed out has none.
    pub open spec fn wf(&self) -> bool {
        &&& self.confirmed matches Some(v) ==> v@ == self.expected@
        &&& self.timed_out ==> self.confirmed is None
    }

    /// Whether the wait is over, confirmed or timed out.
    pub fn is_done(&self) -> (r: bool)
        ensures
            r == (self.confirmed is Some || self.timed_out),
    {
        self.confirmed.is_some() || self.timed_out
    }

    /// Starts waiting for the block `expected`.
    pub fn new(expected: [u8; 32]) -> (r: Self)
        ensures
            r.expected == expected,
            r.confirmed is None,
            !r.timed_out,
            r.wf(),
    {
        IndirectWait { expected, confirmed: None, timed_out: false }
    }

    /// The caller's deadline has passed: a wait that has not been confirmed
    /// ends as timed out.
    pub fn expire(&mut self)
        requires
            old(self).wf(),
        ensures
            final(self).expected == old(self).expected,
            final(self).confirmed == old(self).confirmed,
            final(self).timed_out == (old(self).timed_out || old(self).confirmed is None),
            final(self).wf(),
    {
        if self.confirmed.is_none() {
            self.timed_out = true;
        }
    }

    /// Takes one confirmation event. The wait ends, with the encoded block
    /// hash, exactly on an event for the expected block; any other event
    /// leaves it as it was, as does any event after the wait has ended.
    pub fn on_event(&mut self, ev: &ProcessedParentchainBlock) -> (done: bool)
        requires
            old(self).wf(),
        ensures
            final(self).expected == old(self).expected,
            final(self).timed_out == old(self).timed_out,
            old(self).confirmed is Some || old(self).timed_out ==> final(self).confirmed == old(
                self,
            ).confirmed,
            old(self).confirmed is None && !old(self).timed_out ==> (final(self).confirmed is Some
                <==> ev.block_hash@ == old(self).expected@),
            final(self).wf(),
            done == (final(self).confirmed is Some || final(self).timed_out),
    {
        if self.is_done() {
            return true;
        }
        if crate::scale::bytes_eq(ev.block_hash.as_slice(), self.expected.as_slice()) {
            let mut out: Vec<u8> = Vec::new();
            crate::scale::push_all(&mut out, ev.block_hash.as_slice());
            assert(out@ =~= ev.block_hash@);
            self.confirmed = Some(out);
        }
        self.is_done()
    }
}

} // verus!
