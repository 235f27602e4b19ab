//! The response values that the worker streams back to a client, and their
//! decoding from the wire.

use vstd::prelude::*;
use crate::scale::{bytes_prefix, read_bytes};

verus! {

/// Where a trusted operation stands in the worker's pool.
#[derive(Clone, Copy, Debug, PartialEq, Eq)]
pub enum OperationStatus {
    Submitted,
    Future,
    Ready,
    Broadcast,
    InSidechainBlock([u8; 32]),
    Retracted,
    FinalityTimeout,
    Finalized,
    Usurped,
    Dropped,
    Invalid,
}

/// The status that a response carries.
#[derive(Clone, Copy, Debug, PartialEq, Eq)]
pub enum DirectRequestStatus {
    Success,
    TrustedOperationStatus(OperationStatus),
    Error,
}

/// One response of the stream.
#[derive(Clone, Debug)]
pub struct RpcReturnValue {
    pub value: Vec<u8>,
    pub do_watch: bool,
    pub status: DirectRequestStatus,
}

/// How many bytes the status at the front of `b` takes, if it is well formed.
pub open spec fn status_len(b: Seq<u8>) -> Option<nat> {
    if b.len() == 0 {
        None
    } else if b[0] == 0 || b[0] == 2 {
        Some(1)
    } else if b[0] == 1 && b.len() >= 2 && b[1] <= 10 {
        if b[1] != 4 {
            Some(2)
        } else if b.len() >= 34 {
            Some(34)
        } else {
            None
        }
    } else {
        None
    }
}

/// Whether the bytes at the front of `b` spell the status `s`.
pub open spec fn status_is(b: Seq<u8>, s: DirectRequestStatus) -> bool {
    match s {
        DirectRequestStatus::Success => b[0] == 0,
        DirectRequestStatus::Error => b[0] == 2,
        DirectRequestStatus::TrustedOperationStatus(o) => b[0] == 1 && match o {
            OperationStatus::Submitted => b[1] == 0,
            OperationStatus::Future => b[1] == 1,
            OperationStatus::Ready => b[1] == 2,
            OperationStatus::Broadcast => b[1] == 3,
            OperationStatus::InSidechainBlock(h) => b[1] == 4 && h@ == b.subrange(2, 34),
            OperationStatus::Retracted => b[1] == 5,
            OperationStatus::FinalityTimeout => b[1] == 6,
            OperationStatus::Finalized => b[1] == 7,
            OperationStatus::Usurped => b[1] == 8,
            OperationStatus::Dropped => b[1] == 9,
            OperationStatus::Invalid => b[1] == 10,
        },
    }
}

/// Whether a return value can be read from the front of `b`: a
/// length-prefixed value, a flag byte of 0 or 1, and a status.
pub open spec fn return_value_decodable(b: Seq<u8>) -> bool {
    match bytes_prefix(b) {
        None => false,
        Some((_, k)) => k < b.len() && (b[k as int] == 0 || b[k as int] == 1) && status_len(
            b.skip((k + 1) as int),
        ) is Some,
    }
}

/// Whether `r` is the return value read from the front of `b`.
pub open spec fn return_value_decodes(b: Seq<u8>, r: RpcReturnValue) -> bool {
    match bytes_prefix(b) {
        None => false,
        Some((v, k)) => k < b.len() && r.value@ == v && (r.do_watch <==> b[k as int] == 1)
            && status_is(b.skip((k + 1) as int), r.status),
    }
}

/// The operation status at `b[at..]`, whose tag byte is known to be in range.
fn read_operation_status(b: &[u8], at: usize) -> (r: Option<OperationStatus>)
    requires
        at < b@.len(),
    ensures
        r is None <==> !(b@[at as int] <= 10 && (b@[at as int] != 4 || b@.len() >= at + 33)),
        r matches Some(o) ==> status_is(
            seq![1u8] + b@.skip(at as int),
            DirectRequestStatus::TrustedOperationStatus(o),
        ),
{
    let tag = b[at];
    let ghost t = seq![1u8] + b@.skip(at as int);
    let len: usize = b.len();
    if tag == 0 {
        Some(OperationStatus::Submitted)
    } else if tag == 1 {
        Some(OperationStatus::Future)
    } else if tag == 2 {
        Some(OperationStatus::Ready)
    } else if tag == 3 {
        Some(OperationStatus::Broadcast)
    } else if tag == 4 {
        if len - at < 33 {
            return None;
        }
        let mut h: [u8; 32] = [0u8; 32];
        let mut i: usize = 0;
        while i < 32
            invariant
                i <= 32,
                at + 33 <= b@.len(),
                len == b@.len(),
                forall|j: int| 0 <= j < i ==> h@[j] == b@[at + 1 + j],
            decreases 32 - i,
        {
            h[i] = b[at + 1 + i];
            i = i + 1;
        }
        assert(h@ =~= t.subrange(2, 34));
        Some(OperationStatus::InSidechainBlock(h))
    } else if tag == 5 {
        Some(OperationStatus::Retracted)
    } else if tag == 6 {
        Some(OperationStatus::FinalityTimeout)
    } else if tag == 7 {
        Some(OperationStatus::Finalized)
    } else if tag == 8 {
        Some(OperationStatus::Usurped)
    } else if tag == 9 {
        Some(OperationStatus::Dropped)
    } else if tag == 10 {
        Some(OperationStatus::Invalid)
    } else {
        None
    }
}

impl RpcReturnValue {
    /// Reads a return value from the front of `b`; trailing bytes are left
    /// unread.
    pub fn decode(b: &[u8]) -> (r: Option<RpcReturnValue>)
        ensures
            r is None <==> !return_value_decodable(b@),
            r matches Some(v) ==> return_value_decodes(b@, v),
    {
        assert(b@.skip(0) =~= b@);
        let (value, at) = match read_bytes(b, 0) {
            None => return None,
            Some(p) => p,
        };
        let len: usize = b.len();
        if at >= len {
            return None;
        }
        let flag = b[at];
        if flag > 1 {
            return None;
        }
        let do_watch = flag == 1;
        let ghost rest = b@.skip(at + 1);
        if at + 1 >= len {
            return None;
        }
        let tag = b[at + 1];
        let status = if tag == 0 {
            DirectRequestStatus::Success
        } else if tag == 2 {
            DirectRequestStatus::Error
        } else if tag == 1 {
            if at + 2 >= len {
                return None;
            }
            match read_operation_status(b, at + 2) {
                None => return None,
                Some(o) => {
                    assert(seq![1u8] + b@.skip(at + 2) =~= rest);
                    DirectRequestStatus::TrustedOperationStatus(o)
                },
            }
        } else {
            return None;
        };
        Some(RpcReturnValue { value, do_watch, status })
    }
}

proof fn lemma_status_unique(t: Seq<u8>, s1: DirectRequestStatus, s2: DirectRequestStatus)
    requires
        status_is(t, s1),
        status_is(t, s2),
    ensures
        s1 == s2,
{
    if let DirectRequestStatus::TrustedOperationStatus(OperationStatus::InSidechainBlock(h1)) = s1 {
        if let DirectRequestStatus::TrustedOperationStatus(OperationStatus::InSidechainBlock(h2)) = s2 {
            assert(h1 =~= h2);
        }
    }
}

/// Bytes spell at most one return value: two readings of the same bytes
/// agree on the value, the flag and the status.
pub proof fn lemma_decode_unique(b: Seq<u8>, v1: RpcReturnValue, v2: RpcReturnValue)
    requires
        return_value_decodes(b, v1),
        return_value_decodes(b, v2),
    ensures
        v1.value@ == v2.value@,
        v1.do_watch == v2.do_watch,
        v1.status == v2.status,
{
    if let Some((_, k)) = bytes_prefix(b) {
        lemma_status_unique(b.skip((k + 1) as int), v1.status, v2.status);
    }
}

} // verus!
