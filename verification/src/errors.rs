//! Error values of the marshaling core, and the small protocol error
//! tags whose behaviour is plain data.

use vstd::prelude::*;
use vstd::utf8::encode_utf8;

verus! {

/// The three failure kinds of the marshaling core. Decoding fails with
/// `MalformedValue`; encoding fails with `ValueTooLarge` when a payload
/// would collide with the reserved length sentinel; the transport layer
/// fails with `AllocationFailure` when no buffer can be had. Each one
/// aborts only the value or call in flight, as a result, never the
/// process.
#[derive(Debug, Clone, Copy, PartialEq, Eq, Structural)]
pub enum MarshalError {
    MalformedValue,
    ValueTooLarge,
    AllocationFailure,
}

/// Type of an operation rejected by rate limiting.
#[derive(Debug, Clone, PartialEq, Eq)]
pub enum OperationType {
    Read,
    Write,
    Other(u8),
}

/// The operation type carried by a rate-limit error byte.
pub open spec fn spec_operation_type_of(b: u8) -> OperationType {
    if b == 0 {
        OperationType::Read
    } else if b == 1 {
        OperationType::Write
    } else {
        OperationType::Other(b)
    }
}

impl OperationType {
    /// The operation type a wire byte denotes.
    pub fn from_byte(b: u8) -> (r: OperationType)
        ensures
            r == spec_operation_type_of(b),
    {
        if b == 0 {
            OperationType::Read
        } else if b == 1 {
            OperationType::Write
        } else {
            OperationType::Other(b)
        }
    }
}

/// Type of a write operation that timed out or failed.
#[derive(Debug, Clone, PartialEq, Eq)]
pub enum WriteType {
    Simple,
    Batch,
    UnloggedBatch,
    Counter,
    BatchLog,
    Cas,
    View,
    Cdc,
    Other(String),
}

/// The protocol name of a write type.
pub open spec fn spec_write_type_str(wt: WriteType) -> Seq<char> {
    match wt {
        WriteType::Simple => "SIMPLE"@,
        WriteType::Batch => "BATCH"@,
        WriteType::UnloggedBatch => "UNLOGGED_BATCH"@,
        WriteType::Counter => "COUNTER"@,
        WriteType::BatchLog => "BATCH_LOG"@,
        WriteType::Cas => "CAS"@,
        WriteType::View => "VIEW"@,
        WriteType::Cdc => "CDC"@,
        WriteType::Other(s) => s@,
    }
}

/// Is the name one of the eight the protocol defines?
pub open spec fn is_known_write_type_name(s: Seq<char>) -> bool {
    ||| s == "SIMPLE"@
    ||| s == "BATCH"@
    ||| s == "UNLOGGED_BATCH"@
    ||| s == "COUNTER"@
    ||| s == "BATCH_LOG"@
    ||| s == "CAS"@
    ||| s == "VIEW"@
    ||| s == "CDC"@
}

/// Do two byte strings hold the same bytes?
fn bytes_eq(a: &[u8], b: &[u8]) -> (r: bool)
    ensures
        r <==> a@ == b@,
{
    let n: usize = a.len();
    if n != b.len() {
        proof {
            assert(a@.len() != b@.len());
        }
        return false;
    }
    let mut i: usize = 0;
    while i < n
        invariant
            n == a@.len() == b@.len(),
            0 <= i <= n,
            forall|k: int| 0 <= k < i ==> a@[k] == b@[k],
        decreases n - i,
    {
        if a[i] != b[i] {
            return false;
        }
        i = i + 1;
    }
    proof {
        assert(a@ =~= b@);
    }
    true
}

/// Do two strings hold the same characters?
fn str_eq(a: &str, b: &str) -> (r: bool)
    ensures
        r <==> a@ == b@,
{
    let r = bytes_eq(a.as_bytes(), b.as_bytes());
    proof {
        if encode_utf8(a@) == encode_utf8(b@) {
            vstd::utf8::encode_utf8_decode_utf8(a@);
            vstd::utf8::encode_utf8_decode_utf8(b@);
        }
    }
    r
}

impl WriteType {
    /// The write type a protocol name denotes; an unknown name is kept
    /// verbatim.
    pub fn from_str_name(s: &str) -> (r: WriteType)
        ensures
            spec_write_type_str(r) == s@,
            r is Other <==> !is_known_write_type_name(s@),
    {
        if str_eq(s, "SIMPLE") {
            WriteType::Simple
        } else if str_eq(s, "BATCH") {
            WriteType::Batch
        } else if str_eq(s, "UNLOGGED_BATCH") {
            WriteType::UnloggedBatch
        } else if str_eq(s, "COUNTER") {
            WriteType::Counter
        } else if str_eq(s, "BATCH_LOG") {
            WriteType::BatchLog
        } else if str_eq(s, "CAS") {
            WriteType::Cas
        } else if str_eq(s, "VIEW") {
            WriteType::View
        } else if str_eq(s, "CDC") {
            WriteType::Cdc
        } else {
            WriteType::Other(s.to_owned())
        }
    }

    /// The protocol name of this write type.
    pub fn as_str(&self) -> (r: &str)
        ensures
            r@ == spec_write_type_str(*self),
    {
        match self {
            WriteType::Simple => "SIMPLE",
            WriteType::Batch => "BATCH",
            WriteType::UnloggedBatch => "UNLOGGED_BATCH",
            WriteType::Counter => "COUNTER",
            WriteType::BatchLog => "BATCH_LOG",
            WriteType::Cas => "CAS",
            WriteType::View => "VIEW",
            WriteType::Cdc => "CDC",
            WriteType::Other(write_type) => write_type.as_str(),
        }
    }
}

/// A keyspace name rejected before any request is sent: empty, longer
/// than 48 characters, or holding a character that is neither
/// alphanumeric nor an underscore.
#[derive(Debug, Clone, PartialEq, Eq)]
pub enum BadKeyspaceName {
    Empty,
    TooLong(String, usize),
    IllegalCharacter(String, char),
}

} // verus!
