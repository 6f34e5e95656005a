//! Authentication frame bodies: the server's authenticator name, the
//! optional byte payloads of challenge and success, and the client's
//! response, each over the protocol's `[string]` and `[bytes]` framing.

use vstd::prelude::*;
use vstd::slice::{slice_subrange, slice_to_vec};
use vstd::utf8::{decode_utf8, valid_utf8};
use crate::bytes_be::{be_bytes, be_u64, from_be, read_be_u64, read_u32_at};
use crate::errors::MarshalError;
use crate::from_wasmptr::bytes_to_str;
use crate::wire::NULL_LEN;

verus! {

/// A `[string]` frame: a 2-byte big-endian length, then that many bytes
/// of UTF-8 text. `None` when the bytes are truncated or not UTF-8.
pub open spec fn spec_read_string(s: Seq<u8>) -> Option<(Seq<char>, nat)> {
    if s.len() < 2 {
        Option::None
    } else {
        let n = from_be(s.subrange(0, 2));
        if s.len() < 2 + n {
            Option::None
        } else {
            let b = s.subrange(2, 2 + n as int);
            if valid_utf8(b) {
                Option::Some((decode_utf8(b), (2 + n) as nat))
            } else {
                Option::None
            }
        }
    }
}

/// A `[bytes]` frame: a 4-byte big-endian length, then that many bytes;
/// a negative length (high bit set) carries no payload and denotes the
/// absent value. `None` when the bytes are truncated.
pub open spec fn spec_read_bytes_opt(s: Seq<u8>) -> Option<(Option<Seq<u8>>, nat)> {
    if s.len() < 4 {
        Option::None
    } else {
        let raw = from_be(s.subrange(0, 4));
        if raw >= 0x8000_0000 {
            Option::Some((Option::None, 4))
        } else if s.len() < 4 + raw {
            Option::None
        } else {
            Option::Some((Option::Some(s.subrange(4, 4 + raw as int)), (4 + raw) as nat))
        }
    }
}

/// The `[bytes]` frame of an optional payload: the payload behind its
/// length, or the length `-1` alone for the absent value.
pub open spec fn spec_write_bytes_opt(o: Option<Seq<u8>>) -> Seq<u8> {
    match o {
        Option::Some(b) => be_bytes(b.len(), 4) + b,
        Option::None => be_bytes(NULL_LEN as nat, 4),
    }
}

/// The server's request for authentication, carrying the name of the
/// authenticator the client must use.
#[derive(Debug)]
pub struct Authenticate {
    pub authenticator_name: String,
}

impl Authenticate {
    /// Read the message from a frame body: one `[string]`.
    pub fn deserialize(buf: &[u8]) -> (r: Result<(Authenticate, usize), MarshalError>)
        ensures
            match r {
                Ok((a, used)) => spec_read_string(buf@) == Option::Some(
                    (a.authenticator_name@, used as nat),
                ),
                Err(e) => e == MarshalError::MalformedValue && spec_read_string(buf@) is None,
            },
    {
        let n: usize = buf.len();
        if n < 2 {
            return Err(MarshalError::MalformedValue);
        }
        proof {
            crate::bytes_be::lemma_pow256_values();
        }
        let len: usize = read_be_u64(buf, 0, 2) as usize;
        proof {
            assert(buf@.subrange(0, 2) =~= buf@.subrange(0int, 2int));
        }
        if n - 2 < len {
            return Err(MarshalError::MalformedValue);
        }
        let body = slice_subrange(buf, 2, 2 + len);
        match bytes_to_str(body) {
            Option::Some(s) => Ok((Authenticate { authenticator_name: s.to_owned() }, 2 + len)),
            Option::None => Err(MarshalError::MalformedValue),
        }
    }
}

/// The server's final message of a successful authentication exchange.
#[derive(Debug)]
pub struct AuthSuccess {
    pub success_message: Option<Vec<u8>>,
}

impl AuthSuccess {
    /// Read the message from a frame body: one `[bytes]`.
    pub fn deserialize(buf: &[u8]) -> (r: Result<(AuthSuccess, usize), MarshalError>)
        ensures
            match r {
                Ok((a, used)) => spec_read_bytes_opt(buf@) == Option::Some(
                    (
                        match a.success_message {
                            Option::Some(b) => Option::Some(b@),
                            Option::None => Option::None,
                        },
                        used as nat,
                    ),
                ),
                Err(e) => e == MarshalError::MalformedValue && spec_read_bytes_opt(buf@) is None,
            },
    {
        match read_bytes_opt(buf) {
            Ok((o, used)) => Ok((AuthSuccess { success_message: o }, used)),
            Err(e) => Err(e),
        }
    }
}

/// A server challenge in a multi-step authentication exchange.
#[derive(Debug)]
pub struct AuthChallenge {
    pub authenticate_message: Option<Vec<u8>>,
}

impl AuthChallenge {
    /// Read the message from a frame body: one `[bytes]`.
    pub fn deserialize(buf: &[u8]) -> (r: Result<(AuthChallenge, usize), MarshalError>)
        ensures
            match r {
                Ok((a, used)) => spec_read_bytes_opt(buf@) == Option::Some(
                    (
                        match a.authenticate_message {
                            Option::Some(b) => Option::Some(b@),
                            Option::None => Option::None,
                        },
                        used as nat,
                    ),
                ),
                Err(e) => e == MarshalError::MalformedValue && spec_read_bytes_opt(buf@) is None,
            },
    {
        match read_bytes_opt(buf) {
            Ok((o, used)) => Ok((AuthChallenge { authenticate_message: o }, used)),
            Err(e) => Err(e),
        }
    }
}

/// Read one `[bytes]` frame from the front of `buf`.
fn read_bytes_opt(buf: &[u8]) -> (r: Result<(Option<Vec<u8>>, usize), MarshalError>)
    ensures
        match r {
            Ok((o, used)) => spec_read_bytes_opt(buf@) == Option::Some(
                (
                    match o {
                        Option::Some(b) => Option::Some(b@),
                        Option::None => Option::None,
                    },
                    used as nat,
                ),
            ),
            Err(e) => e == MarshalError::MalformedValue && spec_read_bytes_opt(buf@) is None,
        },
{
    let n: usize = buf.len();
    if n < 4 {
        return Err(MarshalError::MalformedValue);
    }
    let raw: u32 = read_u32_at(buf, 0);
    proof {
        assert(buf@.subrange(0, 4) =~= buf@.subrange(0int, 4int));
    }
    if raw >= 0x8000_0000 {
        return Ok((Option::None, 4));
    }
    let len: usize = raw as usize;
    if n - 4 < len {
        return Err(MarshalError::MalformedValue);
    }
    Ok((Option::Some(slice_to_vec(slice_subrange(buf, 4, 4 + len))), 4 + len))
}

/// The client's answer to an authentication challenge.
pub struct AuthResponse {
    pub response: Option<Vec<u8>>,
}

impl AuthResponse {
    /// Write the message as a frame body: one `[bytes]`, with the
    /// absent response written as the length `-1`. Fails when the
    /// payload cannot fit the frame's signed 32-bit length.
    pub fn serialize(&self) -> (r: Result<Vec<u8>, MarshalError>)
        ensures
            match r {
                Ok(out) => {
                    &&& match self.response {
                        Option::Some(b) => b@.len() < 0x8000_0000 && out@ == spec_write_bytes_opt(
                            Option::Some(b@),
                        ),
                        Option::None => out@ == spec_write_bytes_opt(Option::None),
                    }
                },
                Err(e) => e == MarshalError::ValueTooLarge && self.response is Some
                    && self.response->Some_0@.len() >= 0x8000_0000,
            },
    {
        match &self.response {
            Option::Some(b) => {
                if (b.len() as u64) >= 0x8000_0000u64 {
                    return Err(MarshalError::ValueTooLarge);
                }
                let mut out: Vec<u8> = be_u64(b.len() as u64, 4);
                let mut body: Vec<u8> = slice_to_vec(b.as_slice());
                out.append(&mut body);
                proof {
                    assert(out@ =~= spec_write_bytes_opt(Option::Some(b@)));
                }
                Ok(out)
            },
            Option::None => Ok(be_u64(NULL_LEN as u64, 4)),
        }
    }
}

} // verus!
