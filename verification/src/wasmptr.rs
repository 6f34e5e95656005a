//! Transport Buffer: the owner of a block of guest-visible memory that
//! carries one encoded value across the call boundary, or the null
//! literal that carries "absent". On the wire it is a packed word holding
//! a 32-bit size and a 32-bit address, with size `0xFFFF_FFFF` reserved
//! for null; here the handle owns its block outright, so reading after
//! release or releasing twice is not expressible — dropping the handle
//! is the single release.

use vstd::prelude::*;
use vstd::slice::slice_to_vec;
use crate::wire::NULL_LEN;

verus! {

/// An owned transport buffer: either the null literal or the sole owner
/// of a block whose length fits the 32-bit size field.
pub struct WasmPtr {
    block: Option<Vec<u8>>,
}

impl WasmPtr {
    /// Null, or the bytes of the owned block.
    pub closed spec fn view(&self) -> Option<Seq<u8>> {
        match self.block {
            Option::Some(b) => Option::Some(b@),
            Option::None => Option::None,
        }
    }

    /// The size field never collides with the reserved null sentinel.
    pub open spec fn wf(&self) -> bool {
        match self@ {
            Option::Some(b) => b.len() < NULL_LEN,
            Option::None => true,
        }
    }

    /// A fresh zeroed buffer of `size` bytes; `None` when `size` is the
    /// reserved null sentinel, for which no buffer exists.
    pub fn with_size(size: u32) -> (r: Option<WasmPtr>)
        ensures
            match r {
                Option::Some(p) => size != NULL_LEN && p@ == Option::Some(
                    Seq::new(size as nat, |i: int| 0u8),
                ) && p.wf(),
                Option::None => size == NULL_LEN,
            },
    {
        if size == NULL_LEN {
            return Option::None;
        }
        let mut block: Vec<u8> = Vec::new();
        block.resize(size as usize, 0u8);
        proof {
            assert(block@ =~= Seq::new(size as nat, |i: int| 0u8));
        }
        Option::Some(WasmPtr { block: Option::Some(block) })
    }

    /// The null literal: no block, nothing to release.
    pub fn null() -> (r: WasmPtr)
        ensures
            r@ is None,
            r.wf(),
    {
        WasmPtr { block: Option::None }
    }

    /// A buffer owning exactly `payload`; `None` when the payload is too
    /// long for the 32-bit size field.
    pub fn from_payload(payload: Vec<u8>) -> (r: Option<WasmPtr>)
        ensures
            match r {
                Option::Some(p) => payload@.len() < NULL_LEN && p@ == Option::Some(payload@)
                    && p.wf(),
                Option::None => payload@.len() >= NULL_LEN,
            },
    {
        if (payload.len() as u64) >= (NULL_LEN as u64) {
            return Option::None;
        }
        Option::Some(WasmPtr { block: Option::Some(payload) })
    }

    /// The size field: `None` for the null literal, else the block's
    /// exact byte length.
    pub fn size(&self) -> (r: Option<usize>)
        requires
            self.wf(),
        ensures
            match r {
                Option::Some(n) => self@ is Some && self@->Some_0.len() == n && n < NULL_LEN,
                Option::None => self@ is None,
            },
    {
        match &self.block {
            Option::Some(b) => Option::Some(b.len()),
            Option::None => Option::None,
        }
    }

    /// Is this the null literal?
    pub fn is_null(&self) -> (r: bool)
        ensures
            r <==> self@ is None,
    {
        match &self.block {
            Option::Some(_) => false,
            Option::None => true,
        }
    }

    /// Borrow the owned bytes for the duration of one marshaling step;
    /// `None` for the null literal, whose dereference is forbidden.
    pub fn as_slice(&self) -> (r: Option<&[u8]>)
        ensures
            match r {
                Option::Some(b) => self@ == Option::Some(b@),
                Option::None => self@ is None,
            },
    {
        match &self.block {
            Option::Some(b) => Option::Some(b.as_slice()),
            Option::None => Option::None,
        }
    }

    /// Consume the buffer and hand its block to the caller: the single
    /// ownership transfer out. `None` for the null literal.
    pub fn into_payload(self) -> (r: Option<Vec<u8>>)
        ensures
            match r {
                Option::Some(b) => self@ == Option::Some(b@),
                Option::None => self@ is None,
            },
    {
        self.block
    }

    /// Copy of the owned bytes; `None` for the null literal.
    pub fn to_bytes(&self) -> (r: Option<Vec<u8>>)
        ensures
            match r {
                Option::Some(b) => self@ == Option::Some(b@),
                Option::None => self@ is None,
            },
    {
        match &self.block {
            Option::Some(b) => Option::Some(slice_to_vec(b.as_slice())),
            Option::None => Option::None,
        }
    }
}

} // verus!
