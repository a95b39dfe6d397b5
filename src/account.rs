//! The stored record and its persisted byte layout.

use vstd::prelude::*;
use vstd::slice::slice_to_vec;
use vstd::utf8::encode_utf8;

verus! {

/// Bytes taken by the type tag that leads every persisted record.
pub const DISCRIMINATOR_LEN: usize = 8;

/// Bytes taken by the little-endian length that precedes the payload.
pub const LENGTH_PREFIX_LEN: usize = 4;

/// Largest payload, in bytes, that a record can hold.
pub const MAX_PAYLOAD_LEN: usize = 1024;

/// Space allocated for every record: tag, length prefix and payload.
pub const ACCOUNT_SPACE: usize = 8 + 4 + 1024;

/// The four little-endian bytes of `n` (for `n` below 2^32).
pub open spec fn le_u32_bytes(n: nat) -> Seq<u8> {
    seq![
        (n % 256) as u8,
        ((n / 256) % 256) as u8,
        ((n / 65536) % 256) as u8,
        ((n / 16777216) % 256) as u8,
    ]
}

/// Size in bytes of a persisted record whose payload is `payload`.
pub open spec fn serialized_len(payload: Seq<u8>) -> int {
    DISCRIMINATOR_LEN + LENGTH_PREFIX_LEN + payload.len()
}

/// Whether a record with this payload fits in the space allocated for a cell.
pub open spec fn fits_in_space(payload: Seq<u8>) -> bool {
    serialized_len(payload) <= ACCOUNT_SPACE
}

/// Persisted bytes of a record: tag, then payload length, then payload.
pub open spec fn account_layout(tag: Seq<u8>, payload: Seq<u8>) -> Seq<u8> {
    tag + le_u32_bytes(payload.len()) + payload
}

/// The record kept in a storage cell: the raw bytes of the JSON text.
pub struct DesignAccount {
    pub json_data: Vec<u8>,
}

impl View for DesignAccount {
    type V = Seq<u8>;

    open spec fn view(&self) -> Seq<u8> {
        self.json_data@
    }
}

impl DesignAccount {
    /// A record holding the UTF-8 bytes of `json_data`, unparsed.
    pub fn from_text(json_data: &str) -> (r: DesignAccount)
        ensures
            r@ == encode_utf8(json_data@),
    {
        DesignAccount { json_data: slice_to_vec(json_data.as_bytes()) }
    }

    /// Whether the persisted record fits in the space allocated for a cell.
    pub fn fits(&self) -> (r: bool)
        ensures
            r == fits_in_space(self@),
    {
        self.json_data.len() <= ACCOUNT_SPACE - DISCRIMINATOR_LEN - LENGTH_PREFIX_LEN
    }

    /// The persisted bytes of this record under the type tag `tag`.
    pub fn to_account_bytes(&self, tag: &[u8; 8]) -> (r: Vec<u8>)
        requires
            fits_in_space(self@),
        ensures
            r@ == account_layout(tag@, self@),
            r@.len() == serialized_len(self@),
    {
        let mut out: Vec<u8> = Vec::with_capacity(ACCOUNT_SPACE);
        let mut i: usize = 0;
        while i < DISCRIMINATOR_LEN
            invariant
                i <= DISCRIMINATOR_LEN,
                tag@.len() == DISCRIMINATOR_LEN,
                out@ == tag@.subrange(0, i as int),
            decreases DISCRIMINATOR_LEN - i,
        {
            out.push(tag[i]);
            i = i + 1;
        }
        assert(out@ == tag@);
        let n: u32 = self.json_data.len() as u32;
        out.push((n % 256) as u8);
        out.push(((n / 256) % 256) as u8);
        out.push(((n / 65536) % 256) as u8);
        out.push(((n / 16777216) % 256) as u8);
        assert(out@ == tag@ + le_u32_bytes(self@.len()));
        let mut j: usize = 0;
        while j < self.json_data.len()
            invariant
                j <= self@.len(),
                out@ == tag@ + le_u32_bytes(self@.len()) + self@.subrange(0, j as int),
            decreases self@.len() - j,
        {
            out.push(self.json_data[j]);
            j = j + 1;
            assert(self@.subrange(0, j as int) == self@.subrange(0, j - 1) + seq![self@[j - 1]]);
        }
        assert(self@.subrange(0, self@.len() as int) == self@);
        out
    }
}

} // verus!
