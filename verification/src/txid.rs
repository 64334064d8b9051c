//! Transaction identifiers: the keys of a mempool snapshot.

use vstd::bytes::{
    lemma_auto_spec_u128_to_from_le_bytes, spec_u128_from_le_bytes, spec_u128_to_le_bytes,
    u128_from_le_bytes, u128_to_le_bytes,
};
use vstd::prelude::*;
use vstd::slice::slice_subrange;

verus! {

/// The 256-bit identifier of a transaction.
///
/// The 32 raw bytes are read as one little-endian number and held as its two
/// 128-bit halves, so that two identifiers are equal exactly when their bytes
/// are, and are ordered as a pair of integers.
#[derive(Clone, Copy, Debug, PartialEq, Eq, Hash, Structural)]
pub struct TransactionId {
    /// Bytes 16 to 31, little-endian.
    pub hi: u128,
    /// Bytes 0 to 15, little-endian.
    pub lo: u128,
}

/// The lowercase hexadecimal digit of `n`, for `n` below 16.
pub open spec fn hex_digit(n: int) -> char {
    if n == 0 {
        '0'
    } else if n == 1 {
        '1'
    } else if n == 2 {
        '2'
    } else if n == 3 {
        '3'
    } else if n == 4 {
        '4'
    } else if n == 5 {
        '5'
    } else if n == 6 {
        '6'
    } else if n == 7 {
        '7'
    } else if n == 8 {
        '8'
    } else if n == 9 {
        '9'
    } else if n == 10 {
        'a'
    } else if n == 11 {
        'b'
    } else if n == 12 {
        'c'
    } else if n == 13 {
        'd'
    } else if n == 14 {
        'e'
    } else {
        'f'
    }
}

/// The bytes of `bytes` in hexadecimal, two digits each, last byte first.
pub open spec fn hex_backward(bytes: Seq<u8>) -> Seq<char> {
    Seq::new(
        2 * bytes.len(),
        |i: int|
            {
                let byte = bytes[bytes.len() - 1 - i / 2];
                hex_digit(
                    if i % 2 == 0 {
                        byte as int / 16
                    } else {
                        byte as int % 16
                    },
                )
            },
    )
}

/// Writes the identifier with the given raw bytes as bitcoin writes it.
///
/// Builds a `bitcoin::Txid` from the bytes and formats it with its
/// `Display`, which bitcoin documents to give the bytes as a hex string in
/// reverse order; its source shows two lowercase digits for each byte.
#[verifier::external_body]
fn display_txid(bytes: [u8; 32]) -> (text: String)
    ensures
        text@ == hex_backward(bytes@),
{
    <bitcoin::Txid as bitcoin::hashes::Hash>::from_byte_array(bytes).to_string()
}

impl TransactionId {
    /// The identifier that a sequence of 32 raw bytes stands for.
    pub open spec fn spec_from_bytes(bytes: Seq<u8>) -> TransactionId {
        TransactionId {
            hi: spec_u128_from_le_bytes(bytes.subrange(16, 32)),
            lo: spec_u128_from_le_bytes(bytes.subrange(0, 16)),
        }
    }

    /// The 32 raw bytes of an identifier.
    pub open spec fn spec_to_bytes(self) -> Seq<u8> {
        spec_u128_to_le_bytes(self.lo) + spec_u128_to_le_bytes(self.hi)
    }

    /// The strict order in which a snapshot keeps and walks its keys.
    pub open spec fn spec_lt(self, other: TransactionId) -> bool {
        self.hi < other.hi || (self.hi == other.hi && self.lo < other.lo)
    }

    /// Builds the identifier from its halves.
    pub fn new(hi: u128, lo: u128) -> (id: TransactionId)
        ensures
            id.hi == hi,
            id.lo == lo,
    {
        TransactionId { hi, lo }
    }

    /// Reads an identifier from its 32 raw bytes.
    pub fn from_bytes(bytes: &[u8; 32]) -> (id: TransactionId)
        ensures
            id == Self::spec_from_bytes(bytes@),
    {
        let all = bytes.as_slice();
        let lo = u128_from_le_bytes(slice_subrange(all, 0, 16));
        let hi = u128_from_le_bytes(slice_subrange(all, 16, 32));
        TransactionId { hi, lo }
    }

    /// Writes the identifier back as its 32 raw bytes.
    pub fn to_bytes(&self) -> (bytes: [u8; 32])
        ensures
            bytes@ == self.spec_to_bytes(),
    {
        let low = u128_to_le_bytes(self.lo);
        let high = u128_to_le_bytes(self.hi);
        let mut bytes = [0u8; 32];
        let mut i: usize = 0;
        while i < 16
            invariant
                i <= 16,
                low@.len() == 16,
                high@.len() == 16,
                bytes@.len() == 32,
                forall|j: int| 0 <= j < i ==> bytes@[j] == low@[j],
                forall|j: int| 0 <= j < i ==> bytes@[16 + j] == high@[j],
            decreases 16 - i,
        {
            bytes[i] = low[i];
            bytes[i + 16] = high[i];
            i += 1;
        }
        assert(bytes@ =~= low@ + high@);
        bytes
    }

    /// The identifier as text: the 64 hexadecimal digits of its bytes, last
    /// byte first, as block explorers and the node show it.
    pub open spec fn spec_to_text(self) -> Seq<char> {
        hex_backward(self.spec_to_bytes())
    }

    /// Writes the identifier as text.
    pub fn to_text(&self) -> (text: String)
        ensures
            text@ == self.spec_to_text(),
    {
        display_txid(self.to_bytes())
    }

    /// Whether `self` comes strictly before `other` in key order.
    pub fn lt(&self, other: &TransactionId) -> (before: bool)
        ensures
            before == self.spec_lt(*other),
    {
        self.hi < other.hi || (self.hi == other.hi && self.lo < other.lo)
    }
}

/// Reading the bytes that an identifier writes gives the identifier back.
pub proof fn lemma_from_bytes_of_to_bytes(id: TransactionId)
    ensures
        id.spec_to_bytes().len() == 32,
        TransactionId::spec_from_bytes(id.spec_to_bytes()) == id,
{
    lemma_auto_spec_u128_to_from_le_bytes();
    let low = spec_u128_to_le_bytes(id.lo);
    let high = spec_u128_to_le_bytes(id.hi);
    assert((low + high).subrange(0, 16) =~= low);
    assert((low + high).subrange(16, 32) =~= high);
}

/// Writing the identifier read from 32 bytes gives those bytes back, so two
/// byte strings give one identifier only if they are equal.
pub proof fn lemma_to_bytes_of_from_bytes(bytes: Seq<u8>)
    requires
        bytes.len() == 32,
    ensures
        TransactionId::spec_from_bytes(bytes).spec_to_bytes() == bytes,
{
    lemma_auto_spec_u128_to_from_le_bytes();
    let low = bytes.subrange(0, 16);
    let high = bytes.subrange(16, 32);
    assert(spec_u128_to_le_bytes(spec_u128_from_le_bytes(low)) == low);
    assert(spec_u128_to_le_bytes(spec_u128_from_le_bytes(high)) == high);
    assert(low + high =~= bytes);
}

/// The key order is a strict total order: no identifier precedes itself,
/// precedence is transitive, and of two different identifiers one precedes
/// the other.
pub proof fn lemma_key_order_is_total(a: TransactionId, b: TransactionId, c: TransactionId)
    ensures
        !a.spec_lt(a),
        a.spec_lt(b) && b.spec_lt(c) ==> a.spec_lt(c),
        a.spec_lt(b) || b.spec_lt(a) || a == b,
        !(a.spec_lt(b) && b.spec_lt(a)),
{
}

} // verus!
