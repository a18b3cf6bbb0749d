//! Account and contract addresses, held by their XDR encoding.
//!
//! The XDR encoding of an `ScVal::Address` is what the selection logic
//! hashes, and this library compares addresses by comparing their
//! encodings.

use crate::host::{encode_address, is_address_xdr};
use vstd::prelude::*;

verus! {

/// An address, held as the bytes of its XDR encoding.
#[derive(Debug)]
pub struct EncodedAddress {
    xdr: Vec<u8>,
}

impl View for EncodedAddress {
    type V = Seq<u8>;

    open spec fn view(&self) -> Seq<u8> {
        self.encoding_spec()
    }
}

impl EncodedAddress {
    /// The encoding this address holds.
    pub closed spec fn encoding_spec(&self) -> Seq<u8> {
        self.xdr@
    }

    /// The address of a Soroban `Address`, by its XDR encoding.
    pub fn from_soroban(env: &soroban_sdk::Env, address: &soroban_sdk::Address) -> (a: EncodedAddress)
        ensures
            is_address_xdr(a@),
    {
        EncodedAddress { xdr: encode_address(env, address) }
    }

    /// The address whose XDR encoding is `xdr`.
    pub fn from_encoding(xdr: Vec<u8>) -> (a: EncodedAddress)
        ensures
            a@ == xdr@,
    {
        EncodedAddress { xdr }
    }

    /// The XDR encoding of this address.
    pub fn encoding(&self) -> (e: &[u8])
        ensures
            e@ == self@,
    {
        self.xdr.as_slice()
    }

    /// Whether `self` and `other` are the same address.
    pub fn same_as(&self, other: &EncodedAddress) -> (same: bool)
        ensures
            same == (self@ == other@),
    {
        let n = self.xdr.len();
        if n != other.xdr.len() {
            return false;
        }
        let mut i: usize = 0;
        while i < n
            invariant
                n == self.xdr@.len(),
                n == other.xdr@.len(),
                i <= n,
                forall|j: int| 0 <= j < i ==> self.xdr@[j] == other.xdr@[j],
            decreases n - i,
        {
            if self.xdr[i] != other.xdr[i] {
                return false;
            }
            i = i + 1;
        }
        assert(self.xdr@ =~= other.xdr@);
        true
    }

    /// A second value of the same address.
    pub fn duplicate(&self) -> (a: EncodedAddress)
        ensures
            a@ == self@,
    {
        let xdr = self.xdr.clone();
        assert(xdr@ =~= self.xdr@);
        EncodedAddress { xdr }
    }
}

/// The encodings of a sequence of addresses.
pub open spec fn encodings(addresses: Seq<EncodedAddress>) -> Seq<Seq<u8>> {
    addresses.map_values(|a: EncodedAddress| a@)
}

/// Whether `addresses` holds `a`.
pub fn contains_address(addresses: &Vec<EncodedAddress>, a: &EncodedAddress) -> (found: bool)
    ensures
        found == encodings(addresses@).contains(a@),
{
    let n = addresses.len();
    let mut i: usize = 0;
    while i < n
        invariant
            n == addresses@.len(),
            i <= n,
            forall|j: int| 0 <= j < i ==> addresses@[j]@ != a@,
        decreases n - i,
    {
        if addresses[i].same_as(a) {
            assert(encodings(addresses@)[i as int] == a@);
            return true;
        }
        i = i + 1;
    }
    assert forall|j: int| 0 <= j < encodings(addresses@).len() implies encodings(
        addresses@,
    )[j] != a@ by {
        assert(encodings(addresses@)[j] == addresses@[j]@);
    }
    false
}

/// A second copy of a list of addresses.
pub fn duplicate_addresses(addresses: &Vec<EncodedAddress>) -> (copy: Vec<EncodedAddress>)
    ensures
        encodings(copy@) == encodings(addresses@),
{
    let n = addresses.len();
    let mut copy: Vec<EncodedAddress> = Vec::new();
    let mut i: usize = 0;
    while i < n
        invariant
            n == addresses@.len(),
            i <= n,
            copy@.len() == i,
            forall|j: int| 0 <= j < i ==> copy@[j]@ == addresses@[j]@,
        decreases n - i,
    {
        copy.push(addresses[i].duplicate());
        i = i + 1;
    }
    assert(encodings(copy@) =~= encodings(addresses@));
    copy
}

} // verus!
