//! The calls this library makes into the Soroban host through `soroban_sdk`:
//! SHA-256 hashing and XDR serialisation. Each is a trusted item whose
//! contract is believed, not proved.
//!
//! XDR (RFC 4506) encodes an `ScVal` as a big-endian 32-bit type tag followed
//! by the value; byte strings and symbols carry a big-endian 32-bit length
//! and are padded with zero bytes to a multiple of four.

use soroban_sdk::xdr::ToXdr;
use vstd::prelude::*;

verus! {

#[verifier::external_type_specification]
#[verifier::external_body]
pub struct ExEnv(soroban_sdk::Env);

#[verifier::external_type_specification]
#[verifier::external_body]
pub struct ExSorobanAddress(soroban_sdk::Address);

/// The big-endian encoding of a 32-bit unsigned integer.
pub open spec fn be32(n: u32) -> Seq<u8> {
    seq![
        (n / 0x100_0000) as u8,
        ((n / 0x1_0000) % 0x100) as u8,
        ((n / 0x100) % 0x100) as u8,
        (n % 0x100) as u8,
    ]
}

/// The zero bytes that pad `len` bytes to a multiple of four.
pub open spec fn xdr_padding(len: nat) -> Seq<u8> {
    Seq::new(((4 - len % 4) % 4) as nat, |i: int| 0u8)
}

/// The `ScVal` type tag of byte strings.
pub open spec fn scv_bytes_tag() -> u32 {
    13
}

/// The `ScVal` type tag of symbols.
pub open spec fn scv_symbol_tag() -> u32 {
    15
}

/// The `ScVal` type tag of addresses.
pub open spec fn scv_address_tag() -> u32 {
    18
}

/// The shape of the XDR encoding of an address: the `ScVal` address tag
/// followed by an `ScAddress`, which takes 36 to 44 bytes (a contract or
/// pool hash behind its type tag at the least; a muxed account's id and key
/// behind its type tag at the most).
pub open spec fn is_address_xdr(xdr: Seq<u8>) -> bool {
    &&& 40 <= xdr.len() <= 48
    &&& xdr.subrange(0, 4) == be32(scv_address_tag())
}

/// The XDR encoding of a 32-byte `BytesN<32>` value.
pub open spec fn bytes32_xdr(bytes: Seq<u8>) -> Seq<u8> {
    be32(scv_bytes_tag()) + be32(32) + bytes
}

/// A character that a `Symbol` may hold: `a-z`, `A-Z`, `0-9` or `_`.
pub open spec fn is_symbol_char(c: char) -> bool {
    ('a' <= c && c <= 'z') || ('A' <= c && c <= 'Z') || ('0' <= c && c <= '9') || c == '_'
}

/// A text that `Symbol::new` accepts: at most 32 symbol characters.
pub open spec fn is_symbol_text(text: Seq<char>) -> bool {
    text.len() <= 32 && forall|i: int| 0 <= i < text.len() ==> is_symbol_char(#[trigger] text[i])
}

/// The bytes of an ASCII text.
pub open spec fn ascii_bytes(text: Seq<char>) -> Seq<u8> {
    text.map_values(|c: char| c as u8)
}

/// The XDR encoding of the `Symbol` holding `text`.
pub open spec fn symbol_xdr(text: Seq<char>) -> Seq<u8> {
    be32(scv_symbol_tag()) + be32(text.len() as u32) + ascii_bytes(text) + xdr_padding(text.len())
}

/// The SHA-256 digest of a byte string, as the Soroban host computes it.
pub uninterp spec fn sha256_digest(data: Seq<u8>) -> Seq<u8>;

/// Calls `soroban_sdk::crypto::Crypto::sha256` on a copy of `data` held in
/// host memory, and returns the 32 digest bytes. The result is stated to be
/// the digest of `data`, named by `sha256_digest`. The host also meters the
/// call against its resource budget and stops when that is exhausted; that
/// depends on the whole run and is not stated.
#[verifier::external_body]
pub(crate) fn sha256(env: &soroban_sdk::Env, data: &[u8]) -> (digest: [u8; 32])
    requires
        data@.len() <= u32::MAX,
    ensures
        digest@ == sha256_digest(data@),
{
    let bytes = soroban_sdk::Bytes::from_slice(env, data);
    env.crypto().sha256(&bytes).to_array()
}

/// Calls `ToXdr::to_xdr` on the `BytesN<32>` holding `bytes`. The result is
/// stated to be the XDR encoding of that `ScVal::Bytes`: tag, length 32, and
/// the bytes themselves (32 needs no padding).
#[verifier::external_body]
pub(crate) fn encode_bytes32(env: &soroban_sdk::Env, bytes: &[u8; 32]) -> (xdr: Vec<u8>)
    ensures
        xdr@ == bytes32_xdr(bytes@),
{
    let value = soroban_sdk::BytesN::<32>::from_array(env, bytes);
    value.to_xdr(env).iter().collect()
}

/// Calls `Symbol::new` on `text` and `ToXdr::to_xdr` on the symbol.
/// `Symbol::new` panics on a text of more than 32 characters or with a
/// character outside `a-zA-Z0-9_`, so `requires` leaves those out. The result
/// is stated to be the XDR encoding of that `ScVal::Symbol`: tag, length,
/// the characters as bytes, and padding.
#[verifier::external_body]
pub(crate) fn encode_symbol(env: &soroban_sdk::Env, text: &str) -> (xdr: Vec<u8>)
    requires
        is_symbol_text(text@),
    ensures
        xdr@ == symbol_xdr(text@),
{
    let symbol = soroban_sdk::Symbol::new(env, text);
    symbol.to_xdr(env).iter().collect()
}

/// Calls `ToXdr::to_xdr` on an address. The result is stated to have the
/// shape of an `ScVal::Address` encoding: its tag, then an `ScAddress` of
/// 36 to 44 bytes. An address is opaque to this library, so which bytes
/// follow the tag, and that they depend on the address alone, is not stated.
#[verifier::external_body]
pub(crate) fn encode_address(env: &soroban_sdk::Env, address: &soroban_sdk::Address) -> (xdr: Vec<
    u8,
>)
    ensures
        is_address_xdr(xdr@),
{
    address.clone().to_xdr(env).iter().collect()
}

} // verus!
