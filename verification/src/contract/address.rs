//! Radix addresses: a prefix followed by leading hex digits of the SHA-512
//! digests of one, two or three natural keys.

pub mod error;
pub mod double_key_hash;
pub mod key_hash;
pub mod triple_key_hash;

pub use crate::contract::address::error::AddresserError;

use sha2::{Digest, Sha512};
use vstd::prelude::*;
use vstd::string::*;
use vstd::utf8::*;

verus! {

/// The length of every radix address, in bytes of its UTF-8 text.
pub const ADDRESS_LENGTH: usize = 70;

/// The number of hex digits in a SHA-512 digest.
pub const DIGEST_HEX_LENGTH: usize = 128;

/// The SHA-512 digest of `bytes`.
pub uninterp spec fn sha512(bytes: Seq<u8>) -> Seq<u8>;

/// The lowercase hex digits, by value.
pub open spec fn hex_digits() -> Seq<char> {
    seq!['0', '1', '2', '3', '4', '5', '6', '7', '8', '9', 'a', 'b', 'c', 'd', 'e', 'f']
}

/// The `i`-th hex digit of `bytes`: the high half of byte `i / 2` at even `i`,
/// its low half at odd `i`.
pub open spec fn hex_digit_at(bytes: Seq<u8>, i: int) -> char {
    let byte = bytes[i / 2];
    if i % 2 == 0 {
        hex_digits()[byte as int / 16]
    } else {
        hex_digits()[byte as int % 16]
    }
}

/// The lowercase hex text of `bytes`, two digits per byte.
pub open spec fn hex_encoding(bytes: Seq<u8>) -> Seq<char> {
    Seq::new(2 * bytes.len(), |i: int| hex_digit_at(bytes, i))
}

/// The first `length` hex digits of `bytes`.
pub open spec fn leading_hex(bytes: Seq<u8>, length: nat) -> Seq<char> {
    Seq::new(length, |i: int| hex_digit_at(bytes, i))
}

/// The fragment of `length` digits that stands for `key` in an address: the
/// first `length` hex digits of the SHA-512 digest of the key's UTF-8 text.
pub open spec fn key_fragment(length: nat, key: Seq<char>) -> Seq<char> {
    leading_hex(sha512(encode_utf8(key)), length)
}

/// The length of a text as `str::len` measures it: the number of bytes of its
/// UTF-8 form.
pub open spec fn text_length(text: Seq<char>) -> nat {
    encode_utf8(text).len()
}

/// Whether a prefix of `prefix_length` bytes and fragments of `taken` digits in
/// all fit in an address.
pub open spec fn lengths_fit(prefix_length: nat, taken: nat) -> bool {
    prefix_length + taken <= ADDRESS_LENGTH
}

/// What is left of an address after a prefix of `prefix_length` bytes and
/// fragments of `taken` digits in all: nothing where they do not fit.
pub open spec fn room(prefix_length: nat, taken: nat) -> nat {
    if lengths_fit(prefix_length, taken) {
        (ADDRESS_LENGTH - prefix_length - taken) as nat
    } else {
        0
    }
}

/// Returns the length of the last fragment of an address whose prefix takes
/// `prefix_length` bytes and whose earlier fragments take `first` and `second`
/// digits: whatever they leave, so that the whole is exactly `ADDRESS_LENGTH`
/// long. Returns `None` where they leave less than nothing.
pub fn last_hash_length(prefix_length: usize, first: usize, second: usize) -> (res: Option<usize>)
    ensures
        res is Some <==> lengths_fit(prefix_length as nat, (first + second) as nat),
        res matches Some(last) ==> {
            &&& last == room(prefix_length as nat, (first + second) as nat)
            &&& prefix_length + first + second + last == ADDRESS_LENGTH
        },
{
    match ADDRESS_LENGTH.checked_sub(prefix_length) {
        Some(hash_length) => match hash_length.checked_sub(first) {
            Some(rest) => rest.checked_sub(second),
            None => None,
        },
        None => None,
    }
}

/// Returns what is left of an address after `prefix_length` bytes and `taken`
/// digits, and 0 where they do not fit.
pub fn room_after(prefix_length: usize, taken: usize) -> (res: usize)
    ensures
        res == room(prefix_length as nat, taken as nat),
{
    match last_hash_length(prefix_length, taken, 0) {
        Some(rest) => rest,
        None => 0,
    }
}

/// Derives radix addresses from natural keys of type `K`.
pub trait Addresser<K> {
    /// The prefix that every address of this addresser starts with.
    spec fn prefix(&self) -> Seq<char>;

    /// Whether the prefix and the configured fragment lengths fit in an
    /// address, so that the last fragment can fill it exactly.
    spec fn fits(&self) -> bool;

    /// The address of `key`, where the configuration fits.
    spec fn address(&self, key: &K) -> Seq<char>;

    /// The readable form of `key`.
    spec fn normalized(&self, key: &K) -> Seq<char>;

    /// Returns the radix address of `key`, or an error where the configured
    /// lengths do not fit in an address.
    fn compute(&self, key: &K) -> (res: Result<String, AddresserError>)
        ensures
            res is Ok <==> self.fits(),
            res matches Ok(address) ==> {
                &&& address@ == self.address(key)
                &&& text_length(address@) == ADDRESS_LENGTH
                &&& self.prefix().is_prefix_of(address@)
            },
    ;

    /// Returns a readable string of `key`.
    fn normalize(&self, key: &K) -> (res: String)
        ensures
            res@ == self.normalized(key),
    ;
}

/// Two computations of the address of one key by one addresser agree: both
/// fail, or both give the same address.
pub proof fn lemma_compute_deterministic<K, A: Addresser<K>>(
    addresser: &A,
    key: &K,
    first: Result<String, AddresserError>,
    second: Result<String, AddresserError>,
)
    requires
        call_ensures(A::compute, (addresser, key), first),
        call_ensures(A::compute, (addresser, key), second),
    ensures
        first is Ok <==> second is Ok,
        first matches Ok(address) ==> second matches Ok(again) && address@ == again@,
{
}

/// Calls `Sha512::digest` of the sha2 crate. The result is the SHA-512 digest
/// of `data`, which is 64 bytes long.
#[verifier::external_body]
fn sha512_digest(data: &[u8]) -> (digest: Vec<u8>)
    ensures
        digest@ == sha512(data@),
        digest@.len() == 64,
{
    Sha512::digest(data).to_vec()
}

/// Calls `hex::encode`. The result holds two lowercase hex digits for each
/// byte of `data`, the high half first.
#[verifier::external_body]
fn hex_encode(data: &Vec<u8>) -> (text: String)
    ensures
        text@ == hex_encoding(data@),
{
    hex::encode(data)
}

/// Every hex digit is an ASCII character.
pub proof fn lemma_hex_digit_is_ascii(bytes: Seq<u8>, i: int)
    ensures
        (hex_digit_at(bytes, i) as u32) < 128,
{
}

/// A fragment has the length asked for, in characters and in bytes, and holds
/// ASCII only.
pub proof fn lemma_key_fragment_length(length: nat, key: Seq<char>)
    ensures
        key_fragment(length, key).len() == length,
        is_ascii_chars(key_fragment(length, key)),
        text_length(key_fragment(length, key)) == length,
{
    let fragment = key_fragment(length, key);
    assert forall|i: int| 0 <= i < fragment.len() implies '\0' <= #[trigger] fragment[i]
        <= '\u{7f}' by {
        lemma_hex_digit_is_ascii(sha512(encode_utf8(key)), i);
    }
    is_ascii_chars_encode_utf8(fragment);
}

/// The UTF-8 form of a concatenation is the concatenation of the UTF-8 forms.
pub proof fn lemma_encode_utf8_concat(left: Seq<char>, right: Seq<char>)
    ensures
        encode_utf8(left + right) == encode_utf8(left) + encode_utf8(right),
    decreases left.len(),
{
    if left.len() > 0 {
        lemma_encode_utf8_concat(left.drop_first(), right);
        assert((left + right).drop_first() =~= left.drop_first() + right);
    }
}

/// Lengths of texts add up under concatenation.
pub proof fn lemma_text_length_concat(left: Seq<char>, right: Seq<char>)
    ensures
        text_length(left + right) == text_length(left) + text_length(right),
{
    lemma_encode_utf8_concat(left, right);
}

/// Returns the length of `text` in bytes.
pub fn text_len(text: &String) -> (length: usize)
    ensures
        length == text_length(text@),
{
    text.as_str().as_bytes().len()
}

/// Returns the first `length` hex digits of `bytes`, which hold that many.
pub fn leading_hex_digits(bytes: &Vec<u8>, length: usize) -> (res: String)
    requires
        length <= 2 * bytes.len(),
    ensures
        res@ == leading_hex(bytes@, length as nat),
{
    let text = hex_encode(bytes);
    proof {
        assert forall|i: int| 0 <= i < text@.len() implies '\0' <= #[trigger] text@[i]
            <= '\u{7f}' by {
            lemma_hex_digit_is_ascii(bytes@, i);
        }
    }
    let head = text.as_str().substring_ascii(0, length);
    String::from_str(head)
}

/// Returns the first `hash_length` hex digits of the SHA-512 digest of `key`.
pub fn hash(hash_length: usize, key: &str) -> (res: String)
    requires
        hash_length <= DIGEST_HEX_LENGTH,
    ensures
        res@ == key_fragment(hash_length as nat, key@),
{
    let digest = sha512_digest(key.as_bytes());
    leading_hex_digits(&digest, hash_length)
}

} // verus!
