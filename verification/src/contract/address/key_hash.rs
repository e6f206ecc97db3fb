//! Addresses of a single natural key.

use crate::contract::address::{
    hash, key_fragment, last_hash_length, lemma_key_fragment_length, lemma_text_length_concat,
    lengths_fit, room, text_len, text_length, Addresser, AddresserError, ADDRESS_LENGTH,
};
use vstd::prelude::*;
use vstd::string::*;
use vstd::utf8::*;

verus! {

/// Maps one natural key to the prefix followed by the leading digits of the
/// key's digest.
pub struct KeyHashAddresser {
    prefix: String,
}

impl KeyHashAddresser {
    /// The length of the key's fragment: what the prefix leaves.
    pub open spec fn hash_length(&self) -> nat {
        room(text_length(self.prefix()), 0)
    }

    /// The part of `address` where the key's fragment stands.
    pub open spec fn fragment(&self, address: Seq<char>) -> Seq<char> {
        address.subrange(
            self.prefix().len() as int,
            (self.prefix().len() + self.hash_length()) as int,
        )
    }

    /// Makes the addresser of single keys under `prefix`.
    pub fn new(prefix: String) -> (res: KeyHashAddresser)
        ensures
            res.prefix() == prefix@,
    {
        KeyHashAddresser { prefix }
    }
}

/// An address is made of its two parts and of nothing else: the prefix, then
/// the key's fragment. Under an ASCII prefix that fits it has exactly
/// `ADDRESS_LENGTH` characters.
pub proof fn lemma_key_layout(addresser: &KeyHashAddresser, key: &String)
    ensures
        addresser.address(key).len() == addresser.prefix().len() + addresser.hash_length(),
        addresser.address(key).subrange(0, addresser.prefix().len() as int) == addresser.prefix(),
        addresser.fragment(addresser.address(key)) == key_fragment(addresser.hash_length(), key@),
        addresser.fits() && is_ascii_chars(addresser.prefix()) ==> addresser.address(key).len()
            == ADDRESS_LENGTH,
{
    if is_ascii_chars(addresser.prefix()) {
        is_ascii_chars_encode_utf8(addresser.prefix());
    }
}

impl Clone for KeyHashAddresser {
    fn clone(&self) -> (res: Self)
        ensures
            res == *self,
    {
        KeyHashAddresser { prefix: self.prefix.clone() }
    }
}

impl Addresser<String> for KeyHashAddresser {
    closed spec fn prefix(&self) -> Seq<char> {
        self.prefix@
    }

    open spec fn fits(&self) -> bool {
        lengths_fit(text_length(self.prefix()), 0)
    }

    open spec fn address(&self, key: &String) -> Seq<char> {
        self.prefix() + key_fragment(self.hash_length(), key@)
    }

    open spec fn normalized(&self, key: &String) -> Seq<char> {
        key@
    }

    fn compute(&self, key: &String) -> (res: Result<String, AddresserError>)
        ensures
            res matches Err(e) ==> e.message@ == "Invalid hash length"@,
    {
        let hash_length = match last_hash_length(text_len(&self.prefix), 0, 0) {
            Some(length) => length,
            None => {
                return Err(AddresserError { message: "Invalid hash length".to_string() });
            },
        };
        let key_hash = hash(hash_length, key.as_str());
        proof {
            lemma_key_fragment_length(hash_length as nat, key@);
            lemma_text_length_concat(self.prefix@, key_hash@);
        }
        Ok(self.prefix.clone().concat(key_hash.as_str()))
    }

    fn normalize(&self, key: &String) -> (res: String) {
        key.clone()
    }
}

} // verus!
