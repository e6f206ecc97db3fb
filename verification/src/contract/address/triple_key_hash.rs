//! Addresses of a triple of natural keys.

use crate::contract::address::{
    hash, key_fragment, last_hash_length, lemma_key_fragment_length, lemma_text_length_concat,
    lengths_fit, room, room_after, text_len, text_length, Addresser, AddresserError,
    ADDRESS_LENGTH,
};
use vstd::prelude::*;
use vstd::string::*;
use vstd::utf8::*;

verus! {

/// Maps a triple of natural keys to the prefix followed by a fragment of each
/// key's digest. The first two fragments have configured lengths; the third
/// fills the address.
pub struct TripleKeyHashAddresser {
    prefix: String,
    first_hash_length: usize,
    second_hash_length: usize,
}

/// What a fragment takes for certain: its length where one is given, nothing
/// where it is left to the default.
pub open spec fn given_length(length: Option<usize>) -> nat {
    match length {
        Some(given) => given as nat,
        None => 0,
    }
}

/// The lengths of the first two fragments after a prefix of `prefix_length`
/// bytes. A length that is given stands. One that is missing beside a given one
/// is half of what the prefix and the given one leave; where both are missing,
/// each is a third of what the prefix leaves. Halves and thirds are rounded
/// down.
pub open spec fn resolved_hash_lengths(
    prefix_length: nat,
    first_length: Option<usize>,
    second_length: Option<usize>,
) -> (nat, nat) {
    match (first_length, second_length) {
        (Some(first), Some(second)) => (first as nat, second as nat),
        (None, Some(second)) => (room(prefix_length, second as nat) / 2, second as nat),
        (Some(first), None) => (first as nat, room(prefix_length, first as nat) / 2),
        (None, None) => (room(prefix_length, 0) / 3, room(prefix_length, 0) / 3),
    }
}

/// Returns the lengths of the first two fragments of a three-key address.
pub fn calculate_hash_lengths(
    prefix_length: usize,
    first_length: Option<usize>,
    second_length: Option<usize>,
) -> (res: (usize, usize))
    ensures
        (res.0 as nat, res.1 as nat) == resolved_hash_lengths(
            prefix_length as nat,
            first_length,
            second_length,
        ),
{
    match (first_length, second_length) {
        (Some(first), Some(second)) => (first, second),
        (None, Some(second)) => (room_after(prefix_length, second) / 2, second),
        (Some(first), None) => (first, room_after(prefix_length, first) / 2),
        (None, None) => (room_after(prefix_length, 0) / 3, room_after(prefix_length, 0) / 3),
    }
}

impl TripleKeyHashAddresser {
    /// The configured length of the first key's fragment.
    pub closed spec fn first_hash_length(&self) -> nat {
        self.first_hash_length as nat
    }

    /// The configured length of the second key's fragment.
    pub closed spec fn second_hash_length(&self) -> nat {
        self.second_hash_length as nat
    }

    /// The length of the third key's fragment: what the prefix and the first
    /// two fragments leave.
    pub open spec fn last_hash_length(&self) -> nat {
        room(text_length(self.prefix()), self.first_hash_length() + self.second_hash_length())
    }

    /// The part of `address` where the first key's fragment stands.
    pub open spec fn first_fragment(&self, address: Seq<char>) -> Seq<char> {
        address.subrange(
            self.prefix().len() as int,
            (self.prefix().len() + self.first_hash_length()) as int,
        )
    }

    /// The part of `address` where the second key's fragment stands.
    pub open spec fn second_fragment(&self, address: Seq<char>) -> Seq<char> {
        address.subrange(
            (self.prefix().len() + self.first_hash_length()) as int,
            (self.prefix().len() + self.first_hash_length() + self.second_hash_length()) as int,
        )
    }

    /// The part of `address` where the third key's fragment stands.
    pub open spec fn last_fragment(&self, address: Seq<char>) -> Seq<char> {
        address.subrange(
            (self.prefix().len() + self.first_hash_length() + self.second_hash_length()) as int,
            (self.prefix().len() + self.first_hash_length() + self.second_hash_length()
                + self.last_hash_length()) as int,
        )
    }

    /// Makes an addresser whose first two fragments have the lengths given,
    /// or their defaults where none is given. Where the prefix and the
    /// lengths given fit in an address, the addresser fits.
    pub fn new(
        prefix: String,
        first_hash_length: Option<usize>,
        second_hash_length: Option<usize>,
    ) -> (res: TripleKeyHashAddresser)
        ensures
            res.prefix() == prefix@,
            (res.first_hash_length(), res.second_hash_length()) == resolved_hash_lengths(
                text_length(prefix@),
                first_hash_length,
                second_hash_length,
            ),
            lengths_fit(
                text_length(prefix@),
                given_length(first_hash_length) + given_length(second_hash_length),
            ) ==> res.fits(),
    {
        let (first, second) = calculate_hash_lengths(
            text_len(&prefix),
            first_hash_length,
            second_hash_length,
        );
        TripleKeyHashAddresser { prefix, first_hash_length: first, second_hash_length: second }
    }
}

impl Clone for TripleKeyHashAddresser {
    fn clone(&self) -> (res: Self)
        ensures
            res == *self,
    {
        TripleKeyHashAddresser {
            prefix: self.prefix.clone(),
            first_hash_length: self.first_hash_length,
            second_hash_length: self.second_hash_length,
        }
    }
}

/// An address is made of its four parts and of nothing else: the prefix, then
/// the fragments of the first, the second and the third key. Under an ASCII
/// prefix that fits it has exactly `ADDRESS_LENGTH` characters.
pub proof fn lemma_triple_key_layout(
    addresser: &TripleKeyHashAddresser,
    key: &(String, String, String),
)
    ensures
        addresser.fits() && is_ascii_chars(addresser.prefix()) ==> addresser.address(key).len()
            == ADDRESS_LENGTH,
        addresser.address(key).len() == addresser.prefix().len() + addresser.first_hash_length()
            + addresser.second_hash_length() + addresser.last_hash_length(),
        addresser.address(key).subrange(0, addresser.prefix().len() as int) == addresser.prefix(),
        addresser.first_fragment(addresser.address(key)) == key_fragment(
            addresser.first_hash_length(),
            key.0@,
        ),
        addresser.second_fragment(addresser.address(key)) == key_fragment(
            addresser.second_hash_length(),
            key.1@,
        ),
        addresser.last_fragment(addresser.address(key)) == key_fragment(
            addresser.last_hash_length(),
            key.2@,
        ),
{
    if is_ascii_chars(addresser.prefix()) {
        is_ascii_chars_encode_utf8(addresser.prefix());
    }
}

/// A fragment of an address depends on its own key alone: where two triples
/// agree in one key, their addresses agree in that key's fragment, whatever
/// the other keys are.
pub proof fn lemma_triple_key_fragments_independent(
    addresser: &TripleKeyHashAddresser,
    key: &(String, String, String),
    other: &(String, String, String),
)
    ensures
        key.0@ == other.0@ ==> addresser.first_fragment(addresser.address(key))
            == addresser.first_fragment(addresser.address(other)),
        key.1@ == other.1@ ==> addresser.second_fragment(addresser.address(key))
            == addresser.second_fragment(addresser.address(other)),
        key.2@ == other.2@ ==> addresser.last_fragment(addresser.address(key))
            == addresser.last_fragment(addresser.address(other)),
{
    lemma_triple_key_layout(addresser, key);
    lemma_triple_key_layout(addresser, other);
}

/// Defaults never overfill an address: where the prefix and the lengths that
/// are given fit, so do the prefix and the lengths resolved from them.
pub proof fn lemma_resolved_lengths_fit(
    prefix_length: nat,
    first_length: Option<usize>,
    second_length: Option<usize>,
)
    requires
        lengths_fit(prefix_length, given_length(first_length) + given_length(second_length)),
    ensures
        lengths_fit(
            prefix_length,
            resolved_hash_lengths(prefix_length, first_length, second_length).0
                + resolved_hash_lengths(prefix_length, first_length, second_length).1,
        ),
{
}

/// A default shares the room evenly and the last fragment takes up the slack:
/// a length left to the default is at most that of the last fragment, by no
/// more than 1 less where the other length is given, by no more than 2 less
/// where both are left to the default.
pub proof fn lemma_default_lengths_even(
    prefix_length: nat,
    first_length: Option<usize>,
    second_length: Option<usize>,
)
    requires
        lengths_fit(prefix_length, given_length(first_length) + given_length(second_length)),
    ensures
        ({
            let (first, second) = resolved_hash_lengths(prefix_length, first_length, second_length);
            let last = room(prefix_length, first + second);
            &&& first_length is None && second_length is Some ==> first <= last <= first + 1
            &&& first_length is Some && second_length is None ==> second <= last <= second + 1
            &&& first_length is None && second_length is None ==> first == second && first <= last
                <= first + 2
        }),
{
}

impl Addresser<(String, String, String)> for TripleKeyHashAddresser {
    closed spec fn prefix(&self) -> Seq<char> {
        self.prefix@
    }

    open spec fn fits(&self) -> bool {
        lengths_fit(
            text_length(self.prefix()),
            self.first_hash_length() + self.second_hash_length(),
        )
    }

    open spec fn address(&self, key: &(String, String, String)) -> Seq<char> {
        self.prefix() + key_fragment(self.first_hash_length(), key.0@) + key_fragment(
            self.second_hash_length(),
            key.1@,
        ) + key_fragment(self.last_hash_length(), key.2@)
    }

    open spec fn normalized(&self, key: &(String, String, String)) -> Seq<char> {
        key.0@ + seq!['_'] + key.1@ + seq!['_'] + key.2@
    }

    fn compute(&self, key: &(String, String, String)) -> (res: Result<String, AddresserError>)
        ensures
            res matches Err(e) ==> e.message@ == "Hash length does not equal 70"@,
    {
        let last_hash_length = match last_hash_length(
            text_len(&self.prefix),
            self.first_hash_length,
            self.second_hash_length,
        ) {
            Some(length) => length,
            None => {
                return Err(
                    AddresserError { message: "Hash length does not equal 70".to_string() },
                );
            },
        };
        let first_hash = hash(self.first_hash_length, key.0.as_str());
        let second_hash = hash(self.second_hash_length, key.1.as_str());
        let third_hash = hash(last_hash_length, key.2.as_str());
        proof {
            lemma_key_fragment_length(self.first_hash_length as nat, key.0@);
            lemma_key_fragment_length(self.second_hash_length as nat, key.1@);
            lemma_key_fragment_length(last_hash_length as nat, key.2@);
            lemma_text_length_concat(self.prefix@, first_hash@);
            lemma_text_length_concat(self.prefix@ + first_hash@, second_hash@);
            lemma_text_length_concat(self.prefix@ + first_hash@ + second_hash@, third_hash@);
        }
        Ok(
            self.prefix.clone().concat(first_hash.as_str()).concat(second_hash.as_str()).concat(
                third_hash.as_str(),
            ),
        )
    }

    fn normalize(&self, key: &(String, String, String)) -> (res: String) {
        proof {
            reveal_strlit("_");
        }
        key.0.clone().concat("_").concat(key.1.as_str()).concat("_").concat(key.2.as_str())
    }
}

} // verus!
