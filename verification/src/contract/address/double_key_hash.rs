//! Addresses of a pair of natural keys.

use crate::contract::address::{
    hash, key_fragment, last_hash_length, lemma_key_fragment_length, lemma_text_length_concat,
    lengths_fit, room, room_after, text_len, text_length, Addresser, AddresserError,
    ADDRESS_LENGTH,
};
use vstd::prelude::*;
use vstd::string::*;
use vstd::utf8::*;

verus! {

/// Maps a pair of natural keys to the prefix followed by a fragment of each
/// key's digest. The first fragment has a configured length; the second fills
/// the address.
pub struct DoubleKeyHashAddresser {
    prefix: String,
    first_hash_length: usize,
}

impl DoubleKeyHashAddresser {
    /// The configured length of the first key's fragment.
    pub closed spec fn first_hash_length(&self) -> nat {
        self.first_hash_length as nat
    }

    /// The length of the second key's fragment: what the prefix and the first
    /// fragment leave.
    pub open spec fn second_hash_length(&self) -> nat {
        room(text_length(self.prefix()), self.first_hash_length())
    }

    /// The part of `address` where the first key's fragment stands.
    pub open spec fn first_fragment(&self, address: Seq<char>) -> Seq<char> {
        address.subrange(
            self.prefix().len() as int,
            (self.prefix().len() + self.first_hash_length()) as int,
        )
    }

    /// The part of `address` where the second key's fragment stands.
    pub open spec fn second_fragment(&self, address: Seq<char>) -> Seq<char> {
        address.subrange(
            (self.prefix().len() + self.first_hash_length()) as int,
            (self.prefix().len() + self.first_hash_length() + self.second_hash_length()) as int,
        )
    }

    /// Makes an addresser whose first fragment has the length given, or half
    /// of what the prefix leaves, rounded down, where none is given. With the
    /// default, a prefix that fits in an address makes an addresser that fits.
    pub fn new(prefix: String, first_hash_length: Option<usize>) -> (res: DoubleKeyHashAddresser)
        ensures
            res.prefix() == prefix@,
            res.first_hash_length() == match first_hash_length {
                Some(first) => first as nat,
                None => room(text_length(prefix@), 0) / 2,
            },
            first_hash_length is None && lengths_fit(text_length(prefix@), 0) ==> res.fits(),
    {
        let first = match first_hash_length {
            Some(first) => first,
            None => room_after(text_len(&prefix), 0) / 2,
        };
        DoubleKeyHashAddresser { prefix, first_hash_length: first }
    }
}

/// The default shares the room evenly and the second fragment takes up the
/// slack: under a prefix that fits, a first fragment of the default length is
/// as long as the second, or shorter by 1.
pub proof fn lemma_default_length_even(prefix_length: nat)
    requires
        lengths_fit(prefix_length, 0),
    ensures
        room(prefix_length, 0) / 2 <= room(prefix_length, room(prefix_length, 0) / 2) <= room(
            prefix_length,
            0,
        ) / 2 + 1,
{
}

impl Clone for DoubleKeyHashAddresser {
    fn clone(&self) -> (res: Self)
        ensures
            res == *self,
    {
        DoubleKeyHashAddresser {
            prefix: self.prefix.clone(),
            first_hash_length: self.first_hash_length,
        }
    }
}

/// An address is made of its three parts and of nothing else: the prefix, then
/// the first key's fragment, then the second key's. Under an ASCII prefix that
/// fits it has exactly `ADDRESS_LENGTH` characters.
pub proof fn lemma_double_key_layout(addresser: &DoubleKeyHashAddresser, key: &(String, String))
    ensures
        addresser.fits() && is_ascii_chars(addresser.prefix()) ==> addresser.address(key).len()
            == ADDRESS_LENGTH,
        addresser.address(key).len() == addresser.prefix().len() + addresser.first_hash_length()
            + addresser.second_hash_length(),
        addresser.address(key).subrange(0, addresser.prefix().len() as int) == addresser.prefix(),
        addresser.first_fragment(addresser.address(key)) == key_fragment(
            addresser.first_hash_length(),
            key.0@,
        ),
        addresser.second_fragment(addresser.address(key)) == key_fragment(
            addresser.second_hash_length(),
            key.1@,
        ),
{
    if is_ascii_chars(addresser.prefix()) {
        is_ascii_chars_encode_utf8(addresser.prefix());
    }
}

/// A fragment of an address depends on its own key alone: where two pairs
/// agree in one key, their addresses agree in that key's fragment, whatever
/// the other key is.
pub proof fn lemma_double_key_fragments_independent(
    addresser: &DoubleKeyHashAddresser,
    key: &(String, String),
    other: &(String, String),
)
    ensures
        key.0@ == other.0@ ==> addresser.first_fragment(addresser.address(key))
            == addresser.first_fragment(addresser.address(other)),
        key.1@ == other.1@ ==> addresser.second_fragment(addresser.address(key))
            == addresser.second_fragment(addresser.address(other)),
{
    lemma_double_key_layout(addresser, key);
    lemma_double_key_layout(addresser, other);
}

/// `word`, `count` times in a row.
pub open spec fn repeated(word: Seq<char>, count: nat) -> Seq<char>
    decreases count,
{
    if count == 0 {
        Seq::empty()
    } else {
        word + repeated(word, (count - 1) as nat)
    }
}

/// Whether `left` and `right` are one word, repeated a different number of
/// times in each.
pub open spec fn repeat_one_word(left: Seq<char>, right: Seq<char>) -> bool {
    exists|word: Seq<char>, m: nat, n: nat|
        m != n && left == #[trigger] repeated(word, m) && right == #[trigger] repeated(word, n)
}

/// Repetitions of one word join to a repetition of it.
proof fn lemma_repeated_join(word: Seq<char>, m: nat, n: nat)
    ensures
        repeated(word, m) + repeated(word, n) == repeated(word, m + n),
        repeated(word, m + n).len() == repeated(word, m).len() + repeated(word, n).len(),
    decreases m,
{
    if m > 0 {
        lemma_repeated_join(word, (m - 1) as nat, n);
    }
}

/// Two texts that can be joined in either order to the same text are
/// repetitions of one word. Returns the word and the two counts.
proof fn lemma_commuting_texts(left: Seq<char>, right: Seq<char>) -> (res: (Seq<char>, nat, nat))
    requires
        left + right == right + left,
    ensures
        left == repeated(res.0, res.1),
        right == repeated(res.0, res.2),
    decreases left.len() + right.len(),
{
    if left.len() == 0 {
        assert(repeated(right, 1) =~= right) by {
            assert(repeated(right, 0) =~= Seq::<char>::empty());
        }
        (right, 0, 1)
    } else if right.len() == 0 {
        assert(repeated(left, 1) =~= left) by {
            assert(repeated(left, 0) =~= Seq::<char>::empty());
        }
        (left, 1, 0)
    } else if left.len() <= right.len() {
        let rest = right.subrange(left.len() as int, right.len() as int);
        assert(right =~= left + rest) by {
            assert forall|i: int| 0 <= i < left.len() implies right[i] == left[i] by {
                assert((left + right)[i] == left[i]);
            }
        }
        assert(left + rest =~= rest + left) by {
            assert forall|i: int| 0 <= i < left.len() + rest.len() implies #[trigger] (left
                + rest)[i] == (rest + left)[i] by {
                assert((left + right)[left.len() + i] == right[i]);
            }
        }
        let (word, m, k) = lemma_commuting_texts(left, rest);
        lemma_repeated_join(word, m, k);
        (word, m, m + k)
    } else {
        let rest = left.subrange(right.len() as int, left.len() as int);
        assert(left =~= right + rest) by {
            assert forall|i: int| 0 <= i < right.len() implies left[i] == right[i] by {
                assert((left + right)[i] == left[i]);
            }
        }
        assert(rest + right =~= right + rest) by {
            assert forall|i: int| 0 <= i < right.len() + rest.len() implies #[trigger] (rest
                + right)[i] == (right + rest)[i] by {
                assert((right + left)[right.len() + i] == left[i]);
            }
        }
        let (word, k, n) = lemma_commuting_texts(rest, right);
        lemma_repeated_join(word, n, k);
        (word, n + k, n)
    }
}

/// The order of the keys shows in their readable form: a pair and the same
/// pair swapped read differently, unless the two keys are equal. Left out are
/// the pairs whose keys, each with the separator behind it, are one word
/// repeated a different number of times: those read the same either way.
pub proof fn lemma_normalize_order(
    addresser: &DoubleKeyHashAddresser,
    first: String,
    second: String,
)
    requires
        !repeat_one_word(first@ + seq!['_'], second@ + seq!['_']),
    ensures
        first@ == second@ || addresser.normalized(&(first, second)) != addresser.normalized(
            &(second, first),
        ),
{
    let separator = seq!['_'];
    let left = first@ + separator;
    let right = second@ + separator;
    if addresser.normalized(&(first, second)) == addresser.normalized(&(second, first)) {
        assert(left + right =~= (first@ + separator + second@) + separator);
        assert(right + left =~= (second@ + separator + first@) + separator);
        lemma_commuting_texts(left, right);
        assert(first@ =~= left.drop_last());
    }
}

/// The pairs that the law of order leaves out do read the same either way,
/// though their keys differ.
pub proof fn lemma_normalize_order_exception(
    addresser: &DoubleKeyHashAddresser,
    first: String,
    second: String,
)
    requires
        repeat_one_word(first@ + seq!['_'], second@ + seq!['_']),
    ensures
        first@ != second@,
        addresser.normalized(&(first, second)) == addresser.normalized(&(second, first)),
{
    let separator = seq!['_'];
    let left = first@ + separator;
    let right = second@ + separator;
    let (word, m, n): (Seq<char>, nat, nat) = choose|word: Seq<char>, m: nat, n: nat|
        m != n && left == #[trigger] repeated(word, m) && right == #[trigger] repeated(word, n);
    lemma_repeated_join(word, m, n);
    lemma_repeated_join(word, n, m);
    assert(addresser.normalized(&(first, second)) =~= (left + right).drop_last());
    if first@ == second@ {
        if m < n {
            lemma_repeated_join(word, m, (n - m) as nat);
            lemma_repeated_nonempty(word, m, (n - m) as nat);
        } else {
            lemma_repeated_join(word, n, (m - n) as nat);
            lemma_repeated_nonempty(word, n, (m - n) as nat);
        }
    }
}

/// A word that is not empty, repeated at least once, gives a text that is
/// not empty; the empty word gives the empty text however often it is
/// repeated.
proof fn lemma_repeated_nonempty(word: Seq<char>, m: nat, extra: nat)
    requires
        extra > 0,
    ensures
        word.len() > 0 ==> repeated(word, extra).len() > 0,
        word.len() == 0 ==> repeated(word, m).len() == 0,
    decreases m,
{
    if m > 0 {
        lemma_repeated_nonempty(word, (m - 1) as nat, extra);
    }
}

impl Addresser<(String, String)> for DoubleKeyHashAddresser {
    closed spec fn prefix(&self) -> Seq<char> {
        self.prefix@
    }

    open spec fn fits(&self) -> bool {
        lengths_fit(text_length(self.prefix()), self.first_hash_length())
    }

    open spec fn address(&self, key: &(String, String)) -> Seq<char> {
        self.prefix() + key_fragment(self.first_hash_length(), key.0@) + key_fragment(
            self.second_hash_length(),
            key.1@,
        )
    }

    open spec fn normalized(&self, key: &(String, String)) -> Seq<char> {
        key.0@ + seq!['_'] + key.1@
    }

    fn compute(&self, key: &(String, String)) -> (res: Result<String, AddresserError>)
        ensures
            res matches Err(e) ==> e.message@ == "Invalid hash length"@,
    {
        let second_hash_length = match last_hash_length(
            text_len(&self.prefix),
            self.first_hash_length,
            0,
        ) {
            Some(length) => length,
            None => {
                return Err(AddresserError { message: "Invalid hash length".to_string() });
            },
        };
        let first_hash = hash(self.first_hash_length, key.0.as_str());
        let second_hash = hash(second_hash_length, key.1.as_str());
        proof {
            lemma_key_fragment_length(self.first_hash_length as nat, key.0@);
            lemma_key_fragment_length(second_hash_length as nat, key.1@);
            lemma_text_length_concat(self.prefix@, first_hash@);
            lemma_text_length_concat(self.prefix@ + first_hash@, second_hash@);
        }
        Ok(self.prefix.clone().concat(first_hash.as_str()).concat(second_hash.as_str()))
    }

    fn normalize(&self, key: &(String, String)) -> (res: String) {
        proof {
            reveal_strlit("_");
        }
        key.0.clone().concat("_").concat(key.1.as_str())
    }
}

} // verus!
