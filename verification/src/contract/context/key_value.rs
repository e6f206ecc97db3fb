//! A transaction context keyed by natural keys.

use crate::contract::address::{Addresser, AddresserError};
use crate::contract::context::error::ContractContextError;
use crate::handler::{may_delete, may_read, may_write, ContextError, TransactionContext};
use std::marker::PhantomData;
use vstd::prelude::*;

verus! {

/// The keys that `keys` refer to.
pub open spec fn referents<K>(keys: Seq<&K>) -> Seq<K> {
    keys.map_values(|key: &K| *key)
}

/// The address of each of `keys`, in order.
pub open spec fn addresses_of<K, A: Addresser<K>>(addresser: &A, keys: Seq<K>) -> Seq<Seq<char>> {
    Seq::new(keys.len(), |i: int| addresser.address(&keys[i]))
}

/// The value of the first of `entries` that stands at `address`.
pub open spec fn value_at(entries: Seq<(Seq<char>, Seq<u8>)>, address: Seq<char>) -> Option<
    Seq<u8>,
>
    decreases entries.len(),
{
    if entries.len() == 0 {
        None
    } else if entries[0].0 == address {
        Some(entries[0].1)
    } else {
        value_at(entries.drop_first(), address)
    }
}

/// Returns the value of the first of `entries` that stands at `address`.
pub fn find_value(entries: &Vec<(String, Vec<u8>)>, address: &String) -> (res: Option<Vec<u8>>)
    ensures
        match res {
            Some(value) => value_at(entries.deep_view(), address@) == Some(value@),
            None => value_at(entries.deep_view(), address@) is None,
        },
{
    let ghost model = entries.deep_view();
    assert(model.subrange(0, model.len() as int) == model);
    let mut i: usize = 0;
    while i < entries.len()
        invariant
            i <= entries.len(),
            model == entries.deep_view(),
            model.len() == entries.len(),
            value_at(model, address@) == value_at(
                model.subrange(i as int, model.len() as int),
                address@,
            ),
        decreases entries.len() - i,
    {
        let ghost rest = model.subrange(i as int, model.len() as int);
        assert(rest.drop_first() == model.subrange(i + 1, model.len() as int));
        if entries[i].0 == *address {
            return Some(entries[i].1.clone());
        }
        i = i + 1;
    }
    None
}

/// What a read of `keys` yields from the raw entries `raw`: each key whose
/// address holds a value, in the order of `keys`, with the first value that
/// `raw` has at that address.
pub open spec fn entries_by_key<K>(
    keys: Seq<K>,
    addresses: Seq<Seq<char>>,
    raw: Seq<(Seq<char>, Seq<u8>)>,
) -> Seq<(K, Seq<u8>)>
    recommends
        keys.len() == addresses.len(),
    decreases keys.len(),
{
    if keys.len() == 0 {
        Seq::empty()
    } else {
        let found = entries_by_key(keys.drop_last(), addresses.drop_last(), raw);
        match value_at(raw, addresses.last()) {
            Some(value) => found.push((keys.last(), value)),
            None => found,
        }
    }
}

/// The keys and values that `entries` hold.
pub open spec fn key_entries<K>(entries: Seq<(&K, Vec<u8>)>) -> Seq<(K, Seq<u8>)> {
    entries.map_values(|entry: (&K, Vec<u8>)| (*entry.0, entry.1@))
}

/// Returns, for each of `keys` whose address holds a value among `raw`, the key
/// with that value.
pub fn entries_for_keys<'k, K>(
    keys: &Vec<&'k K>,
    addresses: &Vec<String>,
    raw: &Vec<(String, Vec<u8>)>,
) -> (res: Vec<(&'k K, Vec<u8>)>)
    requires
        keys.len() == addresses.len(),
    ensures
        key_entries(res@) == entries_by_key(
            referents(keys@),
            addresses.deep_view(),
            raw.deep_view(),
        ),
{
    let ghost all_keys = referents(keys@);
    let ghost all_addresses = addresses.deep_view();
    let mut found: Vec<(&'k K, Vec<u8>)> = Vec::new();
    let mut i: usize = 0;
    while i < keys.len()
        invariant
            i <= keys.len(),
            keys.len() == addresses.len(),
            all_keys == referents(keys@),
            all_addresses == addresses.deep_view(),
            key_entries(found@) == entries_by_key(
                all_keys.take(i as int),
                all_addresses.take(i as int),
                raw.deep_view(),
            ),
        decreases keys.len() - i,
    {
        assert(all_keys.take(i + 1).drop_last() == all_keys.take(i as int));
        assert(all_addresses.take(i + 1).drop_last() == all_addresses.take(i as int));
        if let Some(value) = find_value(raw, &addresses[i]) {
            found.push((keys[i], value));
        }
        i = i + 1;
    }
    assert(all_keys.take(i as int) == all_keys);
    assert(all_addresses.take(i as int) == all_addresses);
    found
}

/// Whether `res` is what a read of `keys`, which stand at `addresses`, returns
/// when the raw context answers `raw`: the entries by key, or the context's
/// error.
pub open spec fn read_outcome<K>(
    keys: Seq<K>,
    addresses: Seq<Seq<char>>,
    raw: Result<Vec<(String, Vec<u8>)>, ContextError>,
    res: Result<Vec<(&K, Vec<u8>)>, ContractContextError>,
) -> bool {
    match raw {
        Ok(entries) => res matches Ok(found) && key_entries(found@) == entries_by_key(
            keys,
            addresses,
            entries.deep_view(),
        ),
        Err(e) => res matches Err(ContractContextError::TransactionContextError(failure))
            && failure == e,
    }
}

/// Returns what a read of `keys`, which stand at `addresses`, returns when the
/// raw context has answered `raw`.
pub fn read_result<'k, K>(
    keys: &Vec<&'k K>,
    addresses: &Vec<String>,
    raw: Result<Vec<(String, Vec<u8>)>, ContextError>,
) -> (res: Result<Vec<(&'k K, Vec<u8>)>, ContractContextError>)
    requires
        keys.len() == addresses.len(),
    ensures
        read_outcome(referents(keys@), addresses.deep_view(), raw, res),
{
    match raw {
        Ok(entries) => Ok(entries_for_keys(keys, addresses, &entries)),
        Err(e) => Err(ContractContextError::TransactionContextError(e)),
    }
}

/// What a write of `entries` hands to the raw context: each value, in order,
/// with the address of its key.
pub open spec fn addressed_entries<K, A: Addresser<K>>(
    addresser: &A,
    entries: Seq<(K, Seq<u8>)>,
) -> Seq<(Seq<char>, Seq<u8>)> {
    Seq::new(entries.len(), |i: int| (addresser.address(&entries[i].0), entries[i].1))
}

/// Whether `res` is what a write returns when the raw context answers `raw`:
/// the same, with the context's error wrapped.
pub open spec fn write_outcome(
    raw: Result<(), ContextError>,
    res: Result<(), ContractContextError>,
) -> bool {
    match raw {
        Ok(_) => res is Ok,
        Err(e) => res matches Err(ContractContextError::TransactionContextError(failure))
            && failure == e,
    }
}

/// Returns what a write, a receipt or an event returns when the raw context
/// has answered `raw`.
pub fn write_result(raw: Result<(), ContextError>) -> (res: Result<(), ContractContextError>)
    ensures
        write_outcome(raw, res),
{
    match raw {
        Ok(done) => Ok(done),
        Err(e) => Err(ContractContextError::TransactionContextError(e)),
    }
}

/// The keys that a delete of `keys` reports as removed when the raw context
/// has deleted at `deleted`: those whose address is among `deleted`, in the
/// order of `keys`.
pub open spec fn removed_keys<K>(
    keys: Seq<K>,
    addresses: Seq<Seq<char>>,
    deleted: Seq<Seq<char>>,
) -> Seq<K>
    recommends
        keys.len() == addresses.len(),
    decreases keys.len(),
{
    if keys.len() == 0 {
        Seq::empty()
    } else {
        let removed = removed_keys(keys.drop_last(), addresses.drop_last(), deleted);
        if deleted.contains(addresses.last()) {
            removed.push(keys.last())
        } else {
            removed
        }
    }
}

/// Returns whether `address` is among `addresses`.
pub fn contains_address(addresses: &Vec<String>, address: &String) -> (res: bool)
    ensures
        res == addresses.deep_view().contains(address@),
{
    let mut i: usize = 0;
    while i < addresses.len()
        invariant
            i <= addresses.len(),
            forall|j: int| 0 <= j < i ==> addresses.deep_view()[j] != address@,
        decreases addresses.len() - i,
    {
        if addresses[i] == *address {
            assert(addresses.deep_view()[i as int] == address@);
            return true;
        }
        i = i + 1;
    }
    false
}

/// Returns those of `keys`, which stand at `addresses`, whose address is among
/// `deleted`.
pub fn keys_removed<K>(keys: Vec<K>, addresses: &Vec<String>, deleted: &Vec<String>) -> (res: Vec<
    K,
>)
    requires
        keys.len() == addresses.len(),
    ensures
        res@ == removed_keys(keys@, addresses.deep_view(), deleted.deep_view()),
{
    let ghost all_keys = keys@;
    let ghost all_addresses = addresses.deep_view();
    let mut removed: Vec<K> = Vec::new();
    let mut i: usize = 0;
    for key in it: keys
        invariant
            i == it.index(),
            it.seq() == all_keys,
            all_keys.len() == addresses.len(),
            all_addresses == addresses.deep_view(),
            removed@ == removed_keys(
                all_keys.take(i as int),
                all_addresses.take(i as int),
                deleted.deep_view(),
            ),
    {
        assert(all_keys.take(i + 1).drop_last() == all_keys.take(i as int));
        assert(all_addresses.take(i + 1).drop_last() == all_addresses.take(i as int));
        if contains_address(deleted, &addresses[i]) {
            removed.push(key);
        }
        i = i + 1;
    }
    assert(all_keys.take(i as int) == all_keys);
    assert(all_addresses.take(i as int) == all_addresses);
    removed
}

/// Whether `res` is what a delete of `keys`, which stand at `addresses`,
/// returns when the raw context answers `raw`: the keys removed, or the
/// context's error.
pub open spec fn delete_outcome<K>(
    keys: Seq<K>,
    addresses: Seq<Seq<char>>,
    raw: Result<Vec<String>, ContextError>,
    res: Result<Vec<K>, ContractContextError>,
) -> bool {
    match raw {
        Ok(deleted) => res matches Ok(removed) && removed@ == removed_keys(
            keys,
            addresses,
            deleted.deep_view(),
        ),
        Err(e) => res matches Err(ContractContextError::TransactionContextError(failure))
            && failure == e,
    }
}

/// Returns what a delete of `keys`, which stand at `addresses`, returns when
/// the raw context has answered `raw`.
pub fn delete_result<K>(
    keys: Vec<K>,
    addresses: &Vec<String>,
    raw: Result<Vec<String>, ContextError>,
) -> (res: Result<Vec<K>, ContractContextError>)
    requires
        keys.len() == addresses.len(),
    ensures
        delete_outcome(keys@, addresses.deep_view(), raw, res),
{
    match raw {
        Ok(deleted) => Ok(keys_removed(keys, addresses, &deleted)),
        Err(e) => Err(ContractContextError::TransactionContextError(e)),
    }
}

/// Reading what is not stored yields nothing: where the raw entries hold no
/// value at the address of any key, no key comes back.
pub proof fn lemma_read_nothing_stored<K>(
    keys: Seq<K>,
    addresses: Seq<Seq<char>>,
    raw: Seq<(Seq<char>, Seq<u8>)>,
)
    requires
        keys.len() == addresses.len(),
        forall|i: int| 0 <= i < addresses.len() ==> value_at(raw, #[trigger] addresses[i]) is None,
    ensures
        entries_by_key(keys, addresses, raw) == Seq::<(K, Seq<u8>)>::empty(),
    decreases keys.len(),
{
    if keys.len() > 0 {
        lemma_read_nothing_stored(keys.drop_last(), addresses.drop_last(), raw);
    }
}

/// Deleting what is not stored removes nothing: where the raw context has
/// deleted at the address of none of the keys, no key comes back as removed.
pub proof fn lemma_delete_nothing_stored<K>(
    keys: Seq<K>,
    addresses: Seq<Seq<char>>,
    deleted: Seq<Seq<char>>,
)
    requires
        keys.len() == addresses.len(),
        forall|i: int| 0 <= i < addresses.len() ==> !deleted.contains(#[trigger] addresses[i]),
    ensures
        removed_keys(keys, addresses, deleted) == Seq::<K>::empty(),
    decreases keys.len(),
{
    if keys.len() > 0 {
        lemma_delete_nothing_stored(keys.drop_last(), addresses.drop_last(), deleted);
    }
}

/// A read finds what the raw entries hold: where they hold, at the address of
/// each key, the value that `entries` gives for the key, the read yields
/// `entries`.
pub proof fn lemma_read_finds_values<K>(
    entries: Seq<(K, Seq<u8>)>,
    addresses: Seq<Seq<char>>,
    raw: Seq<(Seq<char>, Seq<u8>)>,
)
    requires
        entries.len() == addresses.len(),
        forall|i: int|
            0 <= i < addresses.len() ==> value_at(raw, #[trigger] addresses[i]) == Some(
                entries[i].1,
            ),
    ensures
        entries_by_key(entries.map_values(|entry: (K, Seq<u8>)| entry.0), addresses, raw)
            == entries,
    decreases entries.len(),
{
    let keys = entries.map_values(|entry: (K, Seq<u8>)| entry.0);
    if entries.len() > 0 {
        lemma_read_finds_values(entries.drop_last(), addresses.drop_last(), raw);
        assert(keys.drop_last() == entries.drop_last().map_values(|entry: (K, Seq<u8>)| entry.0));
    }
}

/// Where one of the entries stands at `address`, the value at `address` is
/// that of the first entry that does. Returns the index of that entry, which
/// is at most `index`.
proof fn lemma_value_at_first(raw: Seq<(Seq<char>, Seq<u8>)>, address: Seq<char>, index: int) -> (first:
    int)
    requires
        0 <= index < raw.len(),
        raw[index].0 == address,
    ensures
        0 <= first <= index,
        raw[first].0 == address,
        value_at(raw, address) == Some(raw[first].1),
    decreases index,
{
    if raw[0].0 == address {
        0
    } else {
        lemma_value_at_first(raw.drop_first(), address, index - 1) + 1
    }
}

/// A batch that is written and read back comes back as it was written: where
/// the raw context answers the read with what the write handed to it, the read
/// yields `entries`. Left out are the batches that write different values at
/// one address: of those only one value can come back.
pub proof fn lemma_read_back_written<K, A: Addresser<K>>(addresser: &A, entries: Seq<(K, Seq<u8>)>)
    requires
        forall|i: int, j: int|
            0 <= i < j < entries.len() && addresser.address(&(#[trigger] entries[i]).0)
                == addresser.address(&(#[trigger] entries[j]).0) ==> entries[i].1 == entries[j].1,
    ensures
        entries_by_key(
            entries.map_values(|entry: (K, Seq<u8>)| entry.0),
            addresses_of(addresser, entries.map_values(|entry: (K, Seq<u8>)| entry.0)),
            addressed_entries(addresser, entries),
        ) == entries,
{
    let keys = entries.map_values(|entry: (K, Seq<u8>)| entry.0);
    let addresses = addresses_of(addresser, keys);
    let written = addressed_entries(addresser, entries);
    assert forall|i: int| 0 <= i < addresses.len() implies value_at(
        written,
        #[trigger] addresses[i],
    ) == Some(entries[i].1) by {
        let first = lemma_value_at_first(written, addresses[i], i);
        assert(addresser.address(&entries[first].0) == addresser.address(&entries[i].0));
    }
    lemma_read_finds_values(entries, addresses, written);
}

/// Where the raw entries hold a value at the address of every key, a read
/// yields every key, each with the value at its address.
proof fn lemma_read_all_found<K>(
    keys: Seq<K>,
    addresses: Seq<Seq<char>>,
    raw: Seq<(Seq<char>, Seq<u8>)>,
)
    requires
        keys.len() == addresses.len(),
        forall|i: int| 0 <= i < addresses.len() ==> value_at(raw, #[trigger] addresses[i]) is Some,
    ensures
        entries_by_key(keys, addresses, raw).len() == keys.len(),
        forall|i: int|
            0 <= i < keys.len() ==> #[trigger] entries_by_key(keys, addresses, raw)[i] == (
                keys[i],
                value_at(raw, addresses[i])->0,
            ),
    decreases keys.len(),
{
    if keys.len() > 0 {
        lemma_read_all_found(keys.drop_last(), addresses.drop_last(), raw);
        assert(value_at(raw, addresses[addresses.len() - 1]) is Some);
    }
}

/// The batches that the law of reading back leaves out do not come back as
/// they were written.
pub proof fn lemma_read_back_written_exception<K, A: Addresser<K>>(
    addresser: &A,
    entries: Seq<(K, Seq<u8>)>,
    i: int,
    j: int,
)
    requires
        0 <= i < j < entries.len(),
        addresser.address(&entries[i].0) == addresser.address(&entries[j].0),
        entries[i].1 != entries[j].1,
    ensures
        entries_by_key(
            entries.map_values(|entry: (K, Seq<u8>)| entry.0),
            addresses_of(addresser, entries.map_values(|entry: (K, Seq<u8>)| entry.0)),
            addressed_entries(addresser, entries),
        ) != entries,
{
    let keys = entries.map_values(|entry: (K, Seq<u8>)| entry.0);
    let addresses = addresses_of(addresser, keys);
    let written = addressed_entries(addresser, entries);
    assert forall|k: int| 0 <= k < addresses.len() implies value_at(
        written,
        #[trigger] addresses[k],
    ) is Some by {
        lemma_value_at_first(written, addresses[k], k);
    }
    lemma_read_all_found(keys, addresses, written);
    let read = entries_by_key(keys, addresses, written);
    assert(read[i].1 == read[j].1);
}

/// A raw transaction context seen through an addresser: a handler reads,
/// writes and deletes by natural key, and the context is asked by address.
pub struct KeyValueTransactionContext<'a, C, A, K> where C: TransactionContext, A: Addresser<K> {
    context: &'a mut C,
    addresser: A,
    _key: PhantomData<K>,
}

impl<'a, C, A, K> KeyValueTransactionContext<'a, C, A, K> where
    C: TransactionContext,
    A: Addresser<K>,
 {
    /// The raw context that is asked.
    pub closed spec fn context(&self) -> &C {
        &*self.context
    }

    /// The addresser that turns natural keys into addresses.
    pub closed spec fn addresser(&self) -> &A {
        &self.addresser
    }

    /// Whether `error` is what the addresser may answer when asked for the
    /// address of `key`.
    pub open spec fn addresser_fails(&self, key: &K, error: AddresserError) -> bool {
        call_ensures(A::compute, (self.addresser(), key), Err::<String, AddresserError>(error))
    }

    /// Whether every one of `count` keys can be given its address: there is
    /// none to address, or the addresser's configuration fits.
    pub open spec fn can_address(&self, count: nat) -> bool {
        count == 0 || self.addresser().fits()
    }

    /// Makes the context that asks `context` at the addresses that
    /// `addresser` gives.
    pub fn new(context: &'a mut C, addresser: A) -> (res: Self)
        ensures
            res.context() == *old(context),
            res.addresser() == addresser,
    {
        KeyValueTransactionContext { context, addresser, _key: PhantomData }
    }

    /// Returns the address of each of `keys`, in order, or the addresser's
    /// error where it has one: then no address is returned at all.
    pub fn compute_addresses(&self, keys: &Vec<&K>) -> (res: Result<Vec<String>, AddresserError>)
        ensures
            res is Ok <==> self.can_address(keys@.len()),
            res matches Ok(addresses) ==> addresses.deep_view() == addresses_of(
                self.addresser(),
                referents(keys@),
            ),
            res matches Err(e) ==> self.addresser_fails(keys@[0], e),
    {
        let mut addresses: Vec<String> = Vec::new();
        let mut i: usize = 0;
        while i < keys.len()
            invariant
                i <= keys.len(),
                i > 0 ==> self.addresser().fits(),
                addresses.len() == i,
                forall|j: int|
                    0 <= j < i ==> (#[trigger] addresses[j])@ == self.addresser().address(keys[j]),
            decreases keys.len() - i,
        {
            match self.addresser.compute(keys[i]) {
                Ok(address) => {
                    addresses.push(address);
                },
                Err(e) => {
                    return Err(e);
                },
            }
            i = i + 1;
        }
        Ok(addresses)
    }

    /// Asks the raw context for the entries at the addresses of `keys` and
    /// returns what it holds, keyed by natural key.
    pub fn get_state_entries<'k>(&self, keys: Vec<&'k K>) -> (res: Result<
        Vec<(&'k K, Vec<u8>)>,
        ContractContextError,
    >)
        ensures
            !self.can_address(keys@.len()) ==> (res matches Err(
                ContractContextError::AddresserError(e),
            ) && self.addresser_fails(keys@[0], e)),
            self.can_address(keys@.len()) ==> exists|
                raw: Result<Vec<(String, Vec<u8>)>, ContextError>,
            |
                {
                    &&& #[trigger] may_read(
                        self.context(),
                        addresses_of(self.addresser(), referents(keys@)),
                        raw,
                    )
                    &&& read_outcome(
                        referents(keys@),
                        addresses_of(self.addresser(), referents(keys@)),
                        raw,
                        res,
                    )
                },
    {
        let addresses = match self.compute_addresses(&keys) {
            Ok(addresses) => addresses,
            Err(e) => {
                return Err(ContractContextError::AddresserError(e));
            },
        };
        let handed = addresses.as_slice();
        let raw = self.context.get_state_entries(handed);
        proof {
            assert(handed.deep_view() == addresses.deep_view());
            assert(may_read(self.context(), addresses.deep_view(), raw));
        }
        read_result(&keys, &addresses, raw)
    }

    /// Returns each value of `entries`, in order, with the address of its key,
    /// or the addresser's error where it has one: then no entry is returned
    /// at all.
    pub fn address_entries(&self, entries: Vec<(&K, Vec<u8>)>) -> (res: Result<
        Vec<(String, Vec<u8>)>,
        AddresserError,
    >)
        ensures
            res is Ok <==> self.can_address(entries@.len()),
            res matches Ok(addressed) ==> addressed.deep_view() == addressed_entries(
                self.addresser(),
                key_entries(entries@),
            ),
            res matches Err(e) ==> self.addresser_fails(entries@[0].0, e),
    {
        let ghost all_entries = entries@;
        let mut addressed: Vec<(String, Vec<u8>)> = Vec::new();
        for entry in it: entries
            invariant
                it.seq() == all_entries,
                it.index() > 0 ==> self.addresser().fits(),
                addressed.len() == it.index(),
                forall|j: int|
                    0 <= j < it.index() ==> (#[trigger] addressed[j]).0@
                        == self.addresser().address(all_entries[j].0) && addressed[j].1@
                        == all_entries[j].1@,
        {
            let (key, value) = entry;
            match self.addresser.compute(key) {
                Ok(address) => {
                    addressed.push((address, value));
                },
                Err(e) => {
                    return Err(e);
                },
            }
        }
        let ghost written = addressed_entries(self.addresser(), key_entries(all_entries));
        assert(forall|j: int|
            0 <= j < addressed.len() ==> #[trigger] addressed.deep_view()[j] == written[j]);
        Ok(addressed)
    }

    /// Hands each value of `entries` to the raw context, to be written at the
    /// address of its key.
    pub fn set_state_entries(&self, entries: Vec<(&K, Vec<u8>)>) -> (res: Result<
        (),
        ContractContextError,
    >)
        ensures
            !self.can_address(entries@.len()) ==> (res matches Err(
                ContractContextError::AddresserError(e),
            ) && self.addresser_fails(entries@[0].0, e)),
            self.can_address(entries@.len()) ==> exists|raw: Result<(), ContextError>|
                {
                    &&& #[trigger] may_write(
                        self.context(),
                        addressed_entries(self.addresser(), key_entries(entries@)),
                        raw,
                    )
                    &&& write_outcome(raw, res)
                },
    {
        let ghost written = addressed_entries(self.addresser(), key_entries(entries@));
        let addressed = match self.address_entries(entries) {
            Ok(addressed) => addressed,
            Err(e) => {
                return Err(ContractContextError::AddresserError(e));
            },
        };
        let raw = self.context.set_state_entries(addressed);
        assert(may_write(self.context(), written, raw));
        write_result(raw)
    }

    /// Tells the raw context to delete the entries at the addresses of `keys`
    /// and returns the keys whose entries it has deleted.
    pub fn delete_state_entries(&self, keys: Vec<K>) -> (res: Result<Vec<K>, ContractContextError>)
        ensures
            !self.can_address(keys@.len()) ==> (res matches Err(
                ContractContextError::AddresserError(e),
            ) && self.addresser_fails(&keys@[0], e)),
            self.can_address(keys@.len()) ==> exists|raw: Result<Vec<String>, ContextError>|
                {
                    &&& #[trigger] may_delete(
                        self.context(),
                        addresses_of(self.addresser(), keys@),
                        raw,
                    )
                    &&& delete_outcome(keys@, addresses_of(self.addresser(), keys@), raw, res)
                },
    {
        let mut references: Vec<&K> = Vec::new();
        let mut i: usize = 0;
        while i < keys.len()
            invariant
                i <= keys.len(),
                references.len() == i,
                forall|j: int| 0 <= j < i ==> *(#[trigger] references[j]) == keys[j],
            decreases keys.len() - i,
        {
            references.push(&keys[i]);
            i = i + 1;
        }
        assert(referents(references@) =~= keys@);
        let addresses = match self.compute_addresses(&references) {
            Ok(addresses) => addresses,
            Err(e) => {
                return Err(ContractContextError::AddresserError(e));
            },
        };
        let handed = addresses.as_slice();
        let raw = self.context.delete_state_entries(handed);
        proof {
            assert(handed.deep_view() == addresses.deep_view());
            assert(may_delete(self.context(), addresses.deep_view(), raw));
        }
        delete_result(keys, &addresses, raw)
    }

    /// Hands `data` to the raw context, to be added to the receipt.
    pub fn add_receipt_data(&self, data: Vec<u8>) -> (res: Result<(), ContractContextError>)
        ensures
            exists|raw: Result<(), ContextError>|
                {
                    &&& #[trigger] call_ensures(C::add_receipt_data, (self.context(), data), raw)
                    &&& write_outcome(raw, res)
                },
    {
        let raw = self.context.add_receipt_data(data);
        write_result(raw)
    }

    /// Hands an event to the raw context, to be added to the receipt.
    pub fn add_event(
        &self,
        event_type: String,
        attributes: Vec<(String, String)>,
        data: Vec<u8>,
    ) -> (res: Result<(), ContractContextError>)
        ensures
            exists|raw: Result<(), ContextError>|
                {
                    &&& #[trigger] call_ensures(
                        C::add_event,
                        (self.context(), event_type, attributes, data),
                        raw,
                    )
                    &&& write_outcome(raw, res)
                },
    {
        let raw = self.context.add_event(event_type, attributes, data);
        write_result(raw)
    }
}

} // verus!
