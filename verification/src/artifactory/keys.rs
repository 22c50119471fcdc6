//! Key records, the configuration they are loaded from, and the identifier
//! under which a presented credential is looked up.

use crate::artifactory::hex::{legacy_id, old_door_pi_hex_str_to_rfid, HexError};
use crate::io::bits::{get_bit_u16, set_bit_u64};
use crate::io::weigand::{Credential, Weigand};
use std::collections::{HashMap, HashSet};
use vstd::prelude::*;
use vstd::std_specs::hash::group_hash_axioms;

verus! {

/// Where the key listing is kept.
#[derive(Debug)]
pub struct KeyConfig {
    pub remote: String,
    pub local: String,
}

/// What a key record holds, as plain values.
pub ghost struct KeyView {
    pub name: Seq<char>,
    pub groups: Seq<Seq<char>>,
    pub door_id: u32,
}

/// One authorised key: who holds it, the groups they belong to and the door
/// it opens.
#[derive(Debug)]
pub struct Key {
    pub name: String,
    pub groups: Vec<String>,
    pub door_id: u32,
}

impl View for Key {
    type V = KeyView;

    open spec fn view(&self) -> KeyView {
        KeyView {
            name: self.name@,
            groups: self.groups@.map_values(|group: String| group@),
            door_id: self.door_id,
        }
    }
}

impl Clone for Key {
    fn clone(&self) -> (copy: Self)
        ensures
            copy@ == self@,
    {
        Key { name: self.name.clone(), groups: self.groups.clone(), door_id: self.door_id }
    }
}

impl Key {
    /// The holder's name.
    pub fn get_name(&self) -> (name: &String)
        ensures
            name@ == self@.name,
    {
        &self.name
    }

    /// The door that the key opens.
    pub fn get_door_id(&self) -> (door_id: u32)
        ensures
            door_id == self@.door_id,
    {
        self.door_id
    }
}

/// The identifier of a credential: the card number moved up by two binary
/// places, with the two lowest bits of the facility code below it.
pub open spec fn key_id(credential: Credential) -> nat {
    4 * credential.card_number + credential.facility_code % 4
}

/// The identifier under which a decoded credential is looked up.
pub fn weigand_to_key(weigand: &Weigand) -> (key: u64)
    ensures
        key == key_id(weigand@),
{
    let card = weigand.get_card_number();
    let facility = weigand.get_facility_code();
    let mut key_id: u64 = card as u64;
    key_id <<= 2;
    let low = get_bit_u16(facility, 0);
    let next = get_bit_u16(facility, 1);
    let ghost shifted = key_id;
    set_bit_u64(&mut key_id, 0, low);
    let ghost first = key_id;
    set_bit_u64(&mut key_id, 1, next);
    proof {
        assert(key_id == 4 * card + facility % 4) by (bit_vector)
            requires
                shifted == (card as u64) << 2u64,
                low == (facility & (1u16 << 0u32) != 0),
                next == (facility & (1u16 << 1u32) != 0),
                first == if low {
                    shifted | (1u64 << 0u32)
                } else {
                    shifted & !(1u64 << 0u32)
                },
                key_id == if next {
                    first | (1u64 << 1u32)
                } else {
                    first & !(1u64 << 1u32)
                },
        ;
    }
    key_id
}

/// The identifier of a credential is settled by its card number and the two
/// lowest bits of its facility code: credentials that agree in these have
/// the same identifier, whatever the other bits of the facility code are.
pub proof fn lemma_key_id_ignores_high_facility_bits(a: Credential, b: Credential)
    requires
        a.card_number == b.card_number,
        a.facility_code % 4 == b.facility_code % 4,
    ensures
        key_id(a) == key_id(b),
{
}

/// A key listing as plain values: legacy identifiers with their records, in
/// the order of the listing.
pub type Listing = Seq<(Seq<char>, KeyView)>;

/// The plain values of the entries of a listing.
pub open spec fn listing_of(entries: Seq<(String, Key)>) -> Listing {
    entries.map_values(|entry: (String, Key)| (entry.0@, entry.1@))
}

/// The plain values of the records of a registry.
pub open spec fn key_views(registry: Map<u64, Key>) -> Map<u64, KeyView> {
    registry.map_values(|key: Key| key@)
}

/// The error of the first entry whose identifier cannot be decoded.
pub open spec fn first_error(listing: Listing) -> Option<HexError>
    decreases listing.len(),
{
    if listing.len() == 0 {
        None
    } else {
        match first_error(listing.drop_last()) {
            Some(error) => Some(error),
            None => match legacy_id(listing.last().0) {
                Err(error) => Some(error),
                Ok(_) => None,
            },
        }
    }
}

/// The registry that a listing describes: each record under the identifier
/// that its legacy string decodes to. Where two entries decode to one
/// identifier the later entry stands. Entries that do not decode add nothing.
pub open spec fn registry_of(listing: Listing) -> Map<u64, KeyView>
    decreases listing.len(),
{
    if listing.len() == 0 {
        Map::empty()
    } else {
        let earlier = registry_of(listing.drop_last());
        match legacy_id(listing.last().0) {
            Ok(id) => earlier.insert(id, listing.last().1),
            Err(_) => earlier,
        }
    }
}

/// Whether entry `at` decodes to an identifier that an earlier entry of the
/// listing decodes to as well.
pub open spec fn repeats_earlier(listing: Listing, at: int) -> bool {
    exists|before: int|
        0 <= before < at && legacy_id(listing[at].0).is_ok() && legacy_id(
            #[trigger] listing[before].0,
        ) == legacy_id(listing[at].0)
}

/// The positions of the entries that repeat the identifier of an earlier
/// entry, in rising order.
pub open spec fn duplicate_positions(listing: Listing) -> Seq<usize>
    decreases listing.len(),
{
    if listing.len() == 0 {
        Seq::empty()
    } else {
        let earlier = duplicate_positions(listing.drop_last());
        if repeats_earlier(listing, listing.len() - 1) {
            earlier.push((listing.len() - 1) as usize)
        } else {
            earlier
        }
    }
}

/// An error among the first `n` entries is the error of the whole listing.
pub proof fn lemma_first_error_prefix(listing: Listing, n: int)
    requires
        0 <= n <= listing.len(),
        first_error(listing.take(n)).is_some(),
    ensures
        first_error(listing) == first_error(listing.take(n)),
    decreases listing.len() - n,
{
    if n < listing.len() {
        assert(listing.drop_last().take(n) =~= listing.take(n));
        lemma_first_error_prefix(listing.drop_last(), n);
    } else {
        assert(listing.take(n) =~= listing);
    }
}

/// The registry holds an identifier exactly when some entry of the listing
/// decodes to it.
pub proof fn lemma_registry_domain(listing: Listing, id: u64)
    ensures
        registry_of(listing).contains_key(id) <==> exists|at: int|
            0 <= at < listing.len() && legacy_id(#[trigger] listing[at].0) == Ok::<u64, HexError>(
                id,
            ),
    decreases listing.len(),
{
    if listing.len() > 0 {
        let earlier = listing.drop_last();
        lemma_registry_domain(earlier, id);
        if registry_of(earlier).contains_key(id) {
            // an entry that is among the earlier ones is among all
            let at = choose|at: int|
                0 <= at < earlier.len() && legacy_id(#[trigger] earlier[at].0) == Ok::<
                    u64,
                    HexError,
                >(id);
            assert(listing[at] == earlier[at]);
        }
        if exists|at: int|
            0 <= at < listing.len() && legacy_id(#[trigger] listing[at].0) == Ok::<u64, HexError>(
                id,
            ) {
            // an entry that is not the last is among the earlier ones
            let at = choose|at: int|
                0 <= at < listing.len() && legacy_id(#[trigger] listing[at].0) == Ok::<
                    u64,
                    HexError,
                >(id);
            if at < listing.len() - 1 {
                assert(legacy_id(earlier[at].0) == Ok::<u64, HexError>(id));
            }
        }
    }
}

/// The last entry that decodes to an identifier is the one the registry
/// holds under it.
pub proof fn lemma_registry_last_wins(listing: Listing, at: int, id: u64)
    requires
        0 <= at < listing.len(),
        legacy_id(listing[at].0) == Ok::<u64, HexError>(id),
        forall|after: int|
            at < after < listing.len() ==> legacy_id(#[trigger] listing[after].0) != Ok::<
                u64,
                HexError,
            >(id),
    ensures
        registry_of(listing).contains_key(id),
        registry_of(listing)[id] == listing[at].1,
    decreases listing.len(),
{
    if at < listing.len() - 1 {
        let earlier = listing.drop_last();
        assert forall|after: int| at < after < earlier.len() implies legacy_id(
            #[trigger] earlier[after].0,
        ) != Ok::<u64, HexError>(id) by {
            assert(earlier[after] == listing[after]);
        }
        lemma_registry_last_wins(earlier, at, id);
    }
}

/// A key listing as it is configured: legacy identifiers with the record
/// that each stands for.
#[derive(Debug)]
pub struct Keys {
    keys: Vec<(String, Key)>,
}

impl View for Keys {
    type V = Listing;

    closed spec fn view(&self) -> Listing {
        listing_of(self.keys@)
    }
}

impl Keys {
    /// A listing of the given entries, in their order.
    pub fn new(keys: Vec<(String, Key)>) -> (listing: Self)
        ensures
            listing@ == listing_of(keys@),
    {
        Self { keys }
    }

    /// The entries of the listing, in their order.
    pub fn entries(&self) -> (entries: &Vec<(String, Key)>)
        ensures
            listing_of(entries@) == self@,
    {
        &self.keys
    }

    /// Builds the registry. Each entry is filed under the identifier that
    /// its legacy string decodes to, a later entry replacing an earlier one
    /// with the same identifier. The first entry that does not decode fails
    /// the whole listing with its error.
    pub fn get_keys(&self) -> (registry: Result<HashMap<u64, Key>, HexError>)
        ensures
            match registry {
                Ok(keys) => first_error(self@).is_none() && key_views(keys@) == registry_of(self@),
                Err(error) => first_error(self@) == Some(error),
            },
    {
        broadcast use group_hash_axioms;

        let mut keys: HashMap<u64, Key> = HashMap::new();
        let mut i: usize = 0;
        while i < self.keys.len()
            invariant
                i <= self.keys.len(),
                self@ == listing_of(self.keys@),
                first_error(self@.take(i as int)).is_none(),
                key_views(keys@) == registry_of(self@.take(i as int)),
            decreases self.keys.len() - i,
        {
            let entry = &self.keys[i];
            proof {
                assert(self@.take(i + 1).drop_last() == self@.take(i as int));
            }
            match old_door_pi_hex_str_to_rfid(entry.0.as_str()) {
                Err(error) => {
                    proof {
                        lemma_first_error_prefix(self@, i + 1);
                    }
                    return Err(error);
                },
                Ok(id) => {
                    keys.insert(id, entry.1.clone());
                },
            }
            i += 1;
        }
        proof {
            assert(self@.take(i as int) == self@);
        }
        Ok(keys)
    }

    /// The positions of the entries whose identifier an earlier entry has
    /// already claimed. Such an entry replaces the earlier one in the
    /// registry, which a well-kept listing never asks for.
    pub fn duplicates(&self) -> (positions: Vec<usize>)
        ensures
            positions@ == duplicate_positions(self@),
    {
        broadcast use group_hash_axioms;

        let mut seen: HashSet<u64> = HashSet::new();
        let mut positions: Vec<usize> = Vec::new();
        let mut i: usize = 0;
        while i < self.keys.len()
            invariant
                i <= self.keys.len(),
                self@ == listing_of(self.keys@),
                positions@ == duplicate_positions(self@.take(i as int)),
                forall|id: u64|
                    seen@.contains(id) <==> exists|at: int|
                        0 <= at < i && legacy_id(#[trigger] self@[at].0) == Ok::<u64, HexError>(id),
            decreases self.keys.len() - i,
        {
            let entry = &self.keys[i];
            let ghost next = self@.take(i + 1);
            proof {
                assert(next.drop_last() == self@.take(i as int));
            }
            match old_door_pi_hex_str_to_rfid(entry.0.as_str()) {
                Err(_) => {},
                Ok(id) => {
                    if seen.contains(&id) {
                        proof {
                            // the entry that put `id` among the seen is repeated here
                            let at = choose|at: int|
                                0 <= at < i && legacy_id(#[trigger] self@[at].0) == Ok::<
                                    u64,
                                    HexError,
                                >(id);
                            assert(next[at] == self@[at]);
                        }
                        positions.push(i);
                    } else {
                        proof {
                            // an earlier entry with this identifier would have been seen
                            if repeats_earlier(next, i as int) {
                                let before = choose|before: int|
                                    0 <= before < i && legacy_id(next[i as int].0).is_ok()
                                        && legacy_id(#[trigger] next[before].0) == legacy_id(
                                        next[i as int].0,
                                    );
                                assert(legacy_id(self@[before].0) == Ok::<u64, HexError>(id));
                            }
                        }
                        seen.insert(id);
                    }
                },
            }
            i += 1;
        }
        proof {
            assert(self@.take(i as int) == self@);
        }
        positions
    }
}

} // verus!
