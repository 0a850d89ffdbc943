//! The key registry: named key pairs, found by name or by the identifier
//! that a key pair stands for.

use crate::error::SetupError;
use crate::hexadecimal::{hex_encoding, lemma_hex_encoding_injective};
use crate::pubkey::Pubkey;
use vstd::prelude::*;

verus! {

/// A key pair as the registry stores it: the secret key and the public key in
/// its compressed form of 33 bytes.
#[derive(Clone, Copy, Debug, PartialEq, Eq)]
pub struct KeyPair {
    pub secret_key: [u8; 32],
    pub public_key: [u8; 33],
}

impl KeyPair {
    /// The key pair of zeros, which stands where no key pair is known yet.
    pub open spec fn blank() -> KeyPair {
        KeyPair {
            secret_key: vstd::array::spec_array_fill_for_copy_type::<u8, 32>(0u8),
            public_key: vstd::array::spec_array_fill_for_copy_type::<u8, 33>(0u8),
        }
    }

    /// The key pair of zeros.
    pub fn zeroed() -> (keypair: KeyPair)
        ensures
            keypair == KeyPair::blank(),
    {
        KeyPair { secret_key: [0u8;32], public_key: [0u8;33] }
    }

    /// The bytes of the identifier that the key pair stands for: the public
    /// key without its first byte.
    pub open spec fn identifier_bytes(self) -> Seq<u8> {
        self.public_key@.subrange(1, 33)
    }

    /// The identifier that the key pair stands for.
    pub fn identifier(&self) -> (id: Pubkey)
        ensures
            id@ == self.identifier_bytes(),
    {
        let mut bytes = [0u8;32];
        let mut i: usize = 0;
        while i < 32
            invariant
                i <= 32,
                forall|j: int| 0 <= j < i ==> bytes@[j] == self.public_key@[j + 1],
            decreases 32 - i,
        {
            bytes[i] = self.public_key[i + 1];
            i += 1;
        }
        assert(bytes@ =~= self.identifier_bytes());
        Pubkey(bytes)
    }
}

/// A record of the registry: a name and the key pair stored under it.
#[derive(Debug, PartialEq, Eq)]
pub struct KeyRecord {
    pub name: String,
    pub keypair: KeyPair,
}

impl Clone for KeyRecord {
    fn clone(&self) -> (copy: KeyRecord)
        ensures
            copy@ == self@,
    {
        KeyRecord { name: self.name.clone(), keypair: self.keypair }
    }
}

/// A record as contracts speak of it.
pub struct KeyRecordView {
    pub name: Seq<char>,
    pub keypair: KeyPair,
}

impl View for KeyRecord {
    type V = KeyRecordView;

    open spec fn view(&self) -> KeyRecordView {
        KeyRecordView { name: self.name@, keypair: self.keypair }
    }
}

/// The names of the records, in their order.
pub open spec fn names(records: Seq<KeyRecordView>) -> Seq<Seq<char>> {
    records.map_values(|r: KeyRecordView| r.name)
}

/// The identifiers that the records' key pairs stand for, in the records' order.
pub open spec fn identifiers(records: Seq<KeyRecordView>) -> Seq<Seq<u8>> {
    records.map_values(|r: KeyRecordView| r.keypair.identifier_bytes())
}

/// The identifiers of the records in hexadecimal, in the records' order.
pub open spec fn hex_identifiers(records: Seq<KeyRecordView>) -> Seq<Seq<char>> {
    records.map_values(|r: KeyRecordView| hex_encoding(r.keypair.identifier_bytes()))
}

/// No two records have the same name.
pub open spec fn names_distinct(records: Seq<KeyRecordView>) -> bool {
    forall|i: int, j: int|
        0 <= i < j < records.len() ==> (#[trigger] records[i]).name != (#[trigger] records[j]).name
}

/// The record that a search for `needle` in `keys` finds: the first whose key
/// is `needle`.
pub open spec fn found<K>(records: Seq<KeyRecordView>, keys: Seq<K>, needle: K) -> Option<
    KeyRecordView,
> {
    match keys.index_of_first(needle) {
        Some(i) => Some(records[i]),
        None => None,
    }
}

/// The key registry: records with names that differ from one another.
/// Records are added and never removed.
#[derive(Debug)]
pub struct KeyRegistry {
    records: Vec<KeyRecord>,
}

impl View for KeyRegistry {
    type V = Seq<KeyRecordView>;

    closed spec fn view(&self) -> Seq<KeyRecordView> {
        self.records@.map_values(|r: KeyRecord| r@)
    }
}

/// Where `needle` first stands in `keys`, given that it stands at `at` and
/// not before.
proof fn lemma_first_at<K>(keys: Seq<K>, needle: K, at: int)
    requires
        0 <= at < keys.len(),
        keys[at] == needle,
        forall|j: int| 0 <= j < at ==> keys[j] != needle,
    ensures
        keys.index_of_first(needle) == Some(at),
{
    keys.index_of_first_ensures(needle);
    assert(keys.contains(needle));
}

/// A search finds nothing where no key is `needle`.
proof fn lemma_first_nowhere<K>(keys: Seq<K>, needle: K)
    requires
        forall|j: int| 0 <= j < keys.len() ==> keys[j] != needle,
    ensures
        keys.index_of_first(needle) is None,
        !keys.contains(needle),
{
    keys.index_of_first_ensures(needle);
}

/// A search finds a record exactly when a record has the key searched for,
/// and the record found has that key: it is the first that has it.
pub proof fn lemma_found<K>(records: Seq<KeyRecordView>, keys: Seq<K>, needle: K)
    requires
        keys.len() == records.len(),
    ensures
        found(records, keys, needle) is Some <==> keys.contains(needle),
        found(records, keys, needle) matches Some(r) ==> exists|i: int|
            0 <= i < records.len() && records[i] == r && keys[i] == needle && forall|j: int|
                0 <= j < i ==> keys[j] != needle,
{
    keys.index_of_first_ensures(needle);
    match keys.index_of_first(needle) {
        Some(i) => {
            assert(records[i] == found(records, keys, needle)->0 && keys[i] == needle);
        },
        None => {},
    }
}

/// A name that was never stored is not found, and neither is an identifier
/// that no stored key pair stands for.
pub proof fn lemma_strangers_not_found(records: Seq<KeyRecordView>, name: Seq<char>, id: Seq<u8>)
    ensures
        (forall|i: int| 0 <= i < records.len() ==> (#[trigger] records[i]).name != name) ==> found(
            records,
            names(records),
            name,
        ) is None,
        (forall|i: int|
            0 <= i < records.len() ==> (#[trigger] records[i]).keypair.identifier_bytes() != id)
            ==> found(records, identifiers(records), id) is None && found(
            records,
            hex_identifiers(records),
            hex_encoding(id),
        ) is None,
{
    lemma_found(records, names(records), name);
    lemma_found(records, identifiers(records), id);
    lemma_found(records, hex_identifiers(records), hex_encoding(id));
    if forall|i: int|
        0 <= i < records.len() ==> (#[trigger] records[i]).keypair.identifier_bytes() != id {
        assert forall|i: int| 0 <= i < records.len() implies hex_identifiers(records)[i]
            != hex_encoding(id) by {
            if hex_identifiers(records)[i] == hex_encoding(id) {
                lemma_hex_encoding_injective(records[i].keypair.identifier_bytes(), id);
                assert(records[i].keypair.identifier_bytes() == id);
            }
        }
    }
}

/// A record that was added under a new name is found under that name, and
/// what is found under other names is what was found before.
pub proof fn lemma_added_record_found(
    records: Seq<KeyRecordView>,
    record: KeyRecordView,
    other: Seq<char>,
)
    requires
        !names(records).contains(record.name),
        other != record.name,
    ensures
        found(records.push(record), names(records.push(record)), record.name) == Some(record),
        found(records.push(record), names(records.push(record)), other) == found(
            records,
            names(records),
            other,
        ),
{
    let after = records.push(record);
    assert(names(after) =~= names(records).push(record.name));
    assert forall|j: int| 0 <= j < records.len() implies names(after)[j] != record.name by {
        assert(names(records)[j] == names(after)[j]);
    }
    lemma_first_at(names(after), record.name, records.len() as int);
    names(records).index_of_first_ensures(other);
    match names(records).index_of_first(other) {
        Some(i) => {
            assert(names(after)[i] == other);
            assert forall|j: int| 0 <= j < i implies names(after)[j] != other by {
                assert(names(records)[j] == names(after)[j]);
            }
            lemma_first_at(names(after), other, i);
        },
        None => {
            assert forall|j: int| 0 <= j < after.len() implies names(after)[j] != other by {
                if j < records.len() {
                    assert(names(records)[j] == names(after)[j]);
                }
            }
            lemma_first_nowhere(names(after), other);
        },
    }
}

/// A search by an identifier's hexadecimal notation finds what the search by
/// the identifier finds.
pub proof fn lemma_hex_search_agrees(records: Seq<KeyRecordView>, id: Seq<u8>)
    ensures
        found(records, hex_identifiers(records), hex_encoding(id)) == found(
            records,
            identifiers(records),
            id,
        ),
{
    let ids = identifiers(records);
    let hexes = hex_identifiers(records);
    let text = hex_encoding(id);
    assert forall|j: int| 0 <= j < records.len() implies (hexes[j] == text <==> ids[j] == id) by {
        if hexes[j] == text {
            lemma_hex_encoding_injective(ids[j], id);
        }
    }
    ids.index_of_first_ensures(id);
    match ids.index_of_first(id) {
        Some(i) => {
            lemma_first_at(hexes, text, i);
        },
        None => {
            lemma_first_nowhere(hexes, text);
        },
    }
}

impl KeyRegistry {
    #[verifier::type_invariant]
    spec fn names_differ(self) -> bool {
        names_distinct(self@)
    }

    /// A registry without records.
    pub fn new() -> (registry: KeyRegistry)
        ensures
            registry@ == Seq::<KeyRecordView>::empty(),
    {
        let registry = KeyRegistry { records: Vec::new() };
        assert(registry@ =~= Seq::<KeyRecordView>::empty());
        registry
    }

    /// The number of records.
    pub fn len(&self) -> (n: usize)
        ensures
            n == self@.len(),
            names_distinct(self@),
    {
        proof {
            use_type_invariant(self);
        }
        self.records.len()
    }

    /// The record at index `i`, where there is one.
    pub fn get(&self, i: usize) -> (record: Option<&KeyRecord>)
        ensures
            match record {
                Some(r) => i < self@.len() && r@ == self@[i as int],
                None => i >= self@.len(),
            },
    {
        if i < self.records.len() {
            Some(&self.records[i])
        } else {
            None
        }
    }

    /// The index of the first record named `name`.
    fn position_of_name(&self, name: &str) -> (at: Option<usize>)
        ensures
            match at {
                Some(i) => names(self@).index_of_first(name@) == Some(i as int) && i
                    < self.records.len(),
                None => names(self@).index_of_first(name@) is None && !names(self@).contains(
                    name@,
                ),
            },
    {
        let wanted = name.to_owned();
        let mut i: usize = 0;
        while i < self.records.len()
            invariant
                i <= self.records.len(),
                wanted@ == name@,
                forall|j: int| 0 <= j < i ==> names(self@)[j] != name@,
            decreases self.records.len() - i,
        {
            if self.records[i].name == wanted {
                proof {
                    lemma_first_at(names(self@), name@, i as int);
                }
                return Some(i);
            }
            i += 1;
        }
        proof {
            lemma_first_nowhere(names(self@), name@);
        }
        None
    }

    /// The index of the first record whose key pair stands for `id`.
    fn position_of_pubkey(&self, id: &Pubkey) -> (at: Option<usize>)
        ensures
            match at {
                Some(i) => identifiers(self@).index_of_first(id@) == Some(i as int) && i
                    < self.records.len(),
                None => identifiers(self@).index_of_first(id@) is None && !identifiers(
                    self@,
                ).contains(id@),
            },
    {
        let mut i: usize = 0;
        while i < self.records.len()
            invariant
                i <= self.records.len(),
                forall|j: int| 0 <= j < i ==> identifiers(self@)[j] != id@,
            decreases self.records.len() - i,
        {
            if self.records[i].keypair.identifier() == *id {
                proof {
                    lemma_first_at(identifiers(self@), id@, i as int);
                }
                return Some(i);
            }
            i += 1;
        }
        proof {
            lemma_first_nowhere(identifiers(self@), id@);
        }
        None
    }

    /// The index of the first record whose identifier is written `text` in
    /// hexadecimal.
    fn position_of_hex(&self, text: &str) -> (at: Option<usize>)
        ensures
            match at {
                Some(i) => hex_identifiers(self@).index_of_first(text@) == Some(i as int) && i
                    < self.records.len(),
                None => hex_identifiers(self@).index_of_first(text@) is None && !hex_identifiers(
                    self@,
                ).contains(text@),
            },
    {
        let wanted = text.to_owned();
        let mut i: usize = 0;
        while i < self.records.len()
            invariant
                i <= self.records.len(),
                wanted@ == text@,
                forall|j: int| 0 <= j < i ==> hex_identifiers(self@)[j] != text@,
            decreases self.records.len() - i,
        {
            if self.records[i].keypair.identifier().to_hex() == wanted {
                proof {
                    lemma_first_at(hex_identifiers(self@), text@, i as int);
                }
                return Some(i);
            }
            i += 1;
        }
        proof {
            lemma_first_nowhere(hex_identifiers(self@), text@);
        }
        None
    }

    /// Whether a record is stored under `name`.
    pub fn contains_name(&self, name: &str) -> (stored: bool)
        ensures
            stored == names(self@).contains(name@),
    {
        match self.position_of_name(name) {
            Some(i) => {
                proof {
                    names(self@).index_of_first_ensures(name@);
                }
                true
            },
            None => false,
        }
    }

    /// Whether a record's key pair stands for `id`.
    pub fn contains_pubkey(&self, id: &Pubkey) -> (stored: bool)
        ensures
            stored == identifiers(self@).contains(id@),
    {
        match self.position_of_pubkey(id) {
            Some(i) => {
                proof {
                    identifiers(self@).index_of_first_ensures(id@);
                }
                true
            },
            None => false,
        }
    }

    /// The name of the first record whose key pair stands for `id`. Fails with
    /// `NotFound` exactly when no record's key pair does.
    pub fn name_for(&self, id: &Pubkey) -> (name: Result<String, SetupError>)
        ensures
            match found(self@, identifiers(self@), id@) {
                Some(r) => name matches Ok(n) && n@ == r.name,
                None => name == Err::<String, SetupError>(SetupError::NotFound),
            },
            name is Err <==> !identifiers(self@).contains(id@),
    {
        proof {
            identifiers(self@).index_of_first_ensures(id@);
        }
        match self.position_of_pubkey(id) {
            Some(i) => Ok(self.records[i].name.clone()),
            None => Err(SetupError::NotFound),
        }
    }

    /// The name of the first record whose identifier is written `text` in
    /// hexadecimal. Fails with `NotFound` exactly when there is no such record.
    pub fn name_for_hex(&self, text: &str) -> (name: Result<String, SetupError>)
        ensures
            match found(self@, hex_identifiers(self@), text@) {
                Some(r) => name matches Ok(n) && n@ == r.name,
                None => name == Err::<String, SetupError>(SetupError::NotFound),
            },
            name is Err <==> !hex_identifiers(self@).contains(text@),
    {
        proof {
            hex_identifiers(self@).index_of_first_ensures(text@);
        }
        match self.position_of_hex(text) {
            Some(i) => Ok(self.records[i].name.clone()),
            None => Err(SetupError::NotFound),
        }
    }

    /// The identifier that the key pair stored under `name` stands for. Fails
    /// with `NotFound` exactly when no record has that name.
    pub fn pubkey_for(&self, name: &str) -> (id: Result<Pubkey, SetupError>)
        ensures
            match found(self@, names(self@), name@) {
                Some(r) => id matches Ok(k) && k@ == r.keypair.identifier_bytes(),
                None => id == Err::<Pubkey, SetupError>(SetupError::NotFound),
            },
            id is Err <==> !names(self@).contains(name@),
    {
        proof {
            names(self@).index_of_first_ensures(name@);
        }
        match self.position_of_name(name) {
            Some(i) => Ok(self.records[i].keypair.identifier()),
            None => Err(SetupError::NotFound),
        }
    }

    /// The key pair stored under `name`. Fails with `NotFound` exactly when no
    /// record has that name.
    pub fn keypair_for(&self, name: &str) -> (keypair: Result<KeyPair, SetupError>)
        ensures
            match found(self@, names(self@), name@) {
                Some(r) => keypair == Ok::<KeyPair, SetupError>(r.keypair),
                None => keypair == Err::<KeyPair, SetupError>(SetupError::NotFound),
            },
            keypair is Err <==> !names(self@).contains(name@),
    {
        proof {
            names(self@).index_of_first_ensures(name@);
        }
        match self.position_of_name(name) {
            Some(i) => Ok(self.records[i].keypair),
            None => Err(SetupError::NotFound),
        }
    }

    /// Adds `record` behind the others, unless a record of its name is stored
    /// already: then the registry stays as it is.
    pub fn insert(&mut self, record: KeyRecord) -> (added: bool)
        ensures
            added == !names(old(self)@).contains(record@.name),
            final(self)@ == if added {
                old(self)@.push(record@)
            } else {
                old(self)@
            },
            names_distinct(final(self)@),
    {
        proof {
            use_type_invariant(&*self);
        }
        if self.contains_name(record.name.as_str()) {
            return false;
        }
        let ghost before = self@;
        let mut taken = KeyRegistry::new();
        std::mem::swap(self, &mut taken);
        let mut records = taken.records;
        records.push(record);
        proof {
            let after = records@.map_values(|r: KeyRecord| r@);
            assert(after =~= before.push(record@));
            assert forall|i: int, j: int| 0 <= i < j < after.len() implies (#[trigger] after[i]).name
                != (#[trigger] after[j]).name by {
                if j == before.len() {
                    assert(names(before)[i] == before[i].name);
                }
            }
        }
        *self = KeyRegistry { records };
        true
    }
}

impl Clone for KeyRegistry {
    fn clone(&self) -> (copy: KeyRegistry)
        ensures
            copy@ == self@,
    {
        proof {
            use_type_invariant(self);
        }
        let mut records: Vec<KeyRecord> = Vec::new();
        let mut i: usize = 0;
        while i < self.records.len()
            invariant
                i <= self.records.len(),
                records@.map_values(|r: KeyRecord| r@) == self@.take(i as int),
            decreases self.records.len() - i,
        {
            records.push(self.records[i].clone());
            proof {
                assert(self@[i as int] == self.records@[i as int]@);
                assert(self@.take(i + 1) =~= self@.take(i as int).push(self@[i as int]));
                assert(records@.map_values(|r: KeyRecord| r@) =~= self@.take(i + 1));
            }
            i += 1;
        }
        assert(self@.take(self.records.len() as int) =~= self@);
        KeyRegistry { records }
    }
}

} // verus!
