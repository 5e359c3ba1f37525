//! The secret store: logical names mapped to sealed records, under one
//! master salt. It holds the records in memory; the caller persists them.
use vstd::prelude::*;
use crate::error::VaultError;
use crate::codec::{
    EncryptedData, RecordText, MASTER_SALT_LEN, NONCE_LEN, RECORD_SALT_LEN, decrypt, is_sealing_of,
    sealable, sealed_with, seal_with,
};
use crate::text::{is_blank, is_blank_str};
use crate::entropy::random_bytes;

verus! {

/// One named record, as persisted.
pub struct StoredSecret {
    pub name: String,
    pub record: EncryptedData,
}

/// Named sealed records, unique by name, with the master salt they were
/// sealed under.
pub struct SecretStore {
    master_salt: Vec<u8>,
    entries: Vec<StoredSecret>,
    secrets: Ghost<Map<Seq<char>, RecordText>>,
}

impl View for SecretStore {
    type V = Map<Seq<char>, RecordText>;

    closed spec fn view(&self) -> Map<Seq<char>, RecordText> {
        self.secrets@
    }
}

/// What `get_secret` owes for a slot holding `record`, or for an empty slot:
/// the empty text where nothing is stored, else the one plaintext the record
/// is a sealing of, and `DecryptionError` where there is none.
pub open spec fn get_outcome(
    slot: Option<RecordText>,
    master_salt: Seq<u8>,
    name: Seq<char>,
    r: Result<Seq<char>, VaultError>,
) -> bool {
    match slot {
        None => r == Ok::<Seq<char>, VaultError>(Seq::<char>::empty()),
        Some(rec) => {
            &&& r is Ok ==> is_sealing_of(rec, master_salt, name, r->Ok_0)
            &&& r is Err ==> r->Err_0 == VaultError::DecryptionError
            &&& forall|p: Seq<char>| #[trigger] is_sealing_of(rec, master_salt, name, p)
                ==> r == Ok::<Seq<char>, VaultError>(p)
        },
    }
}

/// The content of a name's slot in a store view.
pub open spec fn slot(m: Map<Seq<char>, RecordText>, name: Seq<char>) -> Option<RecordText> {
    if m.contains_key(name) { Some(m[name]) } else { None }
}

/// A result with its text viewed as characters.
pub open spec fn text_result(r: Result<String, VaultError>) -> Result<Seq<char>, VaultError> {
    match r {
        Ok(s) => Ok(s@),
        Err(e) => Err(e),
    }
}

impl SecretStore {
    /// The master salt the records are sealed under.
    pub closed spec fn master(&self) -> Seq<u8> {
        self.master_salt@
    }

    /// The store's invariant: a well-sized master salt, names unique, and the
    /// entries describing exactly the view.
    pub closed spec fn wf(&self) -> bool {
        &&& self.master_salt@.len() == MASTER_SALT_LEN
        &&& forall|i: int, j: int|
            0 <= i < j < self.entries@.len() ==> (#[trigger] self.entries@[i]).name@
                != (#[trigger] self.entries@[j]).name@
        &&& forall|i: int|
            0 <= i < self.entries@.len() ==> self.secrets@.contains_key(
                (#[trigger] self.entries@[i]).name@,
            ) && self.secrets@[self.entries@[i].name@] == self.entries@[i].record@
        &&& forall|k: Seq<char>|
            #[trigger] self.secrets@.contains_key(k) ==> exists|i: int|
                0 <= i < self.entries@.len() && (#[trigger] self.entries@[i]).name@ == k
    }

    /// An empty store under `master_salt`.
    pub fn new(master_salt: Vec<u8>) -> (r: SecretStore)
        requires
            master_salt@.len() == MASTER_SALT_LEN,
        ensures
            r.wf(),
            r@ == Map::<Seq<char>, RecordText>::empty(),
            r.master() == master_salt@,
    {
        SecretStore { master_salt, entries: Vec::new(), secrets: Ghost(Map::empty()) }
    }

    /// The master salt the records are sealed under.
    pub fn master_salt(&self) -> (r: &[u8])
        ensures
            r@ == self.master(),
            self.wf() ==> r@.len() == MASTER_SALT_LEN,
    {
        self.master_salt.as_slice()
    }

    /// How many names hold a record.
    pub fn len(&self) -> (r: usize)
        requires
            self.wf(),
        ensures
            r == self@.dom().len(),
    {
        proof { self.lemma_dom_len(); }
        self.entries.len()
    }

    proof fn lemma_dom_len(&self)
        requires
            self.wf(),
        ensures
            self@.dom().len() == self.entries@.len(),
            self@.dom().finite(),
        decreases self.entries@.len(),
    {
        let names = Seq::new(self.entries@.len(), |i: int| self.entries@[i].name@);
        assert(names.no_duplicates());
        assert(names.to_set() =~= self@.dom()) by {
            assert forall|k: Seq<char>| names.to_set().contains(k) <==> self@.dom().contains(k) by {
                if self@.dom().contains(k) {
                    let i = choose|i: int| 0 <= i < self.entries@.len() && (#[trigger] self.entries@[i]).name@ == k;
                    assert(names[i] == k);
                }
            }
        }
        names.unique_seq_to_set();
    }

    /// The index of the entry named `name`, if any.
    fn find(&self, name: &String) -> (r: Option<usize>)
        requires
            self.wf(),
        ensures
            match r {
                Some(i) => i < self.entries@.len() && self.entries@[i as int].name@ == name@,
                None => !self@.contains_key(name@),
            },
    {
        let mut i: usize = 0;
        while i < self.entries.len()
            invariant
                self.wf(),
                i <= self.entries@.len(),
                forall|j: int| 0 <= j < i ==> (#[trigger] self.entries@[j]).name@ != name@,
            decreases self.entries@.len() - i,
        {
            if self.entries[i].name == *name {
                return Some(i);
            }
            i = i + 1;
        }
        None
    }

    /// Stores `record` under `name`, replacing any record already there.
    pub fn insert_record(&mut self, name: String, record: EncryptedData)
        requires
            old(self).wf(),
        ensures
            final(self).wf(),
            final(self).master() == old(self).master(),
            final(self)@ == old(self)@.insert(name@, record@),
    {
        let ghost key = name@;
        let ghost rec = record@;
        match self.find(&name) {
            Some(i) => {
                self.entries.set(i, StoredSecret { name, record });
                self.secrets = Ghost(self.secrets@.insert(key, rec));
                assert forall|k: Seq<char>| #[trigger] self.secrets@.contains_key(k) implies exists|j: int|
                    0 <= j < self.entries@.len() && (#[trigger] self.entries@[j]).name@ == k by {
                    if k != key {
                        assert(old(self).secrets@.contains_key(k));
                        let j = choose|j: int| 0 <= j < old(self).entries@.len() && (#[trigger] old(self).entries@[j]).name@ == k;
                        assert(self.entries@[j].name@ == k);
                    } else {
                        assert(self.entries@[i as int].name@ == k);
                    }
                }
            },
            None => {
                let ghost n = self.entries@.len();
                self.entries.push(StoredSecret { name, record });
                self.secrets = Ghost(self.secrets@.insert(key, rec));
                assert forall|k: Seq<char>| #[trigger] self.secrets@.contains_key(k) implies exists|j: int|
                    0 <= j < self.entries@.len() && (#[trigger] self.entries@[j]).name@ == k by {
                    if k != key {
                        assert(old(self).secrets@.contains_key(k));
                        let j = choose|j: int| 0 <= j < old(self).entries@.len() && (#[trigger] old(self).entries@[j]).name@ == k;
                        assert(self.entries@[j].name@ == k);
                    } else {
                        assert(self.entries@[n as int].name@ == k);
                    }
                }
            },
        }
    }

    /// Removes the record under `name`, if there is one.
    pub fn remove_record(&mut self, name: &String)
        requires
            old(self).wf(),
        ensures
            final(self).wf(),
            final(self).master() == old(self).master(),
            final(self)@ == old(self)@.remove(name@),
    {
        match self.find(name) {
            Some(i) => {
                let ghost old_entries = self.entries@;
                self.entries.remove(i);
                self.secrets = Ghost(self.secrets@.remove(name@));
                assert forall|j: int| 0 <= j < self.entries@.len() implies
                    (#[trigger] self.entries@[j]).name@ != name@ && self.secrets@.contains_key(self.entries@[j].name@)
                    && self.secrets@[self.entries@[j].name@] == self.entries@[j].record@ by {
                    if j < i {
                        assert(self.entries@[j] == old_entries[j]);
                    } else {
                        assert(self.entries@[j] == old_entries[j + 1]);
                    }
                }
                assert forall|a: int, b: int| 0 <= a < b < self.entries@.len() implies
                    (#[trigger] self.entries@[a]).name@ != (#[trigger] self.entries@[b]).name@ by {
                    let oa = if a < i { a } else { a + 1 };
                    let ob = if b < i { b } else { b + 1 };
                    assert(self.entries@[a] == old_entries[oa]);
                    assert(self.entries@[b] == old_entries[ob]);
                }
                assert forall|k: Seq<char>| #[trigger] self.secrets@.contains_key(k) implies exists|j: int|
                    0 <= j < self.entries@.len() && (#[trigger] self.entries@[j]).name@ == k by {
                    assert(old(self).secrets@.contains_key(k));
                    let j = choose|j: int| 0 <= j < old_entries.len() && (#[trigger] old_entries[j]).name@ == k;
                    assert(j != i);
                    if j < i {
                        assert(self.entries@[j] == old_entries[j]);
                    } else {
                        assert(self.entries@[j - 1] == old_entries[j]);
                    }
                }
            },
            None => {
                assert(self.secrets@.remove(name@) =~= self.secrets@);
            },
        }
    }

    /// The record stored under `name`, if any.
    pub fn record(&self, name: &String) -> (r: Option<&EncryptedData>)
        requires
            self.wf(),
        ensures
            match r {
                Some(rec) => self@.contains_key(name@) && self@[name@] == rec@,
                None => !self@.contains_key(name@),
            },
    {
        match self.find(name) {
            Some(i) => Some(&self.entries[i].record),
            None => None,
        }
    }
}

/// Whether `new` is `old` with `name` now holding a sealing of `value`.
pub open spec fn set_to(
    old: Map<Seq<char>, RecordText>,
    new: Map<Seq<char>, RecordText>,
    master_salt: Seq<u8>,
    name: Seq<char>,
    value: Seq<char>,
) -> bool {
    exists|rec: RecordText| new == old.insert(name, rec) && is_sealing_of(rec, master_salt, name, value)
}

/// Whether `new` is `old` with `name` now holding a sealing of `value` with
/// this nonce and this record salt.
pub open spec fn set_with(
    old: Map<Seq<char>, RecordText>,
    new: Map<Seq<char>, RecordText>,
    master_salt: Seq<u8>,
    name: Seq<char>,
    value: Seq<char>,
    nonce: Seq<u8>,
    record_salt: Seq<u8>,
) -> bool {
    &&& new.contains_key(name)
    &&& new == old.insert(name, new[name])
    &&& sealed_with(new[name], master_salt, name, nonce, record_salt, value)
}

/// Seals `value` with the given nonce and record salt and stores it under
/// `key_name`, replacing any earlier record. A blank value is refused and
/// nothing is written.
pub fn set_secret_with(
    store: &mut SecretStore,
    key_name: &str,
    value: &str,
    nonce: &[u8],
    record_salt: &[u8],
) -> (r: Result<(), VaultError>)
    requires
        old(store).wf(),
        nonce@.len() == NONCE_LEN,
        record_salt@.len() == RECORD_SALT_LEN,
    ensures
        final(store).wf(),
        final(store).master() == old(store).master(),
        is_blank(value@) <==> r == Err::<(), VaultError>(VaultError::ValidationError),
        r is Ok <==> !is_blank(value@) && sealable(key_name@, value@),
        r is Ok ==> set_with(old(store)@, final(store)@, old(store).master(), key_name@, value@, nonce@, record_salt@),
        r is Err ==> final(store)@ == old(store)@,
        r is Err ==> r->Err_0 == VaultError::ValidationError || r->Err_0 == VaultError::EncryptionError,
{
    if is_blank_str(value) {
        return Err(VaultError::ValidationError);
    }
    let record = match seal_with(value, store.master_salt(), key_name, nonce, record_salt) {
        Ok(rec) => rec,
        Err(e) => return Err(e),
    };
    let ghost rec = record@;
    store.insert_record(key_name.to_owned(), record);
    assert(final(store)@ == old(store)@.insert(key_name@, rec));
    assert(final(store)@[key_name@] == rec);
    Ok(())
}

/// Seals `value` with a fresh nonce and record salt and stores it under
/// `key_name`, replacing any earlier record. A blank value is refused before
/// anything is drawn, and nothing is written.
pub fn set_secret(store: &mut SecretStore, key_name: &str, value: &str) -> (r: Result<(), VaultError>)
    requires
        old(store).wf(),
    ensures
        final(store).wf(),
        final(store).master() == old(store).master(),
        r is Ok ==> set_to(old(store)@, final(store)@, old(store).master(), key_name@, value@),
        r is Err ==> final(store)@ == old(store)@,
        is_blank(value@) <==> r == Err::<(), VaultError>(VaultError::ValidationError),
        !is_blank(value@) && sealable(key_name@, value@) ==> r is Ok || r->Err_0 == VaultError::EntropyError,
        r is Err ==> r->Err_0 == VaultError::ValidationError || r->Err_0 == VaultError::EntropyError
            || r->Err_0 == VaultError::EncryptionError,
        r == Err::<(), VaultError>(VaultError::EncryptionError) ==> !sealable(key_name@, value@),
{
    if is_blank_str(value) {
        return Err(VaultError::ValidationError);
    }
    let record_salt = match random_bytes(RECORD_SALT_LEN) {
        Ok(v) => v,
        Err(e) => return Err(e),
    };
    let nonce = match random_bytes(NONCE_LEN) {
        Ok(v) => v,
        Err(e) => return Err(e),
    };
    let r = set_secret_with(store, key_name, value, nonce.as_slice(), record_salt.as_slice());
    proof {
        if r is Ok {
            let rec = store@[key_name@];
            assert(is_sealing_of(rec, old(store).master(), key_name@, value@));
        }
    }
    r
}

/// The secret stored under `key_name`: the empty text where there is none,
/// `DecryptionError` where the record cannot be opened.
pub fn get_secret(store: &SecretStore, key_name: &str) -> (r: Result<String, VaultError>)
    requires
        store.wf(),
    ensures
        get_outcome(slot(store@, key_name@), store.master(), key_name@, text_result(r)),
{
    let name = key_name.to_owned();
    match store.record(&name) {
        None => Ok(String::new()),
        Some(rec) => decrypt(rec, store.master_salt(), key_name),
    }
}

/// Removes the record under `key_name`; an absent name is no error.
pub fn delete_secret(store: &mut SecretStore, key_name: &str) -> (r: Result<(), VaultError>)
    requires
        old(store).wf(),
    ensures
        final(store).wf(),
        final(store).master() == old(store).master(),
        final(store)@ == old(store)@.remove(key_name@),
        r is Ok,
{
    store.remove_record(&key_name.to_owned());
    Ok(())
}

/// The secret names the application knows, whether or not each holds a value.
pub fn list_supported_keys() -> (r: Vec<&'static str>)
    ensures
        r@.len() == 3,
        r@[0]@ == "steam_id"@,
        r@[1]@ == "steam_api_key"@,
        r@[2]@ == "rawg_api_key"@,
{
    vec!["steam_id", "steam_api_key", "rawg_api_key"]
}

/// A copy of a record.
fn copy_record(rec: &EncryptedData) -> (r: EncryptedData)
    ensures
        r@ == rec@,
{
    EncryptedData {
        ciphertext: rec.ciphertext.clone(),
        nonce: rec.nonce.clone(),
        salt: rec.salt.clone(),
    }
}

/// Whether `recs` lists every entry of `m` exactly once.
pub open spec fn lists_exactly(m: Map<Seq<char>, RecordText>, recs: Seq<StoredSecret>) -> bool {
    &&& m.dom().finite()
    &&& recs.len() == m.dom().len()
    &&& forall|i: int| 0 <= i < recs.len() ==> m.contains_key((#[trigger] recs[i]).name@)
        && m[recs[i].name@] == recs[i].record@
    &&& forall|i: int, j: int| 0 <= i < j < recs.len() ==> (#[trigger] recs[i]).name@
        != (#[trigger] recs[j]).name@
}

/// Whether `m` holds the names of `recs`, each with the last record listed
/// under it.
pub open spec fn loaded_from(m: Map<Seq<char>, RecordText>, recs: Seq<StoredSecret>) -> bool {
    &&& forall|k: Seq<char>| #[trigger] m.contains_key(k) <==> exists|i: int|
        0 <= i < recs.len() && (#[trigger] recs[i]).name@ == k
    &&& forall|i: int| 0 <= i < recs.len() && (forall|j: int| i < j < recs.len()
        ==> (#[trigger] recs[j]).name@ != recs[i].name@)
        ==> m[(#[trigger] recs[i]).name@] == recs[i].record@
}

impl SecretStore {
    /// Every named record, once each, for persisting.
    pub fn records(&self) -> (r: Vec<StoredSecret>)
        requires
            self.wf(),
        ensures
            lists_exactly(self@, r@),
    {
        proof { self.lemma_dom_len(); }
        let mut r: Vec<StoredSecret> = Vec::new();
        let mut i: usize = 0;
        while i < self.entries.len()
            invariant
                self.wf(),
                i <= self.entries@.len(),
                r@.len() == i,
                forall|j: int| 0 <= j < i ==> (#[trigger] r@[j]).name@ == self.entries@[j].name@
                    && r@[j].record@ == self.entries@[j].record@,
            decreases self.entries@.len() - i,
        {
            let e = &self.entries[i];
            r.push(StoredSecret { name: e.name.clone(), record: copy_record(&e.record) });
            i = i + 1;
        }
        assert forall|a: int, b: int| 0 <= a < b < r@.len() implies (#[trigger] r@[a]).name@
            != (#[trigger] r@[b]).name@ by {
            assert(r@[a].name@ == self.entries@[a].name@);
            assert(r@[b].name@ == self.entries@[b].name@);
        }
        assert forall|a: int| 0 <= a < r@.len() implies self@.contains_key((#[trigger] r@[a]).name@)
            && self@[r@[a].name@] == r@[a].record@ by {
            assert(r@[a].name@ == self.entries@[a].name@);
        }
        r
    }

    /// A store under `master_salt` holding `records`; where a name occurs
    /// twice, the later record wins.
    pub fn with_records(master_salt: Vec<u8>, records: Vec<StoredSecret>) -> (r: SecretStore)
        requires
            master_salt@.len() == MASTER_SALT_LEN,
        ensures
            r.wf(),
            r.master() == master_salt@,
            loaded_from(r@, records@),
    {
        let mut store = SecretStore::new(master_salt);
        let mut n: usize = 0;
        while n < records.len()
            invariant
                store.wf(),
                store.master() == master_salt@,
                n <= records@.len(),
                forall|k: Seq<char>| #[trigger] store@.contains_key(k) <==> exists|i: int|
                    0 <= i < n && (#[trigger] records@[i]).name@ == k,
                forall|i: int| 0 <= i < n && (forall|j: int| i < j < n
                    ==> (#[trigger] records@[j]).name@ != records@[i].name@)
                    ==> store@[(#[trigger] records@[i]).name@] == records@[i].record@,
            decreases records@.len() - n,
        {
            let ghost key = records@[n as int].name@;
            store.insert_record(records[n].name.clone(), copy_record(&records[n].record));
            n = n + 1;
            assert forall|k: Seq<char>| #[trigger] store@.contains_key(k) <==> exists|i: int|
                0 <= i < n && (#[trigger] records@[i]).name@ == k by {
                if k == key {
                    assert(records@[n - 1].name@ == k);
                }
            }
            assert forall|i: int| 0 <= i < n && (forall|j: int| i < j < n
                ==> (#[trigger] records@[j]).name@ != records@[i].name@)
                implies store@[(#[trigger] records@[i]).name@] == records@[i].record@ by {
                if i < n - 1 {
                    assert(records@[n - 1].name@ != records@[i].name@);
                }
            }
        }
        store
    }
}

} // verus!
