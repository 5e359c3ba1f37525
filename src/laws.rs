//! Laws of the vault, stated over the contracts of its operations.
use vstd::prelude::*;
use vstd::set_lib::lemma_subset_equality;
use crate::error::VaultError;
use crate::codec::{RecordText, is_sealing_of, sealed_with, lemma_base64_injective};
use crate::salt::salt_outcome;
use crate::storage::{StoredSecret, get_outcome, slot, set_to, lists_exactly, loaded_from};

verus! {

/// Reading a name right after setting it to `value` gives back exactly
/// `value`.
pub proof fn lemma_set_then_get(
    before: Map<Seq<char>, RecordText>,
    after: Map<Seq<char>, RecordText>,
    master_salt: Seq<u8>,
    name: Seq<char>,
    value: Seq<char>,
    got: Result<Seq<char>, VaultError>,
)
    requires
        set_to(before, after, master_salt, name, value),
        get_outcome(slot(after, name), master_salt, name, got),
    ensures
        got == Ok::<Seq<char>, VaultError>(value),
{
    let rec = choose|rec: RecordText| after == before.insert(name, rec) && is_sealing_of(rec, master_salt, name, value);
    assert(slot(after, name) == Some(rec));
}

/// Reading a name that holds no record gives the empty text, not an error;
/// reading one whose record is no sealing of any text gives
/// `DecryptionError`.
pub proof fn lemma_absent_or_unreadable(
    store: Map<Seq<char>, RecordText>,
    master_salt: Seq<u8>,
    name: Seq<char>,
    got: Result<Seq<char>, VaultError>,
)
    requires
        get_outcome(slot(store, name), master_salt, name, got),
    ensures
        !store.contains_key(name) ==> got == Ok::<Seq<char>, VaultError>(Seq::<char>::empty()),
        store.contains_key(name) && (forall|p: Seq<char>| !is_sealing_of(store[name], master_salt, name, p))
            ==> got == Err::<Seq<char>, VaultError>(VaultError::DecryptionError),
{
}

/// Opening fails closed: whatever text a read returns, the stored record is a
/// sealing of exactly that text under the name's key, so no altered record
/// opens to anything but what was sealed into it.
pub proof fn lemma_read_is_authentic(
    store: Map<Seq<char>, RecordText>,
    master_salt: Seq<u8>,
    name: Seq<char>,
    got: Result<Seq<char>, VaultError>,
)
    requires
        store.contains_key(name),
        get_outcome(slot(store, name), master_salt, name, got),
    ensures
        got is Ok ==> is_sealing_of(store[name], master_salt, name, got->Ok_0),
        got is Err ==> got->Err_0 == VaultError::DecryptionError,
{
}

/// Deleting a name a second time changes nothing more than the first time.
pub proof fn lemma_delete_twice(store: Map<Seq<char>, RecordText>, name: Seq<char>)
    ensures
        store.remove(name).remove(name) == store.remove(name),
        !store.remove(name).contains_key(name),
{
    assert(store.remove(name).remove(name) =~= store.remove(name));
}

/// Records listed for persisting, and loaded back into a fresh store, give
/// the same names with the same records.
pub proof fn lemma_reload_records(
    saved: Map<Seq<char>, RecordText>,
    records: Seq<StoredSecret>,
    loaded: Map<Seq<char>, RecordText>,
)
    requires
        lists_exactly(saved, records),
        loaded_from(loaded, records),
    ensures
        loaded == saved,
{
    let names = Set::new(|k: Seq<char>| exists|i: int| 0 <= i < records.len() && (#[trigger] records[i]).name@ == k);
    let listed = Seq::new(records.len(), |i: int| records[i].name@);
    assert(listed.no_duplicates());
    assert(listed.to_set() =~= names) by {
        assert forall|k: Seq<char>| names.contains(k) implies listed.to_set().contains(k) by {
            let i = choose|i: int| 0 <= i < records.len() && (#[trigger] records[i]).name@ == k;
            assert(listed[i] == k);
        }
    }
    listed.unique_seq_to_set();
    assert(names.subset_of(saved.dom()));
    lemma_subset_equality(names, saved.dom());
    assert(loaded.dom() =~= saved.dom());
    assert forall|k: Seq<char>| #[trigger] saved.contains_key(k) implies loaded[k] == saved[k] by {
        assert(names.contains(k));
        let i = choose|i: int| 0 <= i < records.len() && (#[trigger] records[i]).name@ == k;
        assert forall|j: int| i < j < records.len() implies (#[trigger] records[j]).name@ != records[i].name@ by {
            assert(listed[j] != listed[i]);
        }
    }
    assert(loaded =~= saved);
}

/// After a restart the persisted master salt loads back unchanged, so a
/// secret set before the restart reads back as the same value.
pub proof fn lemma_restart_keeps_secret(
    persisted: Seq<u8>,
    reloaded: Result<(Seq<u8>, bool), VaultError>,
    before: Map<Seq<char>, RecordText>,
    after: Map<Seq<char>, RecordText>,
    name: Seq<char>,
    value: Seq<char>,
    got: Result<Seq<char>, VaultError>,
)
    requires
        salt_outcome(None, Ok::<(Seq<u8>, bool), VaultError>((persisted, true))),
        salt_outcome(Some(persisted), reloaded),
        set_to(before, after, persisted, name, value),
        reloaded is Ok ==> get_outcome(slot(after, name), reloaded->Ok_0.0, name, got),
    ensures
        reloaded == Ok::<(Seq<u8>, bool), VaultError>((persisted, false)),
        got == Ok::<Seq<char>, VaultError>(value),
{
    lemma_set_then_get(before, after, persisted, name, value, got);
}

/// Two records sealed with different nonces carry different nonce texts, and
/// two sealed with different record salts carry different salt texts: fresh
/// draws show in the stored record.
pub proof fn lemma_distinct_draws_show(
    first: RecordText,
    second: RecordText,
    master_salt: Seq<u8>,
    first_name: Seq<char>,
    second_name: Seq<char>,
    first_nonce: Seq<u8>,
    first_salt: Seq<u8>,
    second_nonce: Seq<u8>,
    second_salt: Seq<u8>,
    first_value: Seq<char>,
    second_value: Seq<char>,
)
    requires
        sealed_with(first, master_salt, first_name, first_nonce, first_salt, first_value),
        sealed_with(second, master_salt, second_name, second_nonce, second_salt, second_value),
    ensures
        first_nonce != second_nonce ==> first.nonce != second.nonce,
        first_salt != second_salt ==> first.salt != second.salt,
{
    if first.nonce == second.nonce {
        lemma_base64_injective(first_nonce, second_nonce);
    }
    if first.salt == second.salt {
        lemma_base64_injective(first_salt, second_salt);
    }
}

} // verus!
