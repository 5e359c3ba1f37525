//! The settings commands: the application's three known secrets read and
//! written through the store, with values trimmed of surrounding whitespace.
use vstd::prelude::*;
use crate::error::VaultError;
use crate::codec::{RecordText, sealable, NONCE_LEN, RECORD_SALT_LEN};
use crate::storage::{
    self, SecretStore, get_outcome, slot, set_to, set_with, text_result, list_supported_keys,
};
use crate::text::{trimmed, trim_whitespace, lemma_trimmed_blank};

verus! {

/// The three known secrets at once.
pub struct KeysBatch {
    pub steam_id: String,
    pub steam_api_key: String,
    pub rawg_api_key: String,
}

/// Whether reading `name` gave `value`.
pub open spec fn read_as(store: &SecretStore, name: Seq<char>, value: Seq<char>) -> bool {
    get_outcome(slot(store@, name), store.master(), name, Ok::<Seq<char>, VaultError>(value))
}

/// Whether reading `name` fails.
pub open spec fn unreadable(store: &SecretStore, name: Seq<char>) -> bool {
    get_outcome(slot(store@, name), store.master(), name, Err::<Seq<char>, VaultError>(VaultError::DecryptionError))
}

/// Reads the three known secrets; fails where one of them cannot be opened.
pub fn get_secrets(store: &SecretStore) -> (r: Result<KeysBatch, VaultError>)
    requires
        store.wf(),
    ensures
        r is Ok ==> read_as(store, "steam_id"@, r->Ok_0.steam_id@)
            && read_as(store, "steam_api_key"@, r->Ok_0.steam_api_key@)
            && read_as(store, "rawg_api_key"@, r->Ok_0.rawg_api_key@),
        r is Err ==> r->Err_0 == VaultError::DecryptionError && (unreadable(store, "steam_id"@)
            || unreadable(store, "steam_api_key"@) || unreadable(store, "rawg_api_key"@)),
{
    let steam_id = match storage::get_secret(store, "steam_id") {
        Ok(v) => v,
        Err(e) => return Err(e),
    };
    let steam_api_key = match storage::get_secret(store, "steam_api_key") {
        Ok(v) => v,
        Err(e) => return Err(e),
    };
    let rawg_api_key = match storage::get_secret(store, "rawg_api_key") {
        Ok(v) => v,
        Err(e) => return Err(e),
    };
    Ok(KeysBatch { steam_id, steam_api_key, rawg_api_key })
}

/// What applying one optional setting owes: nothing for `None`; a value that
/// trims to nothing deletes the name; any other value is stored trimmed.
pub open spec fn setting_applied(
    before: Map<Seq<char>, RecordText>,
    after: Map<Seq<char>, RecordText>,
    master_salt: Seq<u8>,
    name: Seq<char>,
    value: Option<Seq<char>>,
    r: Result<(), VaultError>,
) -> bool {
    match value {
        None => after == before && r is Ok,
        Some(v) => if trimmed(v).len() == 0 {
            after == before.remove(name) && r is Ok
        } else {
            &&& r is Ok ==> set_to(before, after, master_salt, name, trimmed(v))
            &&& r is Err ==> after == before
            &&& r is Err ==> r->Err_0 == VaultError::EntropyError || (r->Err_0 == VaultError::EncryptionError
                && !sealable(name, trimmed(v)))
        },
    }
}

/// An optional text as an optional character sequence.
pub open spec fn opt_view(v: Option<String>) -> Option<Seq<char>> {
    match v {
        Some(s) => Some(s@),
        None => None,
    }
}

/// Applies one optional setting to the store.
fn apply_setting(store: &mut SecretStore, name: &str, value: Option<String>) -> (r: Result<(), VaultError>)
    requires
        old(store).wf(),
    ensures
        final(store).wf(),
        final(store).master() == old(store).master(),
        setting_applied(old(store)@, final(store)@, old(store).master(), name@, opt_view(value), r),
{
    match value {
        None => Ok(()),
        Some(v) => {
            let t = trim_whitespace(v.as_str());
            proof { lemma_trimmed_blank(v@); }
            if t.unicode_len() == 0 {
                storage::delete_secret(store, name)
            } else {
                storage::set_secret(store, name, t)
            }
        },
    }
}

/// The three settings applied in order through the intermediate stores `m1`
/// and `m2`, with step results `r1`, `r2` and overall result `r`: the first
/// failing step ends the chain and gives the result.
pub open spec fn settings_chain(
    before: Map<Seq<char>, RecordText>,
    m1: Map<Seq<char>, RecordText>,
    m2: Map<Seq<char>, RecordText>,
    after: Map<Seq<char>, RecordText>,
    master_salt: Seq<u8>,
    steam_id: Option<Seq<char>>,
    steam_api_key: Option<Seq<char>>,
    rawg_api_key: Option<Seq<char>>,
    r1: Result<(), VaultError>,
    r2: Result<(), VaultError>,
    r: Result<(), VaultError>,
) -> bool {
    &&& setting_applied(before, m1, master_salt, "steam_id"@, steam_id, r1)
    &&& r1 is Err ==> after == m1 && r == r1
    &&& r1 is Ok ==> {
        &&& setting_applied(m1, m2, master_salt, "steam_api_key"@, steam_api_key, r2)
        &&& r2 is Err ==> after == m2 && r == r2
        &&& r2 is Ok ==> setting_applied(m2, after, master_salt, "rawg_api_key"@, rawg_api_key, r)
    }
}

/// What `set_secrets` owes: the three settings applied in order, stopping at
/// the first that fails, whose error is the result; the settings before it
/// stay applied and those after it are not attempted.
pub open spec fn settings_applied(
    before: Map<Seq<char>, RecordText>,
    after: Map<Seq<char>, RecordText>,
    master_salt: Seq<u8>,
    steam_id: Option<Seq<char>>,
    steam_api_key: Option<Seq<char>>,
    rawg_api_key: Option<Seq<char>>,
    r: Result<(), VaultError>,
) -> bool {
    exists|m1: Map<Seq<char>, RecordText>, m2: Map<Seq<char>, RecordText>, r1: Result<(), VaultError>,
        r2: Result<(), VaultError>|
        settings_chain(before, m1, m2, after, master_salt, steam_id, steam_api_key, rawg_api_key, r1, r2, r)
}

/// Updates the three known secrets, in order: a missing value leaves its
/// secret alone, a blank one deletes it, any other is stored trimmed. Stops
/// at the first failure, keeping the updates made before it.
pub fn set_secrets(
    store: &mut SecretStore,
    steam_id: Option<String>,
    steam_api_key: Option<String>,
    rawg_api_key: Option<String>,
) -> (r: Result<(), VaultError>)
    requires
        old(store).wf(),
    ensures
        final(store).wf(),
        final(store).master() == old(store).master(),
        settings_applied(old(store)@, final(store)@, old(store).master(), opt_view(steam_id),
            opt_view(steam_api_key), opt_view(rawg_api_key), r),
{
    let ghost ms = store.master();
    let ghost m0 = store@;
    let ghost v1 = opt_view(steam_id);
    let ghost v2 = opt_view(steam_api_key);
    let ghost v3 = opt_view(rawg_api_key);
    let r1 = apply_setting(store, "steam_id", steam_id);
    let ghost m1 = store@;
    match r1 {
        Ok(()) => {},
        Err(e) => {
            assert(settings_chain(m0, m1, m1, store@, ms, v1, v2, v3, r1, r1, r1));
            return Err(e);
        },
    }
    let r2 = apply_setting(store, "steam_api_key", steam_api_key);
    let ghost m2 = store@;
    match r2 {
        Ok(()) => {},
        Err(e) => {
            assert(settings_chain(m0, m1, m2, store@, ms, v1, v2, v3, r1, r2, r2));
            return Err(e);
        },
    }
    let r3 = apply_setting(store, "rawg_api_key", rawg_api_key);
    assert(settings_chain(m0, m1, m2, store@, ms, v1, v2, v3, r1, r2, r3));
    r3
}

/// Stores `key_value` trimmed under `key_name`, sealed with the given nonce
/// and record salt; a value that trims to nothing is refused.
pub fn set_secret_with(
    store: &mut SecretStore,
    key_name: String,
    key_value: String,
    nonce: &[u8],
    record_salt: &[u8],
) -> (r: Result<(), VaultError>)
    requires
        old(store).wf(),
        nonce@.len() == NONCE_LEN,
        record_salt@.len() == RECORD_SALT_LEN,
    ensures
        final(store).wf(),
        final(store).master() == old(store).master(),
        trimmed(key_value@).len() == 0 <==> r == Err::<(), VaultError>(VaultError::ValidationError),
        r is Ok <==> trimmed(key_value@).len() > 0 && sealable(key_name@, trimmed(key_value@)),
        r is Ok ==> set_with(old(store)@, final(store)@, old(store).master(), key_name@, trimmed(key_value@),
            nonce@, record_salt@),
        r is Err ==> final(store)@ == old(store)@,
        r is Err ==> r->Err_0 == VaultError::ValidationError || r->Err_0 == VaultError::EncryptionError,
{
    let t = trim_whitespace(key_value.as_str());
    proof { lemma_trimmed_blank(key_value@); }
    if t.unicode_len() == 0 {
        return Err(VaultError::ValidationError);
    }
    storage::set_secret_with(store, key_name.as_str(), t, nonce, record_salt)
}

/// Stores `key_value` trimmed under `key_name`, sealed with a fresh nonce and
/// record salt; a value that trims to nothing is refused.
pub fn set_secret(store: &mut SecretStore, key_name: String, key_value: String) -> (r: Result<(), VaultError>)
    requires
        old(store).wf(),
    ensures
        final(store).wf(),
        final(store).master() == old(store).master(),
        trimmed(key_value@).len() == 0 <==> r == Err::<(), VaultError>(VaultError::ValidationError),
        r is Ok ==> set_to(old(store)@, final(store)@, old(store).master(), key_name@, trimmed(key_value@)),
        r is Err ==> final(store)@ == old(store)@,
        trimmed(key_value@).len() > 0 && sealable(key_name@, trimmed(key_value@)) ==> r is Ok
            || r->Err_0 == VaultError::EntropyError,
{
    let t = trim_whitespace(key_value.as_str());
    proof { lemma_trimmed_blank(key_value@); }
    if t.unicode_len() == 0 {
        return Err(VaultError::ValidationError);
    }
    storage::set_secret(store, key_name.as_str(), t)
}

/// The secret stored under `key_name`, or the empty text.
pub fn get_secret(store: &SecretStore, key_name: String) -> (r: Result<String, VaultError>)
    requires
        store.wf(),
    ensures
        get_outcome(slot(store@, key_name@), store.master(), key_name@, text_result(r)),
{
    storage::get_secret(store, key_name.as_str())
}

/// Removes the secret under `key_name`, if any.
pub fn delete_secret(store: &mut SecretStore, key_name: String) -> (r: Result<(), VaultError>)
    requires
        old(store).wf(),
    ensures
        final(store).wf(),
        final(store).master() == old(store).master(),
        final(store)@ == old(store)@.remove(key_name@),
        r is Ok,
{
    storage::delete_secret(store, key_name.as_str())
}

/// The names of the known secrets.
pub fn list_secrets() -> (r: Result<Vec<String>, VaultError>)
    ensures
        r is Ok,
        r->Ok_0@.len() == 3,
        r->Ok_0@[0]@ == "steam_id"@,
        r->Ok_0@[1]@ == "steam_api_key"@,
        r->Ok_0@[2]@ == "rawg_api_key"@,
{
    let keys = list_supported_keys();
    let mut names: Vec<String> = Vec::new();
    let mut i: usize = 0;
    while i < keys.len()
        invariant
            i <= keys@.len(),
            names@.len() == i,
            forall|j: int| 0 <= j < i ==> (#[trigger] names@[j])@ == keys@[j]@,
        decreases keys@.len() - i,
    {
        names.push(keys[i].to_owned());
        i = i + 1;
    }
    Ok(names)
}

} // verus!
