use vstd::prelude::*;
use vstd::slice::{slice_subrange, slice_to_vec};

use crate::aead::{aead_open, open, seal, sealed_from, Sealed, MAX_PLAINTEXT_LEN, NONCE_LEN, TAG_LEN};
use crate::clock::now_unix_nanos;
use crate::encoding::{
    append_decimal, append_uuid_text, decimal_text, lemma_decimal_text_injective, lemma_uuid_text_injective,
    lemma_uuid_text_len, uuid_text, SEPARATOR,
};
use crate::entry::{Entry, EntryView};
use crate::error::{Result, VaultError};
use crate::ids::{parse_id, uuid_parse, ID_LEN};
use crate::key::SecretKey;
use crate::manifest::FORMAT_VERSION;

verus! {

/// Associated data of an entry record: the UTF-8 text
/// `"<vaultId>|<entryId>|<formatVersion>"`.
pub open spec fn entry_aad_bytes(vault_id: Seq<u8>, entry_id: Seq<u8>, format_version: u32) -> Seq<u8> {
    uuid_text(vault_id) + seq![SEPARATOR] + uuid_text(entry_id) + seq![SEPARATOR] + decimal_text(format_version as nat)
}

/// The file name suffix of an entry record, `.json`.
pub open spec fn json_suffix() -> Seq<u8> {
    seq![46u8, 106u8, 115u8, 111u8, 110u8]
}

/// The file name of the record of entry `id`: `"<id>.json"`.
pub open spec fn entry_file_name_bytes(id: Seq<u8>) -> Seq<u8> {
    uuid_text(id) + json_suffix()
}

/// The entry id that a file name in the entries directory stands for: the
/// name must end in `.json` after a non-empty stem, and the stem must parse
/// as a UUID.
pub open spec fn file_name_id(name: Seq<u8>) -> Option<Seq<u8>> {
    if name.len() > 5 && name.subrange(name.len() - 5, name.len() as int) == json_suffix() {
        uuid_parse(name.subrange(0, name.len() - 5))
    } else {
        None
    }
}

/// The associated data binding a record to its vault, its entry and its
/// format version.
pub fn entry_aad(vault_id: &[u8; ID_LEN], entry_id: &[u8; ID_LEN], format_version: u32) -> (aad: Vec<u8>)
    ensures
        aad@ == entry_aad_bytes(vault_id@, entry_id@, format_version),
{
    let mut aad = Vec::new();
    append_uuid_text(&mut aad, vault_id);
    aad.push(SEPARATOR);
    append_uuid_text(&mut aad, entry_id);
    aad.push(SEPARATOR);
    append_decimal(&mut aad, format_version);
    assert(aad@ =~= entry_aad_bytes(vault_id@, entry_id@, format_version));
    aad
}

/// Distinct (vault, entry, format version) triples have distinct associated
/// data, so a record moved to another entry or vault no longer authenticates
/// under the associated data it is opened with.
pub proof fn lemma_entry_aad_injective(
    vault1: Seq<u8>,
    entry1: Seq<u8>,
    version1: u32,
    vault2: Seq<u8>,
    entry2: Seq<u8>,
    version2: u32,
)
    requires
        vault1.len() == ID_LEN,
        entry1.len() == ID_LEN,
        vault2.len() == ID_LEN,
        entry2.len() == ID_LEN,
        entry_aad_bytes(vault1, entry1, version1) == entry_aad_bytes(vault2, entry2, version2),
    ensures
        vault1 == vault2,
        entry1 == entry2,
        version1 == version2,
{
    lemma_uuid_text_len(vault1);
    lemma_uuid_text_len(vault2);
    lemma_uuid_text_len(entry1);
    lemma_uuid_text_len(entry2);
    let a = entry_aad_bytes(vault1, entry1, version1);
    let b = entry_aad_bytes(vault2, entry2, version2);
    assert(a.subrange(0, 36) =~= uuid_text(vault1));
    assert(b.subrange(0, 36) =~= uuid_text(vault2));
    assert(a.subrange(37, 73) =~= uuid_text(entry1));
    assert(b.subrange(37, 73) =~= uuid_text(entry2));
    assert(a.subrange(74, a.len() as int) =~= decimal_text(version1 as nat));
    assert(b.subrange(74, b.len() as int) =~= decimal_text(version2 as nat));
    lemma_uuid_text_injective(vault1, vault2);
    lemma_uuid_text_injective(entry1, entry2);
    lemma_decimal_text_injective(version1 as nat, version2 as nat);
}

/// An encrypted entry record, as stored in `entries/<id>.json`.
#[derive(Debug, Clone)]
pub struct EntryRecord {
    pub id: [u8; ID_LEN],
    pub format_version: u32,
    pub nonce: [u8; NONCE_LEN],
    pub ciphertext: Vec<u8>,
}

/// Seals the serialized payload of entry `entry_id` into a record bound to
/// `vault_id`, under the current format version.
pub fn seal_entry(dek: &SecretKey, vault_id: &[u8; ID_LEN], entry_id: &[u8; ID_LEN], payload: &[u8]) -> (r: Result<EntryRecord>)
    requires
        payload@.len() + TAG_LEN <= isize::MAX,
    ensures
        r is Ok <==> payload@.len() < MAX_PLAINTEXT_LEN,
        r matches Err(e) ==> e == VaultError::Malformed,
        r matches Ok(rec) ==> rec.id == *entry_id && rec.format_version == FORMAT_VERSION && sealed_from(
            dek@,
            rec.nonce@,
            entry_aad_bytes(vault_id@, entry_id@, FORMAT_VERSION),
            payload@,
            rec.ciphertext@,
        ),
{
    let aad = entry_aad(vault_id, entry_id, FORMAT_VERSION);
    let sealed = seal(dek, aad.as_slice(), payload)?;
    Ok(EntryRecord { id: *entry_id, format_version: FORMAT_VERSION, nonce: sealed.nonce, ciphertext: sealed.ciphertext })
}

/// Whether two ids are the same 16 bytes.
pub fn same_id(a: &[u8; ID_LEN], b: &[u8; ID_LEN]) -> (r: bool)
    ensures
        r == (a@ == b@),
{
    let mut i: usize = 0;
    while i < ID_LEN
        invariant
            i <= ID_LEN,
            forall|j: int| 0 <= j < i ==> a@[j] == b@[j],
        decreases ID_LEN - i,
    {
        if a[i] != b[i] {
            return false;
        }
        i += 1;
    }
    assert(a@ =~= b@);
    true
}

/// Opens the record read for entry `entry_id` of vault `vault_id`, giving
/// back the serialized payload.
///
/// Entries cannot be swapped: a record that names another entry is refused,
/// and the associated data is built from the requested `entry_id`, so a
/// genuine record of another entry, or of another vault, placed under this
/// entry's name fails with `AuthenticationFailed` instead of handing out the
/// other entry's secrets.
pub fn open_entry(dek: &SecretKey, vault_id: &[u8; ID_LEN], entry_id: &[u8; ID_LEN], record: &EntryRecord) -> (r: Result<Vec<u8>>)
    ensures
        record.id@ != entry_id@ ==> r == Err::<Vec<u8>, VaultError>(VaultError::AuthenticationFailed),
        record.id@ == entry_id@ ==> match r {
            Ok(p) => aead_open(
                dek@,
                record.nonce@,
                entry_aad_bytes(vault_id@, entry_id@, record.format_version),
                record.ciphertext@,
            ) == Some(p@),
            Err(e) => e == VaultError::AuthenticationFailed && aead_open(
                dek@,
                record.nonce@,
                entry_aad_bytes(vault_id@, entry_id@, record.format_version),
                record.ciphertext@,
            ) is None,
        },
        r is Ok ==> record.id@ == entry_id@,
        forall|m: Seq<u8>|
            record.id@ == entry_id@ && sealed_from(
                dek@,
                record.nonce@,
                entry_aad_bytes(vault_id@, entry_id@, record.format_version),
                m,
                record.ciphertext@,
            ) ==> (r is Ok && r->Ok_0@ == m),
{
    if !same_id(&record.id, entry_id) {
        return Err(VaultError::AuthenticationFailed);
    }
    let sealed = Sealed { nonce: record.nonce, ciphertext: slice_to_vec(record.ciphertext.as_slice()) };
    let aad = entry_aad(vault_id, entry_id, record.format_version);
    open(dek, aad.as_slice(), &sealed)
}

/// Entries cannot be swapped: a record that `seal_entry` made for entry
/// `sealed_for` of vault `sealed_in` is opened by `open_entry` for entry
/// `opened_as` of vault `opened_in` only under the associated data it was
/// sealed with when both the entry and the vault are the same; for any other
/// entry or vault the associated data differs.
pub proof fn lemma_swapped_record_has_other_aad(
    sealed_in: Seq<u8>,
    sealed_for: Seq<u8>,
    opened_in: Seq<u8>,
    opened_as: Seq<u8>,
    format_version: u32,
)
    requires
        sealed_in.len() == ID_LEN,
        sealed_for.len() == ID_LEN,
        opened_in.len() == ID_LEN,
        opened_as.len() == ID_LEN,
        sealed_in != opened_in || sealed_for != opened_as,
    ensures
        entry_aad_bytes(opened_in, opened_as, format_version) != entry_aad_bytes(sealed_in, sealed_for, format_version),
{
    if entry_aad_bytes(opened_in, opened_as, format_version) == entry_aad_bytes(sealed_in, sealed_for, format_version) {
        lemma_entry_aad_injective(opened_in, opened_as, format_version, sealed_in, sealed_for, format_version);
    }
}

/// The file name of the record of entry `id`, `"<id>.json"`, as bytes.
pub fn entry_file_name(id: &[u8; ID_LEN]) -> (name: Vec<u8>)
    ensures
        name@ == entry_file_name_bytes(id@),
{
    let mut name = Vec::new();
    append_uuid_text(&mut name, id);
    name.push(46);
    name.push(106);
    name.push(115);
    name.push(111);
    name.push(110);
    assert(name@ =~= entry_file_name_bytes(id@));
    name
}

/// The entry id that a file name of the entries directory stands for;
/// `None` for names that are not `<uuid>.json`.
///
/// The name of every record written through `entry_file_name` gives back
/// its entry id.
pub fn record_file_id(name: &[u8]) -> (r: Option<[u8; ID_LEN]>)
    ensures
        match r {
            Some(id) => file_name_id(name@) == Some(id@),
            None => file_name_id(name@) is None,
        },
        forall|id: Seq<u8>| id.len() == ID_LEN && name@ == entry_file_name_bytes(id) ==> (r is Some && r->Some_0@ == id),
{
    let n = name.len();
    if n <= 5 {
        assert forall|id: Seq<u8>| id.len() == ID_LEN implies name@ != entry_file_name_bytes(id) by {
            lemma_uuid_text_len(id);
        }
        return None;
    }
    if !(name[n - 5] == 46 && name[n - 4] == 106 && name[n - 3] == 115 && name[n - 2] == 111 && name[n - 1] == 110) {
        assert forall|id: Seq<u8>| id.len() == ID_LEN implies name@ != entry_file_name_bytes(id) by {
            lemma_uuid_text_len(id);
            if name@ == entry_file_name_bytes(id) {
                assert(name@[n - 5] == 46u8);
            }
        }
        assert(name@.subrange(n - 5, n as int) != json_suffix()) by {
            if name@.subrange(n - 5, n as int) == json_suffix() {
                assert(name@.subrange(n - 5, n as int)[0] == 46u8);
                assert(name@.subrange(n - 5, n as int)[1] == 106u8);
                assert(name@.subrange(n - 5, n as int)[2] == 115u8);
                assert(name@.subrange(n - 5, n as int)[3] == 111u8);
                assert(name@.subrange(n - 5, n as int)[4] == 110u8);
            }
        }
        return None;
    }
    assert(name@.subrange(n - 5, n as int) =~= json_suffix());
    let stem = slice_subrange(name, 0, n - 5);
    assert forall|id: Seq<u8>| id.len() == ID_LEN && name@ == entry_file_name_bytes(id) implies stem@ == uuid_text(id) by {
        lemma_uuid_text_len(id);
        assert(stem@ =~= uuid_text(id));
    }
    parse_id(stem)
}

/// The outcome of deleting an entry that `device_id` asked to delete at time
/// `now`: a tombstone stays as it is; a live entry becomes a tombstone
/// modified by `device_id`.
pub open spec fn deletion(e: EntryView, device_id: Seq<char>, now: i128) -> EntryView {
    if e.deleted_at is Some {
        e
    } else {
        EntryView { last_modified_by: device_id, ..e.tombstoned(now) }
    }
}

/// Deciding a deletion at time `now`: `None` when the entry is already a
/// tombstone (nothing to write), else the tombstone to write.
pub fn tombstone_at(entry: Entry, device_id: &str, now: i128) -> (r: Option<Entry>)
    requires
        entry.deleted_at is None ==> entry.version < u32::MAX,
    ensures
        entry.deleted_at is Some <==> r is None,
        r matches Some(t) ==> t@ == deletion(entry@, device_id@, now) && t.wf(),
{
    if entry.deleted_at.is_some() {
        return None;
    }
    let mut entry = entry;
    entry.mark_deleted_at(now);
    entry.last_modified_by = device_id.to_owned();
    Some(entry)
}

/// Deciding a deletion now: `None` when the entry is already a tombstone,
/// else the tombstone to write, stamped with the current time.
pub fn tombstone(entry: Entry, device_id: &str) -> (r: Option<Entry>)
    requires
        entry.deleted_at is None ==> entry.version < u32::MAX,
    ensures
        entry.deleted_at is Some <==> r is None,
        r matches Some(t) ==> t@ == deletion(entry@, device_id@, t.updated_at) && t.wf(),
{
    let now = now_unix_nanos();
    tombstone_at(entry, device_id, now)
}

/// Deleting twice changes nothing the second time: the version is bumped
/// once, by the first deletion.
pub proof fn lemma_deletion_idempotent(e: EntryView, device1: Seq<char>, now1: i128, device2: Seq<char>, now2: i128)
    ensures
        deletion(deletion(e, device1, now1), device2, now2) == deletion(e, device1, now1),
{
}

/// A deletion leaves a tombstone: the deletion time is set, every field is
/// gone, and a live entry's version goes up by exactly one.
pub proof fn lemma_deletion_leaves_tombstone(e: EntryView, device_id: Seq<char>, now: i128)
    requires
        e.deleted_at is None,
        e.version < u32::MAX,
    ensures
        deletion(e, device_id, now).deleted_at == Some(now),
        deletion(e, device_id, now).fields.is_empty(),
        deletion(e, device_id, now).version == e.version + 1,
        deletion(e, device_id, now).id == e.id,
{
}

} // verus!
