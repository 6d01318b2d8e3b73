use vstd::prelude::*;

use crate::clock::now_unix_nanos;
use crate::ids::{is_v7, uuid_now_v7, ID_LEN};

verus! {

/// One named field of an entry: its value and when it last changed
/// (nanoseconds since the Unix epoch, UTC).
#[derive(Debug, Clone)]
pub struct FieldValue {
    pub value: String,
    pub updated_at: i128,
}

/// The kind of secret an entry holds.
///
/// `Other` keeps, word for word, a type that a newer client wrote and this
/// build does not know, so that the entry survives a round trip through it.
#[derive(Debug, Clone, PartialEq, Eq)]
pub enum EntryType {
    Login,
    Note,
    Card,
    Identity,
    Totp,
    Passkey,
    Other(String),
}

/// The text a type is stored as: `login`, `note`, `card`, `identity`,
/// `totp`, `passkey`, or the stored text of an unknown type.
pub open spec fn stored_type_text(t: EntryType) -> Seq<char> {
    match t {
        EntryType::Login => "login"@,
        EntryType::Note => "note"@,
        EntryType::Card => "card"@,
        EntryType::Identity => "identity"@,
        EntryType::Totp => "totp"@,
        EntryType::Passkey => "passkey"@,
        EntryType::Other(s) => s@,
    }
}

/// The text is the name of one of the types this build knows.
pub open spec fn is_known_type_name(name: Seq<char>) -> bool {
    name == "login"@ || name == "note"@ || name == "card"@ || name == "identity"@ || name == "totp"@
        || name == "passkey"@
}

impl EntryType {
    /// The text this type is stored as.
    pub fn name(&self) -> (s: String)
        ensures
            s@ == stored_type_text(*self),
    {
        match self {
            EntryType::Login => "login".to_owned(),
            EntryType::Note => "note".to_owned(),
            EntryType::Card => "card".to_owned(),
            EntryType::Identity => "identity".to_owned(),
            EntryType::Totp => "totp".to_owned(),
            EntryType::Passkey => "passkey".to_owned(),
            EntryType::Other(s) => s.clone(),
        }
    }

    /// The type stored as `name`. A name this build does not know is kept
    /// word for word as `Other`, so writing the type back stores the same
    /// text: `stored_type_text(from_name(name)) == name`.
    pub fn from_name(name: &str) -> (t: EntryType)
        ensures
            stored_type_text(t) == name@,
            name@ == "login"@ ==> t == EntryType::Login,
            name@ == "note"@ ==> t == EntryType::Note,
            name@ == "card"@ ==> t == EntryType::Card,
            name@ == "identity"@ ==> t == EntryType::Identity,
            name@ == "totp"@ ==> t == EntryType::Totp,
            name@ == "passkey"@ ==> t == EntryType::Passkey,
            (t is Other) <==> !is_known_type_name(name@),
    {
        proof {
            reveal_strlit("login");
            reveal_strlit("note");
            reveal_strlit("card");
            reveal_strlit("identity");
            reveal_strlit("totp");
            reveal_strlit("passkey");
            // The six names start with six different letters.
            assert("login"@[0] == 'l' && "note"@[0] == 'n' && "card"@[0] == 'c');
            assert("identity"@[0] == 'i' && "totp"@[0] == 't' && "passkey"@[0] == 'p');
        }
        let n = name.to_owned();
        if n == "login".to_owned() {
            EntryType::Login
        } else if n == "note".to_owned() {
            EntryType::Note
        } else if n == "card".to_owned() {
            EntryType::Card
        } else if n == "identity".to_owned() {
            EntryType::Identity
        } else if n == "totp".to_owned() {
            EntryType::Totp
        } else if n == "passkey".to_owned() {
            EntryType::Passkey
        } else {
            EntryType::Other(n)
        }
    }
}

/// A decrypted vault entry.
///
/// Times are nanoseconds since the Unix epoch, UTC. `fields` lists the named
/// fields; a name that occurs more than once is read from its last
/// occurrence, as when the pairs are inserted into a map one by one.
#[derive(Debug, Clone)]
pub struct Entry {
    pub id: [u8; ID_LEN],
    pub entry_type: EntryType,
    pub version: u32,
    pub created_at: i128,
    pub updated_at: i128,
    pub deleted_at: Option<i128>,
    pub last_modified_by: String,
    pub fields: Vec<(String, FieldValue)>,
    pub tags: Vec<String>,
    pub favorite: bool,
}

/// The abstract value of a field: its text and its update time.
pub type FieldView = (Seq<char>, i128);

/// The map from field names to field values that a list of pairs denotes:
/// each pair in turn is inserted, so a later pair overrides an earlier one.
pub open spec fn field_map(pairs: Seq<(String, FieldValue)>) -> Map<Seq<char>, FieldView>
    decreases pairs.len(),
{
    if pairs.len() == 0 {
        Map::empty()
    } else {
        field_map(pairs.drop_last()).insert(pairs.last().0@, (pairs.last().1.value@, pairs.last().1.updated_at))
    }
}

/// No field name occurs twice.
pub open spec fn names_distinct(pairs: Seq<(String, FieldValue)>) -> bool {
    forall|i: int, j: int| 0 <= i < j < pairs.len() ==> pairs[i].0@ != pairs[j].0@
}

/// The abstract value of an entry.
pub struct EntryView {
    pub id: Seq<u8>,
    pub entry_type: EntryType,
    pub version: u32,
    pub created_at: i128,
    pub updated_at: i128,
    pub deleted_at: Option<i128>,
    pub last_modified_by: Seq<char>,
    pub fields: Map<Seq<char>, FieldView>,
    pub tags: Seq<Seq<char>>,
    pub favorite: bool,
}

impl View for Entry {
    type V = EntryView;

    open spec fn view(&self) -> EntryView {
        EntryView {
            id: self.id@,
            entry_type: self.entry_type,
            version: self.version,
            created_at: self.created_at,
            updated_at: self.updated_at,
            deleted_at: self.deleted_at,
            last_modified_by: self.last_modified_by@,
            fields: field_map(self.fields@),
            tags: self.tags@.map_values(|t: String| t@),
            favorite: self.favorite,
        }
    }
}

impl EntryView {
    /// A new entry: version 1, created and updated at `now`, no fields, no
    /// tags, not deleted, not a favorite.
    pub open spec fn fresh(id: Seq<u8>, entry_type: EntryType, device_id: Seq<char>, now: i128) -> EntryView {
        EntryView {
            id,
            entry_type,
            version: 1,
            created_at: now,
            updated_at: now,
            deleted_at: None,
            last_modified_by: device_id,
            fields: Map::empty(),
            tags: Seq::empty(),
            favorite: false,
        }
    }

    /// The entry after writing field `name` at time `now` from `device_id`.
    pub open spec fn with_field(self, name: Seq<char>, value: Seq<char>, device_id: Seq<char>, now: i128) -> EntryView
        recommends
            self.version < u32::MAX,
    {
        EntryView {
            version: (self.version + 1) as u32,
            fields: self.fields.insert(name, (value, now)),
            updated_at: now,
            last_modified_by: device_id,
            ..self
        }
    }

    /// The entry turned into a tombstone at time `now`.
    pub open spec fn tombstoned(self, now: i128) -> EntryView
        recommends
            self.version < u32::MAX,
    {
        EntryView {
            version: (self.version + 1) as u32,
            fields: Map::empty(),
            updated_at: now,
            deleted_at: Some(now),
            ..self
        }
    }
}

/// Reading a field gives what was last written to it, writing one field
/// leaves every other field as it was, and each write bumps the version by one.
pub proof fn lemma_get_after_set(e: EntryView, name: Seq<char>, value: Seq<char>, device_id: Seq<char>, now: i128, other: Seq<char>)
    requires
        e.version < u32::MAX,
        other != name,
    ensures
        e.with_field(name, value, device_id, now).fields.contains_key(name),
        e.with_field(name, value, device_id, now).fields[name] == (value, now),
        e.with_field(name, value, device_id, now).fields.contains_key(other) == e.fields.contains_key(other),
        e.fields.contains_key(other) ==> e.with_field(name, value, device_id, now).fields[other] == e.fields[other],
        e.with_field(name, value, device_id, now).version == e.version + 1,
        e.with_field(name, value, device_id, now).id == e.id,
{
}

/// A later pair with the same name overrides an earlier one: the map value
/// of a name is its last occurrence.
proof fn lemma_field_map_last(pairs: Seq<(String, FieldValue)>, i: int)
    requires
        0 <= i < pairs.len(),
        forall|j: int| i < j < pairs.len() ==> pairs[j].0@ != pairs[i].0@,
    ensures
        field_map(pairs).contains_key(pairs[i].0@),
        field_map(pairs)[pairs[i].0@] == (pairs[i].1.value@, pairs[i].1.updated_at),
    decreases pairs.len(),
{
    if i < pairs.len() - 1 {
        lemma_field_map_last(pairs.drop_last(), i);
    }
}

/// A name that occurs nowhere is not in the map.
proof fn lemma_field_map_absent(pairs: Seq<(String, FieldValue)>, name: Seq<char>)
    requires
        forall|j: int| 0 <= j < pairs.len() ==> pairs[j].0@ != name,
    ensures
        !field_map(pairs).contains_key(name),
    decreases pairs.len(),
{
    if pairs.len() > 0 {
        lemma_field_map_absent(pairs.drop_last(), name);
    }
}

/// Overwriting the last occurrence of a name inserts the new value.
proof fn lemma_field_map_update_last(pairs: Seq<(String, FieldValue)>, i: int, pair: (String, FieldValue))
    requires
        0 <= i < pairs.len(),
        pair.0@ == pairs[i].0@,
        forall|j: int| i < j < pairs.len() ==> pairs[j].0@ != pairs[i].0@,
    ensures
        field_map(pairs.update(i, pair)) == field_map(pairs).insert(pair.0@, (pair.1.value@, pair.1.updated_at)),
    decreases pairs.len(),
{
    let updated = pairs.update(i, pair);
    if i == pairs.len() - 1 {
        assert(updated.drop_last() =~= pairs.drop_last());
        assert(field_map(updated) =~= field_map(pairs).insert(pair.0@, (pair.1.value@, pair.1.updated_at)));
    } else {
        lemma_field_map_update_last(pairs.drop_last(), i, pair);
        assert(updated.drop_last() =~= pairs.drop_last().update(i, pair));
        assert(field_map(updated) =~= field_map(pairs).insert(pair.0@, (pair.1.value@, pair.1.updated_at)));
    }
}

impl Entry {
    /// Well-formed: no field name occurs twice, as in the map of fields the
    /// entry stands for. `new` establishes it and every method keeps it.
    pub open spec fn wf(&self) -> bool {
        names_distinct(self.fields@)
    }

    /// Creates an empty entry of the given type, stamped with the current
    /// time and a fresh version 7 UUID.
    pub fn new(entry_type: EntryType, device_id: &str) -> (e: Self)
        ensures
            is_v7(e.id@),
            e.created_at == e.updated_at,
            e@ == EntryView::fresh(e.id@, entry_type, device_id@, e.created_at),
            e.fields@.len() == 0,
            e.wf(),
    {
        let now = now_unix_nanos();
        let e = Self {
            id: uuid_now_v7(),
            version: 1,
            created_at: now,
            updated_at: now,
            deleted_at: None,
            fields: Vec::new(),
            tags: Vec::new(),
            last_modified_by: device_id.to_owned(),
            entry_type,
            favorite: false,
        };
        assert(e@.tags =~= Seq::<Seq<char>>::empty());
        assert(e@.fields =~= Map::<Seq<char>, FieldView>::empty());
        e
    }

    /// Turns the entry into a tombstone at time `now`: bumps the version,
    /// drops every field and records the deletion time.
    pub fn mark_deleted_at(&mut self, now: i128)
        requires
            old(self).version < u32::MAX,
        ensures
            final(self)@ == old(self)@.tombstoned(now),
            final(self).fields@.len() == 0,
            final(self).wf(),
    {
        self.version += 1;
        self.fields.clear();
        self.updated_at = now;
        self.deleted_at = Some(now);
        assert(field_map(self.fields@) =~= Map::<Seq<char>, FieldView>::empty());
    }

    /// Turns the entry into a tombstone, stamped with the current time.
    pub fn mark_deleted(&mut self)
        requires
            old(self).version < u32::MAX,
        ensures
            final(self)@ == old(self)@.tombstoned(final(self).updated_at),
            final(self).fields@.len() == 0,
            final(self).wf(),
    {
        let now = now_unix_nanos();
        self.mark_deleted_at(now);
    }

    /// Writes field `name` with `value` at time `now` on behalf of
    /// `device_id`, bumping the version.
    pub fn set_field_at(&mut self, name: &str, value: &str, device_id: &str, now: i128)
        requires
            old(self).version < u32::MAX,
        ensures
            final(self)@ == old(self)@.with_field(name@, value@, device_id@, now),
            old(self).wf() ==> final(self).wf(),
    {
        let key = name.to_owned();
        let field = FieldValue { value: value.to_owned(), updated_at: now };
        let n = self.fields.len();
        let mut i = n;
        while i > 0
            invariant
                i <= n == self.fields@.len(),
                self.fields@ == old(self).fields@,
                key@ == name@,
                forall|j: int| i <= j < n ==> self.fields@[j].0@ != key@,
            ensures
                i <= n == self.fields@.len(),
                self.fields@ == old(self).fields@,
                forall|j: int| i <= j < n ==> self.fields@[j].0@ != key@,
                i > 0 ==> self.fields@[i - 1].0@ == key@,
            decreases i,
        {
            if self.fields[i - 1].0 == key {
                break;
            }
            i -= 1;
        }
        let ghost before = self.fields@;
        if i > 0 {
            proof {
                lemma_field_map_update_last(before, i - 1, (key, field));
            }
            self.fields[i - 1] = (key, field);
            assert forall|k: int| 0 <= k < n implies self.fields@[k].0@ == before[k].0@ by {}
        } else {
            proof {
                lemma_field_map_absent(before, key@);
            }
            self.fields.push((key, field));
            assert(self.fields@.drop_last() =~= before);
        }
        self.version += 1;
        self.updated_at = now;
        self.last_modified_by = device_id.to_owned();
        assert(self@.fields =~= old(self)@.fields.insert(name@, (value@, now)));
    }

    /// Writes field `name` with `value` on behalf of `device_id`, stamped
    /// with the current time.
    pub fn set_field(&mut self, name: &str, value: &str, device_id: &str)
        requires
            old(self).version < u32::MAX,
        ensures
            final(self)@ == old(self)@.with_field(name@, value@, device_id@, final(self).updated_at),
            old(self).wf() ==> final(self).wf(),
    {
        let now = now_unix_nanos();
        self.set_field_at(name, value, device_id, now);
    }

    /// The value of field `name`, if the entry has it.
    pub fn get_field(&self, name: &str) -> (r: Option<&str>)
        ensures
            match r {
                Some(v) => self@.fields.contains_key(name@) && v@ == self@.fields[name@].0,
                None => !self@.fields.contains_key(name@),
            },
    {
        let key = name.to_owned();
        let n = self.fields.len();
        let mut i = n;
        while i > 0
            invariant
                i <= n == self.fields@.len(),
                key@ == name@,
                forall|j: int| i <= j < n ==> self.fields@[j].0@ != key@,
            decreases i,
        {
            if self.fields[i - 1].0 == key {
                proof {
                    lemma_field_map_last(self.fields@, i - 1);
                }
                return Some(self.fields[i - 1].1.value.as_str());
            }
            i -= 1;
        }
        proof {
            lemma_field_map_absent(self.fields@, key@);
        }
        None
    }
}

} // verus!
