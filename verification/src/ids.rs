use vstd::prelude::*;
use uuid::Uuid;

use crate::encoding::uuid_text;

verus! {

/// Length of a UUID, in bytes.
pub const ID_LEN: usize = 16;

#[verifier::external_type_specification]
#[verifier::external_body]
pub struct ExUuidError(uuid::Error);

/// The 16 bytes that `uuid::Uuid::try_parse_ascii` reads from ASCII text,
/// `None` when it refuses the text.
pub uninterp spec fn uuid_parse(text: Seq<u8>) -> Option<Seq<u8>>;

/// A version 7, RFC 4122 variant UUID: the high nibble of byte 6 is 7 and
/// the two high bits of byte 8 are `10`.
pub open spec fn is_v7(id: Seq<u8>) -> bool {
    id.len() == ID_LEN && id[6] / 16 == 7 && id[8] / 64 == 2
}

/// Parses a UUID from ASCII text.
///
/// Calls `uuid::Uuid::try_parse_ascii` and `Uuid::as_bytes`. The contract
/// claims the result is the value named `uuid_parse`, and that the
/// hyphenated lower-case text of a UUID (the form `Uuid` displays) parses
/// back to the same 16 bytes.
#[verifier::external_body]
fn uuid_try_parse_ascii(text: &[u8]) -> (r: core::result::Result<[u8; ID_LEN], uuid::Error>)
    ensures
        match r {
            Ok(id) => uuid_parse(text@) == Some(id@),
            Err(_) => uuid_parse(text@) is None,
        },
        forall|id: Seq<u8>| id.len() == ID_LEN && text@ == uuid_text(id) ==> (r is Ok && r->Ok_0@ == id),
{
    match Uuid::try_parse_ascii(text) {
        Ok(id) => Ok(*id.as_bytes()),
        Err(e) => Err(e),
    }
}

/// A new time-ordered UUID.
///
/// Calls `uuid::Uuid::now_v7` and `Uuid::as_bytes`. The bytes depend on the
/// clock and on random bits; the contract claims only what the crate sets on
/// every such UUID: the version 7 nibble and the RFC 4122 variant bits.
#[verifier::external_body]
pub(crate) fn uuid_now_v7() -> (id: [u8; ID_LEN])
    ensures
        is_v7(id@),
{
    *Uuid::now_v7().as_bytes()
}

/// Parses the text of a UUID; `None` when it is not one.
pub fn parse_id(text: &[u8]) -> (r: Option<[u8; ID_LEN]>)
    ensures
        match r {
            Some(id) => uuid_parse(text@) == Some(id@),
            None => uuid_parse(text@) is None,
        },
        forall|id: Seq<u8>| id.len() == ID_LEN && text@ == uuid_text(id) ==> (r is Some && r->Some_0@ == id),
{
    match uuid_try_parse_ascii(text) {
        Ok(id) => Some(id),
        Err(_) => None,
    }
}

} // verus!
