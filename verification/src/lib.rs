//! Generation of RFC 4122 version-4 (random) UUID strings in four textual
//! variants (lowercase/uppercase, dashed/undashed), and rendering of a text
//! payload as a QR code serialized into a minimal SVG document.

use vstd::prelude::*;

pub mod chars;
pub mod gen;
pub mod qr;
pub mod svg;

use crate::chars::upper_seq;
use crate::gen::{
    concat_all, insert_dashes, insert_dashes_str, is_uuid_dashed36, is_uuid_dashed36_upper,
    is_uuid_hex32, is_uuid_hex32_upper, join_groups, lemma_groups_to_hex32,
    lemma_insert_dashes_valid, lemma_upper_dashed36, lemma_upper_hex32, rnd_uuid, to_capital,
};

verus! {

/// The error taxonomy of the library: a malformed hexadecimal group seen
/// during nibble patching, or a filesystem write failure (reported by the
/// unverified file-writing shell around the library).
#[derive(Clone, Copy, Debug, PartialEq, Eq, Structural)]
pub enum UUIDError {
    ParseIntError,
    IOError,
}

/// Generates a fresh version-4 UUID as a lowercase undashed 32-character
/// hexadecimal string. The parse-error path of the nibble patching cannot be
/// taken on the generator's own output, so the call always succeeds.
pub fn uuid() -> (r: Result<String, UUIDError>)
    ensures
        r is Ok,
        is_uuid_hex32(r->Ok_0@),
{
    let groups = match rnd_uuid() {
        Ok(g) => g,
        Err(e) => return Err(e),
    };
    let s = join_groups(&groups);
    proof {
        lemma_groups_to_hex32(groups@);
    }
    Ok(s)
}

/// Generates a fresh version-4 UUID as an uppercase undashed 32-character
/// hexadecimal string: the character-by-character uppercase image of a valid
/// lowercase undashed UUID string.
pub fn uuid_uppercase() -> (r: Result<String, UUIDError>)
    ensures
        r is Ok,
        is_uuid_hex32_upper(r->Ok_0@),
        exists|b: Seq<char>| is_uuid_hex32(b) && r->Ok_0@ == #[trigger] upper_seq(b),
{
    let groups = match rnd_uuid() {
        Ok(g) => g,
        Err(e) => return Err(e),
    };
    let s = join_groups(&groups);
    let r = to_capital(s);
    proof {
        lemma_groups_to_hex32(groups@);
        lemma_upper_hex32(concat_all(groups@));
    }
    Ok(r)
}

/// Generates a fresh version-4 UUID in the dashed lowercase form: the dashed
/// image (dashes at indices 8, 13, 18 and 23) of a valid lowercase undashed
/// UUID string.
pub fn uuid_dashed() -> (r: Result<String, UUIDError>)
    ensures
        r is Ok,
        is_uuid_dashed36(r->Ok_0@),
        exists|b: Seq<char>| is_uuid_hex32(b) && r->Ok_0@ == #[trigger] insert_dashes(b),
{
    let groups = match rnd_uuid() {
        Ok(g) => g,
        Err(e) => return Err(e),
    };
    let s = join_groups(&groups);
    proof {
        lemma_groups_to_hex32(groups@);
    }
    let r = insert_dashes_str(s.as_str());
    proof {
        lemma_insert_dashes_valid(s@);
    }
    Ok(r)
}

/// Generates a fresh version-4 UUID in the dashed uppercase form: the
/// uppercase image of the dashed form of a valid lowercase undashed UUID
/// string.
pub fn uuid_dashed_uppercase() -> (r: Result<String, UUIDError>)
    ensures
        r is Ok,
        is_uuid_dashed36_upper(r->Ok_0@),
        exists|b: Seq<char>|
            is_uuid_hex32(b) && r->Ok_0@ == #[trigger] upper_seq(insert_dashes(b)),
{
    let groups = match rnd_uuid() {
        Ok(g) => g,
        Err(e) => return Err(e),
    };
    let s = join_groups(&groups);
    proof {
        lemma_groups_to_hex32(groups@);
    }
    let d = insert_dashes_str(s.as_str());
    let r = to_capital(d);
    proof {
        lemma_insert_dashes_valid(s@);
        lemma_upper_dashed36(d@);
    }
    Ok(r)
}

} // verus!
