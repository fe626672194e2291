//! Synthesis of RFC 4122 version-4 UUID strings: sixteen random bytes,
//! rendered as two-character lowercase hexadecimal groups, with the version
//! and variant marker nibbles patched into the seventh and ninth groups.

use vstd::prelude::*;

use crate::chars::{
    hex_char, hex_char_exec, hex_digit_val, hex_digit_val_exec, is_hex_digit, is_lower_hex_digit,
    lemma_hex_char_is_hex, lower_seq, push_char, to_upper_char, to_upper_char_exec, upper_seq,
};
use crate::UUIDError;
use vstd::string::StrSliceExecFns;
use vstd::string::StringExecFns;

verus! {

/// Relies on `rand::random`: returns one byte drawn from the thread-local
/// generator. Nothing is promised of its value.
#[verifier::external_body]
fn random_u8() -> u8 {
    rand::random()
}

/// The two lowercase hexadecimal digits of a byte value.
pub open spec fn hex_pair(b: int) -> Seq<char> {
    seq![hex_char(b / 16), hex_char(b % 16)]
}

/// A string of exactly two lowercase hexadecimal digits.
pub open spec fn is_hex_pair(s: Seq<char>) -> bool {
    s.len() == 2 && is_lower_hex_digit(s[0]) && is_lower_hex_digit(s[1])
}

/// A string of exactly two hexadecimal digits of either case.
pub open spec fn is_hex_pair_any(s: Seq<char>) -> bool {
    s.len() == 2 && is_hex_digit(s[0]) && is_hex_digit(s[1])
}

/// The numeric value of a two-digit hexadecimal string.
pub open spec fn hex_val2(s: Seq<char>) -> int {
    hex_digit_val(s[0]) * 16 + hex_digit_val(s[1])
}

/// A character the RFC 4122 variant nibble can render to, lowercase.
pub open spec fn is_variant_char(c: char) -> bool {
    c == '8' || c == '9' || c == 'a' || c == 'b'
}

/// Renders a byte as its two lowercase hexadecimal digits.
fn byte_hex(b: u8) -> (r: String)
    ensures
        r@ == hex_pair(b as int),
{
    let mut r = String::new();
    push_char(&mut r, hex_char_exec(b / 16));
    push_char(&mut r, hex_char_exec(b % 16));
    proof {
        assert(r@ =~= hex_pair(b as int));
    }
    r
}

/// Draws a random byte and renders it as a two-character lowercase
/// hexadecimal string, zero-padded.
pub fn u8_hex_rnd() -> (r: String)
    ensures
        is_hex_pair(r@),
{
    let b = random_u8();
    let r = byte_hex(b);
    proof {
        lemma_hex_char_is_hex(b as int / 16);
        lemma_hex_char_is_hex(b as int % 16);
    }
    r
}

/// Patches a two-digit hexadecimal group to carry the version marker: the
/// high nibble is forced to `4`, the low nibble is kept. A malformed input is
/// rejected with a parse error.
pub fn to_four(s: &str) -> (r: Result<String, UUIDError>)
    ensures
        is_hex_pair_any(s@) ==> r is Ok && r->Ok_0@ == seq!['4', hex_char(hex_val2(s@) % 16)],
        !is_hex_pair_any(s@) ==> r == Err::<String, UUIDError>(UUIDError::ParseIntError),
{
    let n = s.unicode_len();
    if n != 2 {
        return Err(UUIDError::ParseIntError);
    }
    let c0 = s.get_char(0);
    let c1 = s.get_char(1);
    let h = match hex_digit_val_exec(c0) {
        Some(v) => v,
        None => return Err(UUIDError::ParseIntError),
    };
    let l = match hex_digit_val_exec(c1) {
        Some(v) => v,
        None => return Err(UUIDError::ParseIntError),
    };
    let mut r = String::new();
    push_char(&mut r, '4');
    push_char(&mut r, hex_char_exec(l));
    proof {
        assert((h * 16 + l) % 16 == l as int) by (nonlinear_arith)
            requires h < 16 && l < 16;
        assert(r@ =~= seq!['4', hex_char(hex_val2(s@) % 16)]);
    }
    Ok(r)
}

/// Patches a two-digit hexadecimal group to carry the RFC 4122 variant
/// marker: the two high bits are forced to `10`, the low six bits are kept.
/// A malformed input is rejected with a parse error.
pub fn to_two(s: &str) -> (r: Result<String, UUIDError>)
    ensures
        is_hex_pair_any(s@) ==> r is Ok && r->Ok_0@ == hex_pair(128 + hex_val2(s@) % 64),
        !is_hex_pair_any(s@) ==> r == Err::<String, UUIDError>(UUIDError::ParseIntError),
{
    let n = s.unicode_len();
    if n != 2 {
        return Err(UUIDError::ParseIntError);
    }
    let c0 = s.get_char(0);
    let c1 = s.get_char(1);
    let h = match hex_digit_val_exec(c0) {
        Some(v) => v,
        None => return Err(UUIDError::ParseIntError),
    };
    let l = match hex_digit_val_exec(c1) {
        Some(v) => v,
        None => return Err(UUIDError::ParseIntError),
    };
    let v: u8 = h * 16 + l;
    let patched: u8 = 128 + v % 64;
    let r = byte_hex(patched);
    proof {
        assert(v as int == hex_val2(s@));
    }
    Ok(r)
}

/// A patched variant group is still a lowercase hexadecimal pair and starts
/// with one of `8`, `9`, `a`, `b`.
pub proof fn lemma_variant_pair(n: int)
    requires
        0 <= n < 256,
    ensures
        is_hex_pair(hex_pair(128 + n % 64)),
        is_variant_char(hex_pair(128 + n % 64)[0]),
{
    let v = 128 + n % 64;
    assert(128 <= v < 192);
    assert(8 <= v / 16 < 12);
    lemma_hex_char_is_hex(v / 16);
    lemma_hex_char_is_hex(v % 16);
}

/// The sixteen two-character groups of a version-4 UUID: all lowercase
/// hexadecimal pairs, the seventh starting with the version digit `4`, the
/// ninth starting with a variant character.
pub open spec fn is_uuid_groups(gs: Seq<String>) -> bool {
    &&& gs.len() == 16
    &&& forall|i: int| 0 <= i < 16 ==> is_hex_pair(#[trigger] gs[i]@)
    &&& gs[6]@[0] == '4'
    &&& is_variant_char(gs[8]@[0])
}

/// Generates the sixteen two-character groups of a fresh random version-4
/// UUID. The error paths of the nibble patching cannot be taken on the
/// generator's own output, so the result is always `Ok`.
pub fn rnd_uuid() -> (r: Result<Vec<String>, UUIDError>)
    ensures
        r is Ok,
        is_uuid_groups(r->Ok_0@),
{
    let mut v: Vec<String> = Vec::new();
    v.push(u8_hex_rnd());
    v.push(u8_hex_rnd());
    v.push(u8_hex_rnd());
    v.push(u8_hex_rnd());
    v.push(u8_hex_rnd());
    v.push(u8_hex_rnd());
    let s6 = u8_hex_rnd();
    let g6 = match to_four(s6.as_str()) {
        Ok(g) => g,
        Err(e) => return Err(e),
    };
    proof {
        lemma_hex_char_is_hex(hex_val2(s6@) % 16);
    }
    v.push(g6);
    v.push(u8_hex_rnd());
    let s8 = u8_hex_rnd();
    let g8 = match to_two(s8.as_str()) {
        Ok(g) => g,
        Err(e) => return Err(e),
    };
    proof {
        lemma_variant_pair(hex_val2(s8@));
        assert(0 <= hex_val2(s8@) < 256);
    }
    v.push(g8);
    v.push(u8_hex_rnd());
    v.push(u8_hex_rnd());
    v.push(u8_hex_rnd());
    v.push(u8_hex_rnd());
    v.push(u8_hex_rnd());
    v.push(u8_hex_rnd());
    v.push(u8_hex_rnd());
    proof {
        assert(is_uuid_groups(v@));
    }
    Ok(v)
}

/// The concatenation of the views of the first `k` strings of a sequence.
pub open spec fn concat_upto(gs: Seq<String>, k: int) -> Seq<char>
    decreases k,
{
    if k <= 0 {
        Seq::empty()
    } else {
        concat_upto(gs, k - 1) + gs[k - 1]@
    }
}

/// The concatenation of the views of all strings of a sequence.
pub open spec fn concat_all(gs: Seq<String>) -> Seq<char> {
    concat_upto(gs, gs.len() as int)
}

/// Joins a vector of strings into one string, in order.
pub fn join_groups(v: &Vec<String>) -> (r: String)
    ensures
        r@ == concat_all(v@),
{
    let mut r = String::new();
    let mut i: usize = 0;
    while i < v.len()
        invariant
            i <= v.len(),
            r@ == concat_upto(v@, i as int),
        decreases v.len() - i,
    {
        r.append(v[i].as_str());
        i = i + 1;
    }
    r
}

/// Indexing into the concatenation of two-character groups: character `j`
/// comes from group `j / 2`, at offset `j % 2`.
pub proof fn lemma_concat_index(gs: Seq<String>, k: int)
    requires
        0 <= k <= gs.len(),
        forall|i: int| 0 <= i < gs.len() ==> (#[trigger] gs[i]@).len() == 2,
    ensures
        concat_upto(gs, k).len() == 2 * k,
        forall|j: int| 0 <= j < 2 * k ==> #[trigger] concat_upto(gs, k)[j] == gs[j / 2]@[j % 2],
    decreases k,
{
    if k > 0 {
        lemma_concat_index(gs, k - 1);
        assert forall|j: int| 0 <= j < 2 * k implies #[trigger] concat_upto(gs, k)[j] == gs[j
            / 2]@[j % 2] by {
            if j < 2 * (k - 1) {
                assert(concat_upto(gs, k)[j] == concat_upto(gs, k - 1)[j]);
            } else {
                assert(j == 2 * k - 2 || j == 2 * k - 1);
                assert(j / 2 == k - 1);
                assert(concat_upto(gs, k)[j] == gs[k - 1]@[j - (2 * k - 2)]);
            }
        }
    }
}

/// The undashed lowercase form of a version-4 UUID: 32 lowercase hexadecimal
/// characters, `4` at index 12 (the version nibble) and one of `8`, `9`, `a`,
/// `b` at index 16 (the variant nibble).
pub open spec fn is_uuid_hex32(s: Seq<char>) -> bool {
    &&& s.len() == 32
    &&& forall|i: int| 0 <= i < 32 ==> is_lower_hex_digit(#[trigger] s[i])
    &&& s[12] == '4'
    &&& is_variant_char(s[16])
}

/// The concatenation of valid UUID groups is a valid undashed lowercase UUID
/// string.
pub proof fn lemma_groups_to_hex32(gs: Seq<String>)
    requires
        is_uuid_groups(gs),
    ensures
        is_uuid_hex32(concat_all(gs)),
{
    lemma_concat_index(gs, 16);
    let s = concat_all(gs);
    assert(s[12] == gs[6]@[0]);
    assert(s[16] == gs[8]@[0]);
    assert forall|i: int| 0 <= i < 32 implies is_lower_hex_digit(#[trigger] s[i]) by {
        assert(s[i] == gs[i / 2]@[i % 2]);
        assert(is_hex_pair(gs[i / 2]@));
    }
}

/// A dash position of the dashed 36-character form.
pub open spec fn is_dash_pos36(i: int) -> bool {
    i == 8 || i == 13 || i == 18 || i == 23
}

/// The dashed lowercase form of a version-4 UUID: 36 characters, dashes at
/// indices 8, 13, 18 and 23, lowercase hexadecimal digits elsewhere, with the
/// version digit `4` at index 14 and a variant character at index 19.
pub open spec fn is_uuid_dashed36(s: Seq<char>) -> bool {
    &&& s.len() == 36
    &&& forall|i: int|
        0 <= i < 36 ==> if is_dash_pos36(i) {
            #[trigger] s[i] == '-'
        } else {
            is_lower_hex_digit(s[i])
        }
    &&& s[14] == '4'
    &&& is_variant_char(s[19])
}

/// The dashed form of a 32-character base string: a dash after base
/// positions 8, 12, 16 and 20, which lands the dashes at indices 8, 13, 18
/// and 23 of the result.
pub open spec fn insert_dashes(s: Seq<char>) -> Seq<char> {
    s.subrange(0, 8) + seq!['-'] + s.subrange(8, 12) + seq!['-'] + s.subrange(12, 16) + seq!['-']
        + s.subrange(16, 20) + seq!['-'] + s.subrange(20, 32)
}

/// The inverse of `insert_dashes` on 36-character strings: drops the
/// characters at the four dash positions.
pub open spec fn strip_dashes36(s: Seq<char>) -> Seq<char> {
    s.subrange(0, 8) + s.subrange(9, 13) + s.subrange(14, 18) + s.subrange(19, 23) + s.subrange(
        24,
        36,
    )
}

/// Inserting the dashes into a valid undashed UUID string gives a valid
/// dashed one.
pub proof fn lemma_insert_dashes_valid(b: Seq<char>)
    requires
        is_uuid_hex32(b),
    ensures
        is_uuid_dashed36(insert_dashes(b)),
{
    let d = insert_dashes(b);
    assert(d.len() == 36);
    assert forall|i: int| 0 <= i < 36 implies if is_dash_pos36(i) {
        #[trigger] d[i] == '-'
    } else {
        is_lower_hex_digit(d[i])
    } by {
        if i < 8 {
            assert(d[i] == b[i]);
        } else if i == 8 {
        } else if i < 13 {
            assert(d[i] == b[i - 1]);
        } else if i == 13 {
        } else if i < 18 {
            assert(d[i] == b[i - 2]);
        } else if i == 18 {
        } else if i < 23 {
            assert(d[i] == b[i - 3]);
        } else if i == 23 {
        } else {
            assert(d[i] == b[i - 4]);
        }
    }
    assert(d[14] == b[12]);
    assert(d[19] == b[16]);
}

/// Removing the four dashes from the dashed form of a 32-character base
/// string gives the base string back.
pub proof fn lemma_strip_insert_dashes(b: Seq<char>)
    requires
        b.len() == 32,
    ensures
        strip_dashes36(insert_dashes(b)) == b,
{
    assert(strip_dashes36(insert_dashes(b)) =~= b);
}

/// Removing the four dashes from any valid dashed UUID string gives a valid
/// undashed one: 32 characters over the lowercase hexadecimal alphabet with
/// the version and variant markers at indices 12 and 16.
pub proof fn lemma_strip_dashes_valid(s: Seq<char>)
    requires
        is_uuid_dashed36(s),
    ensures
        is_uuid_hex32(strip_dashes36(s)),
{
    let b = strip_dashes36(s);
    assert(b.len() == 32);
    assert forall|i: int| 0 <= i < 32 implies is_lower_hex_digit(#[trigger] b[i]) by {
        if i < 8 {
            assert(b[i] == s[i]);
        } else if i < 12 {
            assert(b[i] == s[i + 1]);
        } else if i < 16 {
            assert(b[i] == s[i + 2]);
        } else if i < 20 {
            assert(b[i] == s[i + 3]);
        } else {
            assert(b[i] == s[i + 4]);
        }
    }
    assert(b[12] == s[14]);
    assert(b[16] == s[19]);
}

/// Builds the dashed form of a 32-character base string.
pub fn insert_dashes_str(s: &str) -> (r: String)
    requires
        s@.len() == 32,
    ensures
        r@ == insert_dashes(s@),
{
    let mut r = String::new();
    r.append(s.substring_char(0, 8));
    r.append("-");
    r.append(s.substring_char(8, 12));
    r.append("-");
    r.append(s.substring_char(12, 16));
    r.append("-");
    r.append(s.substring_char(16, 20));
    r.append("-");
    r.append(s.substring_char(20, 32));
    proof {
        reveal_strlit("-");
        assert(r@ =~= insert_dashes(s@));
    }
    r
}

/// Maps a string to uppercase, character by character.
pub fn to_capital(s: String) -> (r: String)
    ensures
        r@ == upper_seq(s@),
{
    let n = s.as_str().unicode_len();
    let mut r = String::new();
    let mut i: usize = 0;
    while i < n
        invariant
            n == s@.len(),
            i <= n,
            r@ == upper_seq(s@).take(i as int),
        decreases n - i,
    {
        let c = s.as_str().get_char(i);
        push_char(&mut r, to_upper_char_exec(c));
        proof {
            assert(r@ =~= upper_seq(s@).take(i + 1));
        }
        i = i + 1;
    }
    proof {
        assert(upper_seq(s@).take(n as int) =~= upper_seq(s@));
    }
    r
}

/// A character is an uppercase hexadecimal digit.
pub open spec fn is_upper_hex_digit(c: char) -> bool {
    ('0' <= c && c <= '9') || ('A' <= c && c <= 'F')
}

/// A character the RFC 4122 variant nibble can render to, uppercase.
pub open spec fn is_variant_char_upper(c: char) -> bool {
    c == '8' || c == '9' || c == 'A' || c == 'B'
}

/// The undashed uppercase form of a version-4 UUID.
pub open spec fn is_uuid_hex32_upper(s: Seq<char>) -> bool {
    &&& s.len() == 32
    &&& forall|i: int| 0 <= i < 32 ==> is_upper_hex_digit(#[trigger] s[i])
    &&& s[12] == '4'
    &&& is_variant_char_upper(s[16])
}

/// The dashed uppercase form of a version-4 UUID.
pub open spec fn is_uuid_dashed36_upper(s: Seq<char>) -> bool {
    &&& s.len() == 36
    &&& forall|i: int|
        0 <= i < 36 ==> if is_dash_pos36(i) {
            #[trigger] s[i] == '-'
        } else {
            is_upper_hex_digit(s[i])
        }
    &&& s[14] == '4'
    &&& is_variant_char_upper(s[19])
}

/// Case-folding a valid undashed lowercase UUID string gives a valid
/// uppercase one.
pub proof fn lemma_upper_hex32(s: Seq<char>)
    requires
        is_uuid_hex32(s),
    ensures
        is_uuid_hex32_upper(upper_seq(s)),
{
    let u = upper_seq(s);
    assert forall|i: int| 0 <= i < 32 implies is_upper_hex_digit(#[trigger] u[i]) by {
        assert(is_lower_hex_digit(s[i]));
    }
    assert(u[12] == to_upper_char(s[12]));
    assert(u[16] == to_upper_char(s[16]));
}

/// Case-folding a valid dashed lowercase UUID string gives a valid uppercase
/// one; the dashes are unaffected.
pub proof fn lemma_upper_dashed36(s: Seq<char>)
    requires
        is_uuid_dashed36(s),
    ensures
        is_uuid_dashed36_upper(upper_seq(s)),
{
    let u = upper_seq(s);
    assert forall|i: int| 0 <= i < 36 implies if is_dash_pos36(i) {
        #[trigger] u[i] == '-'
    } else {
        is_upper_hex_digit(u[i])
    } by {
        assert(u[i] == to_upper_char(s[i]));
        if !is_dash_pos36(i) {
            assert(is_lower_hex_digit(s[i]));
        }
    }
    assert(u[14] == to_upper_char(s[14]));
    assert(u[19] == to_upper_char(s[19]));
}

/// Uppercase and lowercase forms are case-inverses of each other character
/// by character: over strings of lowercase hexadecimal digits and dashes,
/// folding up and back down restores every character, and a dash stays a
/// dash in both directions.
pub proof fn lemma_case_fold_inverse(s: Seq<char>)
    requires
        forall|i: int| 0 <= i < s.len() ==> is_lower_hex_digit(#[trigger] s[i]) || s[i] == '-',
    ensures
        upper_seq(s).len() == s.len(),
        lower_seq(upper_seq(s)) == s,
        forall|i: int|
            0 <= i < s.len() ==> (#[trigger] s[i] == '-' <==> upper_seq(s)[i] == '-'),
{
    assert forall|i: int| 0 <= i < s.len() implies lower_seq(upper_seq(s))[i] == s[i] by {
        assert(is_lower_hex_digit(s[i]) || s[i] == '-');
    }
    assert(lower_seq(upper_seq(s)) =~= s);
}

} // verus!
