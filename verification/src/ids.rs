//! Job and message identifiers: UUIDs, held as their 128-bit value, with
//! the `uuid` crate doing the formatting, parsing and generation.
use vstd::prelude::*;

use crate::text::str_chars;
use getrandom::Error as RandomSourceError;

verus! {

/// The lowercase hexadecimal digit for `n < 16`.
pub open spec fn hex_digit(n: int) -> char {
    if n < 10 {
        (('0' as int) + n) as char
    } else {
        (('a' as int) + n - 10) as char
    }
}

/// The `k`-th hexadecimal digit of `id`, most significant first (`0 <= k < 32`).
pub open spec fn nibble(id: u128, k: int) -> int {
    (id as int / vstd::arithmetic::power::pow(16, (31 - k) as nat)) % 16
}

/// Which of the 32 hexadecimal digits stands at position `i` of the
/// hyphenated form.
pub open spec fn digit_index(i: int) -> int {
    if i < 8 {
        i
    } else if i < 13 {
        i - 1
    } else if i < 18 {
        i - 2
    } else if i < 23 {
        i - 3
    } else {
        i - 4
    }
}

/// The hyphenated lowercase form of a UUID, `xxxxxxxx-xxxx-xxxx-xxxx-xxxxxxxxxxxx`,
/// digits most significant first.
pub open spec fn hyphenated(id: u128) -> Seq<char> {
    Seq::new(
        36,
        |i: int|
            if i == 8 || i == 13 || i == 18 || i == 23 {
                '-'
            } else {
                hex_digit(nibble(id, digit_index(i)))
            },
    )
}

/// The characters of the hyphenated form: lowercase hexadecimal digits and
/// hyphens.
pub proof fn lemma_hyphenated_chars(id: u128)
    ensures
        hyphenated(id).len() == 36,
        forall|i: int|
            0 <= i < 36 ==> ({
                let c = #[trigger] hyphenated(id)[i];
                c == '-' || ('0' <= c <= '9') || ('a' <= c <= 'f')
            }),
{
    assert forall|i: int| 0 <= i < 36 implies ({
        let c = #[trigger] hyphenated(id)[i];
        c == '-' || ('0' <= c <= '9') || ('a' <= c <= 'f')
    }) by {
        if !(i == 8 || i == 13 || i == 18 || i == 23) {
            let n = nibble(id, digit_index(i));
            vstd::arithmetic::power::lemma_pow_positive(16, (31 - digit_index(i)) as nat);
            assert(0 <= n < 16);
            let c = hex_digit(n);
            if n < 10 {
                assert(c as u32 == 48 + n);
            } else {
                assert(c as u32 == 97 + n - 10);
            }
        }
    }
}

/// What `uuid::Uuid::parse_str` gives for a string, as the 128-bit value.
pub uninterp spec fn uuid_parse(s: Seq<char>) -> Option<u128>;

/// Calls `uuid::Uuid::to_string` (its `Display`) on the UUID with value `id`.
/// The crate formats a UUID as its hyphenated lowercase hexadecimal form;
/// the contract states that form.
#[verifier::external_body]
fn uuid_display(id: u128) -> (r: String)
    ensures
        r@ == hyphenated(id),
{
    uuid::Uuid::from_u128(id).to_string()
}

/// Calls `uuid::Uuid::parse_str` on the characters `s`. The crate accepts
/// the simple, hyphenated, braced and URN forms in either case; the contract
/// names the result and states that the hyphenated form of a UUID parses
/// back to it, as the crate's documentation promises.
#[verifier::external_body]
fn uuid_parse_str(s: &[char]) -> (r: Option<u128>)
    ensures
        r == uuid_parse(s@),
        forall|id: u128| s@ == hyphenated(id) ==> r == Some(id),
{
    let text: String = s.iter().collect();
    uuid::Uuid::parse_str(&text).ok().map(|u| u.as_u128())
}

/// The version 7 UUID for the Unix time `millis` in milliseconds and the
/// ten random bytes `b`: the time modulo 2^48 in the top 48 bits, the
/// version 7, twelve bits from `b[0]` (its low nibble) and `b[1]`, the
/// variant `0b10`, then the low six bits of `b[2]` and `b[3]` to `b[9]`.
pub open spec fn v7_uuid(millis: u64, b: Seq<u8>) -> int {
    (millis as int % 0x1_0000_0000_0000) * 0x1_0000_0000_0000_0000_0000 + 7
        * 0x1000_0000_0000_0000_0000 + ((b[0] as int % 16) * 256 + b[1] as int)
        * 0x1_0000_0000_0000_0000 + 2 * 0x4000_0000_0000_0000 + (b[2] as int % 64)
        * 0x100_0000_0000_0000 + b[3] as int * 0x1_0000_0000_0000 + b[4] as int
        * 0x100_0000_0000 + b[5] as int * 0x1_0000_0000 + b[6] as int * 0x100_0000
        + b[7] as int * 0x1_0000 + b[8] as int * 0x100 + b[9] as int
}

/// Calls `uuid::Builder::from_unix_timestamp_millis(millis, bytes)` and
/// takes the UUID's value. The crate's source lays the fields out as
/// `v7_uuid` states; no random number is drawn here.
#[verifier::external_body]
fn uuid_from_millis(millis: u64, bytes: &[u8; 10]) -> (r: u128)
    ensures
        r as int == v7_uuid(millis, bytes@),
{
    uuid::Builder::from_unix_timestamp_millis(millis, bytes).into_uuid().as_u128()
}

/// `getrandom::Error`, the failure of the random number source.
#[verifier::external_type_specification]
#[verifier::external_body]
pub struct ExRandomError(RandomSourceError);

/// Calls `getrandom::fill` on ten bytes and hands them back when it
/// succeeds. The bytes are random: nothing is stated of them, and the
/// source may fail on any call.
#[verifier::external_body]
fn getrandom_fill() -> (r: Result<[u8; 10], RandomSourceError>) {
    let mut bytes = [0u8; 10];
    getrandom::fill(&mut bytes).map(|()| bytes)
}

/// Why no identifier could be made.
#[derive(PartialEq, Eq, Structural, Debug, Clone, Copy)]
pub enum IdError {
    /// The random number source failed.
    NoRandomness,
}

/// The hyphenated lowercase form of a UUID (`Uuid::to_string`).
pub fn to_hyphenated(id: u128) -> (r: Vec<char>)
    ensures
        r@ == hyphenated(id),
{
    let s = uuid_display(id);
    str_chars(s.as_str())
}

/// The hyphenated lowercase form of a UUID, as a `String`.
pub fn to_hyphenated_string(id: u128) -> (r: String)
    ensures
        r@ == hyphenated(id),
{
    uuid_display(id)
}

/// Parses a UUID from text (`Uuid::from_str`).
pub fn parse_uuid(s: &[char]) -> (r: Option<u128>)
    ensures
        r == uuid_parse(s@),
        forall|id: u128| s@ == hyphenated(id) ==> r == Some(id),
{
    uuid_parse_str(s)
}

/// The version 7 UUID for the time `now_ms`, in milliseconds since boot,
/// and the random bytes `random`.
pub fn generate_uuid_v7(now_ms: u64, random: &[u8; 10]) -> (r: u128)
    ensures
        r as int == v7_uuid(now_ms, random@),
{
    uuid_from_millis(now_ms, random)
}

/// A fresh version 7 UUID for the time `now_ms`, with ten bytes drawn from
/// the random number source, or `NoRandomness` when the source fails.
pub fn new_uuid_v7(now_ms: u64) -> (r: Result<u128, IdError>)
    ensures
        r matches Ok(id) ==> exists|b: [u8; 10]| id as int == #[trigger] v7_uuid(now_ms, b@),
        r matches Err(e) ==> e == IdError::NoRandomness,
{
    match getrandom_fill() {
        Ok(bytes) => {
            let id = generate_uuid_v7(now_ms, &bytes);
            assert(id as int == v7_uuid(now_ms, bytes@));
            Ok(id)
        },
        Err(_) => Err(IdError::NoRandomness),
    }
}

} // verus!
