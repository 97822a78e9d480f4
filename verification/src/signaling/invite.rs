//! One-time invite codes: four decimal digits, drawn from a random UUID,
//! that stand for the device which generated them.
use vstd::prelude::*;
use crate::text::{decimal, decimal_string, hex_digit_char};

verus! {

/// Payload stored in Redis for each invite code.
#[derive(Debug)]
pub struct InviteRecord {
    /// Device code of the device that generated the invite.
    pub device_code: String,
    /// Team ID of the generating device (for access control).
    pub team_id: Option<String>,
}

/// `uuid::Uuid::new_v4().into_bytes()`: the sixteen bytes of a random
/// (version 4) UUID. Nothing is stated of them: they come from a random
/// number generator.
#[verifier::external_body]
fn random_uuid_bytes() -> [u8; 16] {
    uuid::Uuid::new_v4().into_bytes()
}

/// The first four bytes read as a little-endian 32-bit number.
pub open spec fn le32(b: Seq<u8>) -> int {
    b[0] as int + b[1] as int * 0x100 + b[2] as int * 0x1_0000 + b[3] as int * 0x100_0000
}

/// The number that an invite code derived from `b` stands for.
pub open spec fn invite_number(b: Seq<u8>) -> int {
    1000 + le32(b) % 9000
}

/// The invite code derived from random bytes: the decimal rendering of
/// `1000 + n % 9000`, where `n` is the first four bytes read as a
/// little-endian number.
pub fn invite_code_from_bytes(bytes: &[u8; 16]) -> (code: String)
    ensures
        code@ == decimal(invite_number(bytes@) as nat),
{
    let num: u32 = (bytes[0] as u32) + (bytes[1] as u32) * 0x100 + (bytes[2] as u32) * 0x1_0000
        + (bytes[3] as u32) * 0x100_0000;
    let n: u32 = 1000 + num % 9000;
    decimal_string(n as u64)
}

/// Generate a random invite code (see `invite_code_from_bytes`).
pub fn generate_invite_code() -> (code: String)
    ensures
        exists|b: Seq<u8>| b.len() == 16 && code@ == decimal(invite_number(b) as nat),
{
    let bytes = random_uuid_bytes();
    let code = invite_code_from_bytes(&bytes);
    assert(bytes@.len() == 16);
    code
}

/// Every invite number lies in 1000..=9999.
pub proof fn lemma_invite_number_range(b: Seq<u8>)
    requires
        b.len() >= 4,
    ensures
        1000 <= invite_number(b) <= 9999,
{
}

/// Every number in 1000..=9999 renders as exactly four decimal digits, the
/// first of them not zero.
pub proof fn lemma_four_digits(n: nat)
    requires
        1000 <= n <= 9999,
    ensures
        decimal(n).len() == 4,
        forall|i: int| 0 <= i < 4 ==> '0' <= #[trigger] decimal(n)[i] <= '9',
        decimal(n)[0] != '0',
{
    reveal_with_fuel(decimal, 4);
    assert(decimal(n) == seq![
        hex_digit_char(n / 1000),
        hex_digit_char((n / 100) % 10),
        hex_digit_char((n / 10) % 10),
        hex_digit_char(n % 10),
    ]);
}

/// Law: every invite code is four decimal digits, "1000" to "9999".
pub proof fn lemma_invite_code_shape(b: Seq<u8>)
    requires
        b.len() == 16,
    ensures
        decimal(invite_number(b) as nat).len() == 4,
        forall|i: int| 0 <= i < 4 ==> '0' <= #[trigger] decimal(invite_number(b) as nat)[i] <= '9',
        decimal(invite_number(b) as nat)[0] != '0',
{
    lemma_invite_number_range(b);
    lemma_four_digits(invite_number(b) as nat);
}

} // verus!
