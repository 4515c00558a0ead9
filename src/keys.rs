//! Private keys and the addresses derived from them, through `alloy`, `hex` and `rand`.

use vstd::prelude::*;

use crate::text::{all_hex, digit_char, hex_value};

verus! {

/// The checksummed address (`0x` and forty hexadecimal digits) of the secret key with these
/// big-endian bytes.
pub uninterp spec fn checksum_address(secret: Seq<u8>) -> Seq<char>;

/// The order of the secp256k1 group: secret keys are the values from one up to one less than it.
pub open spec fn secp256k1_order() -> nat {
    let word: nat = 0x1_0000_0000_0000_0000;
    ((0xFFFF_FFFF_FFFF_FFFF * word + 0xFFFF_FFFF_FFFF_FFFE) * word + 0xBAAE_DCE6_AF48_A03B) * word
        + 0xBFD2_5E8C_D036_4141
}

/// The value of bytes read as a big-endian number.
pub open spec fn be_value(b: Seq<u8>) -> nat
    decreases b.len(),
{
    if b.len() == 0 {
        0
    } else {
        be_value(b.drop_last()) * 256 + b.last() as nat
    }
}

/// Bytes that are a secret key: 24 to 32 of them, read big-endian, giving a value that is
/// neither zero nor at least the group order.
pub open spec fn valid_secret(b: Seq<u8>) -> bool {
    24 <= b.len() <= 32 && 0 < be_value(b) < secp256k1_order()
}

/// Two lower-case hexadecimal digits for each byte.
pub open spec fn hex_of_bytes(b: Seq<u8>) -> Seq<char>
    decreases b.len(),
{
    if b.len() == 0 {
        Seq::empty()
    } else {
        hex_of_bytes(b.drop_last()) + seq![
            digit_char((b.last() / 16) as nat),
            digit_char((b.last() % 16) as nat),
        ]
    }
}

/// The bytes written by pairs of hexadecimal digits.
pub open spec fn bytes_of_hex(s: Seq<char>) -> Seq<u8> {
    Seq::new(
        s.len() / 2,
        |i: int| (hex_value(s[2 * i]) * 16 + hex_value(s[2 * i + 1])) as u8,
    )
}

/// Relies on `k256::SecretKey::random` (as `alloy::signers::k256`) with `rand::thread_rng`, and
/// `to_bytes`: a fresh random non-zero scalar below the group order, as 32 big-endian bytes.
#[verifier::external_body]
pub(crate) fn random_secret() -> (r: Vec<u8>)
    ensures
        r@.len() == 32,
        valid_secret(r@),
{
    alloy::signers::k256::SecretKey::random(&mut rand::thread_rng()).to_bytes().to_vec()
}

/// Relies on `hex::encode`: two lower-case digits for each byte, in order.
#[verifier::external_body]
pub(crate) fn hex_encode(bytes: &Vec<u8>) -> (r: String)
    ensures
        r@ == hex_of_bytes(bytes@),
{
    hex::encode(bytes)
}

/// Relies on `hex::decode`: digits of either case, taken in pairs; an odd length or another
/// character is an error.
#[verifier::external_body]
pub(crate) fn hex_decode(s: &str) -> (r: Option<Vec<u8>>)
    ensures
        match r {
            Some(b) => s@.len() % 2 == 0 && all_hex(s@) && b@ == bytes_of_hex(s@),
            None => !(s@.len() % 2 == 0 && all_hex(s@)),
        },
{
    hex::decode(s).ok()
}

/// Relies on `k256::ecdsa::SigningKey::from_slice` (as `alloy::signers::k256`), which takes 24
/// to 32 big-endian bytes (fewer than 32 are padded with zeros) and refuses zero and values at
/// or above the group order, and `alloy::signers::utils::secret_key_to_address`, whose address
/// displays as `0x` and forty hexadecimal digits with an EIP-55 checksum.
#[verifier::external_body]
pub(crate) fn address_of_secret(secret: &Vec<u8>) -> (r: Option<String>)
    ensures
        r is Some <==> valid_secret(secret@),
        r matches Some(a) ==> {
            &&& a@ == checksum_address(secret@)
            &&& a@.len() == 42
            &&& a@[0] == '0'
            &&& a@[1] == 'x'
            &&& all_hex(a@.skip(2))
        },
{
    alloy::signers::k256::ecdsa::SigningKey::from_slice(secret).ok().map(
        |k| alloy::signers::utils::secret_key_to_address(&k).to_string(),
    )
}

/// The hexadecimal digit of a value below sixteen reads back as that value.
proof fn lemma_digit_round_trip(d: nat)
    requires
        d < 16,
    ensures
        hex_value(digit_char(d)) == d,
        crate::text::is_hex_digit(digit_char(d)),
{
    if d < 10 {
        assert(((d + 48) as u8) as char as u32 == d + 48);
    } else {
        assert(((d + 87) as u8) as char as u32 == d + 87);
    }
}

/// Reading back the hexadecimal form of bytes gives the bytes.
pub proof fn lemma_hex_round_trip(b: Seq<u8>)
    ensures
        hex_of_bytes(b).len() == 2 * b.len(),
        all_hex(hex_of_bytes(b)),
        bytes_of_hex(hex_of_bytes(b)) == b,
    decreases b.len(),
{
    let h = hex_of_bytes(b);
    if b.len() > 0 {
        let front = b.drop_last();
        lemma_hex_round_trip(front);
        let hf = hex_of_bytes(front);
        let x = b.last();
        lemma_digit_round_trip((x / 16) as nat);
        lemma_digit_round_trip((x % 16) as nat);
        assert(h =~= hf + seq![digit_char((x / 16) as nat), digit_char((x % 16) as nat)]);
        assert forall|i: int| 0 <= i < h.len() implies crate::text::is_hex_digit(#[trigger] h[i]) by {
            if i < hf.len() {
                assert(h[i] == hf[i]);
            }
        }
        assert forall|i: int| 0 <= i < b.len() implies #[trigger] bytes_of_hex(h)[i] == b[i] by {
            if i < front.len() {
                assert(h[2 * i] == hf[2 * i]);
                assert(h[2 * i + 1] == hf[2 * i + 1]);
                assert(bytes_of_hex(hf)[i] == front[i]);
            } else {
                assert(h[2 * i] == digit_char((x / 16) as nat));
                assert(h[2 * i + 1] == digit_char((x % 16) as nat));
            }
        }
        assert(bytes_of_hex(h) =~= b);
    } else {
        assert(bytes_of_hex(h) =~= b);
    }
}

} // verus!
