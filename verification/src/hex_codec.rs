//! Hexadecimal text: what it means, and the `hex` crate behind it.
//!
//! The meaning is given by the spec functions [`encoded`] and [`decoded`]. The
//! two executable functions of this module call the `hex` crate; their
//! contracts are not proved, they restate what that crate's source does.

use hex::FromHexError;
use vstd::prelude::*;
use vstd::utf8::*;

verus! {

/// Why a text is no hex text of the wanted length.
#[derive(Clone, Copy, Debug, PartialEq, Eq)]
pub enum HexError {
    /// A byte that is no hex digit, as a character, and its position.
    InvalidHexCharacter { c: char, index: usize },
    /// The length is odd: a byte takes two digits.
    OddLength,
    /// The length is even, and not twice the number of bytes wanted.
    InvalidStringLength,
}

/// The sixteen digits that encoding writes, by value.
pub open spec fn lower_digits() -> Seq<char> {
    seq!['0', '1', '2', '3', '4', '5', '6', '7', '8', '9', 'a', 'b', 'c', 'd', 'e', 'f']
}

/// The value of an ASCII hex digit of either case, `None` for any other byte.
pub open spec fn digit_value(b: u8) -> Option<u8> {
    if '0' as u8 <= b <= '9' as u8 {
        Some((b - '0' as u8) as u8)
    } else if 'A' as u8 <= b <= 'F' as u8 {
        Some((b - 'A' as u8 + 10) as u8)
    } else if 'a' as u8 <= b <= 'f' as u8 {
        Some((b - 'a' as u8 + 10) as u8)
    } else {
        None
    }
}

/// The byte is an ASCII hex digit of either case.
pub open spec fn is_hex_digit(b: u8) -> bool {
    digit_value(b) is Some
}

/// Every byte of `data` is a hex digit.
pub open spec fn all_hex_digits(data: Seq<u8>) -> bool {
    forall|i: int| 0 <= i < data.len() ==> is_hex_digit(#[trigger] data[i])
}

/// `i` is the position of the first byte of `data` that is no hex digit.
pub open spec fn is_first_non_digit(data: Seq<u8>, i: int) -> bool {
    &&& 0 <= i < data.len()
    &&& !is_hex_digit(data[i])
    &&& forall|j: int| 0 <= j < i ==> is_hex_digit(#[trigger] data[j])
}

/// The position of the first byte of `data` that is no hex digit, where there is one.
pub open spec fn first_non_digit(data: Seq<u8>) -> int {
    choose|i: int| is_first_non_digit(data, i)
}

/// The byte that the digit pair at `data[2k], data[2k+1]` stands for.
pub open spec fn pair_value(data: Seq<u8>, k: int) -> u8 {
    (16 * digit_value(data[2 * k]).unwrap() + digit_value(data[2 * k + 1]).unwrap()) as u8
}

/// Lower-case hex text of `data`: two digits for each byte, the high half first.
pub open spec fn encoded(data: Seq<u8>) -> Seq<char> {
    Seq::new(
        2 * data.len(),
        |i: int|
            lower_digits()[if i % 2 == 0 {
                data[i / 2] as int / 16
            } else {
                data[i / 2] as int % 16
            }],
    )
}

/// What decoding the hex text `data` into exactly `n` bytes gives.
///
/// The length is judged first: an odd one, then one that is not `2 * n`. After
/// that the first byte that is no hex digit is reported with its position.
pub open spec fn decoded(data: Seq<u8>, n: nat) -> Result<Seq<u8>, HexError> {
    if data.len() % 2 != 0 {
        Err(HexError::OddLength)
    } else if data.len() / 2 != n {
        Err(HexError::InvalidStringLength)
    } else if !all_hex_digits(data) {
        let i = first_non_digit(data);
        Err(HexError::InvalidHexCharacter { c: data[i] as char, index: i as usize })
    } else {
        Ok(Seq::new(n, |k: int| pair_value(data, k)))
    }
}

/// The first byte that is no hex digit is the only one of its kind.
pub proof fn lemma_first_non_digit_is(data: Seq<u8>, i: int)
    requires
        is_first_non_digit(data, i),
    ensures
        !all_hex_digits(data),
        first_non_digit(data) == i,
{
}

/// Hex text reads back as the bytes it was written from: decoding the UTF-8
/// bytes of [`encoded`] text gives those bytes again, for every byte sequence.
pub proof fn lemma_decode_encoded(data: Seq<u8>)
    ensures
        decoded(encode_utf8(encoded(data)), data.len()) == Ok::<Seq<u8>, HexError>(data),
{
    let text = encoded(data);
    let bytes = encode_utf8(text);
    assert(is_ascii_chars(text));
    is_ascii_chars_encode_utf8(text);
    assert(Seq::new(data.len(), |k: int| pair_value(bytes, k)) =~= data);
}

/// `hex::encode` on a byte slice.
///
/// Claimed of it: the text is [`encoded`] of the bytes, that is two lower-case
/// digits per byte, taken from the crate's digit table by the byte's high and
/// low half.
#[verifier::external_body]
pub(crate) fn encode(data: &[u8]) -> (text: String)
    ensures
        text@ == encoded(data@),
{
    hex::encode(data)
}

/// `hex::decode_to_slice` on a byte slice, with the crate's error turned into
/// [`HexError`], variant for variant.
///
/// Claimed of it: it succeeds exactly when [`decoded`] does for the length of
/// `out`, then leaves the decoded bytes in `out`, and otherwise returns the
/// error that [`decoded`] names. The length of `out` never changes; what `out`
/// holds after a failure is left open.
#[verifier::external_body]
pub(crate) fn decode_to_slice(data: &[u8], out: &mut [u8]) -> (r: Result<(), HexError>)
    ensures
        final(out)@.len() == old(out)@.len(),
        r is Ok <==> decoded(data@, old(out)@.len()) is Ok,
        r is Ok ==> final(out)@ == decoded(data@, old(out)@.len())->Ok_0,
        r is Err ==> r->Err_0 == decoded(data@, old(out)@.len())->Err_0,
{
    match hex::decode_to_slice(data, out) {
        Ok(()) => Ok(()),
        Err(FromHexError::InvalidHexCharacter { c, index }) => Err(
            HexError::InvalidHexCharacter { c, index },
        ),
        Err(FromHexError::OddLength) => Err(HexError::OddLength),
        Err(FromHexError::InvalidStringLength) => Err(HexError::InvalidStringLength),
    }
}

} // verus!
