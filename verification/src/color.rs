//! Colors.

use crate::hex_codec::{
    all_hex_digits, decode_to_slice, decoded, encode, encoded, lemma_decode_encoded, HexError,
};
use vstd::prelude::*;
use vstd::utf8::encode_utf8;

verus! {

/// An RGB color: one byte for each of red, green and blue.
#[derive(Clone, Copy, Debug, PartialEq, Eq, Structural)]
pub struct RgbColor(pub u8, pub u8, pub u8);

impl RgbColor {
    /// The three channels in the order red, green, blue.
    pub open spec fn channels(self) -> Seq<u8> {
        seq![self.0, self.1, self.2]
    }

    /// The color as the number `0xRRGGBB`.
    pub open spec fn packed(self) -> int {
        self.0 as int * 0x1_0000 + self.1 as int * 0x100 + self.2 as int
    }

    /// The color that the bytes of a six-digit hex text stand for, or why they
    /// stand for none.
    pub open spec fn parsed(text: Seq<u8>) -> Result<RgbColor, HexError> {
        match decoded(text, 3) {
            Ok(bytes) => Ok(RgbColor(bytes[0], bytes[1], bytes[2])),
            Err(e) => Err(e),
        }
    }

    /// The red channel.
    pub fn red(&self) -> (r: u8)
        ensures
            r == self.0,
    {
        self.0
    }

    /// The green channel.
    pub fn green(&self) -> (g: u8)
        ensures
            g == self.1,
    {
        self.1
    }

    /// The blue channel.
    pub fn blue(&self) -> (b: u8)
        ensures
            b == self.2,
    {
        self.2
    }

    /// Reads a color from six hex digits of either case, such as `"ff00aa"`.
    ///
    /// Any other text is refused with the error that says why; no input makes
    /// this function panic.
    pub fn from_hex(rgb_hex: &str) -> (r: Result<Self, HexError>)
        ensures
            r == Self::parsed(encode_utf8(rgb_hex@)),
            r is Ok <==> encode_utf8(rgb_hex@).len() == 6 && all_hex_digits(encode_utf8(rgb_hex@)),
    {
        let mut bytes = [0u8; 3];
        match decode_to_slice(rgb_hex.as_bytes(), &mut bytes) {
            Ok(()) => Ok(RgbColor(bytes[0], bytes[1], bytes[2])),
            Err(e) => Err(e),
        }
    }

    /// Writes the color as six lower-case hex digits.
    pub fn to_hex(&self) -> (text: String)
        ensures
            text@ == encoded(self.channels()),
    {
        let bytes = [self.0, self.1, self.2];
        encode(bytes.as_slice())
    }

    /// Packs the color into the low 24 bits of an integer: `0xRRGGBB`.
    pub fn to_int(&self) -> (v: u32)
        ensures
            v == self.packed(),
    {
        let r = self.0 as u32;
        let g = self.1 as u32;
        let b = self.2 as u32;
        assert((r << 16) | (g << 8) | b == r * 0x1_0000 + g * 0x100 + b) by (bit_vector)
            requires
                r < 0x100,
                g < 0x100,
                b < 0x100,
        ;
        (r << 16) | (g << 8) | b
    }
}

/// A color written as hex text reads back as itself.
pub proof fn lemma_hex_round_trip(color: RgbColor)
    ensures
        RgbColor::parsed(encode_utf8(encoded(color.channels()))) == Ok::<RgbColor, HexError>(
            color,
        ),
{
    lemma_decode_encoded(color.channels());
}

} // verus!
