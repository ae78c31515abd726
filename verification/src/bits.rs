//! Arithmetic meaning of the masks and shifts that the drivers apply to
//! register and descriptor fields.

use vstd::prelude::*;

verus! {

/// Masks and shifts of bytes, as divisions and remainders.
pub proof fn lemma_u8_bits()
    by (bit_vector)
    ensures
        forall|a: u8| #[trigger] (a & 0x1F) == a % 32,
        forall|a: u8| #[trigger] ((a & 0xE0) >> 5u8) == a / 32,
        forall|a: u8| #[trigger] (a & 0x0F) == a % 16,
        forall|a: u8| #[trigger] (a & 0x03) == a % 4,
        forall|a: u8| #[trigger] (a & 0x01) == a % 2,
        forall|a: u8| (#[trigger] (a & 0x80) == 0) == (a < 0x80),
        forall|a: u8| (#[trigger] (a & 0x40) == 0) == ((a / 64) % 2 == 0),
        forall|a: u8| #[trigger] ((a & 0x60) >> 5u8) == (a / 32) % 4,
        forall|a: u8| (#[trigger] (a & 0x10) == 0) == ((a / 16) % 2 == 0),
        forall|a: u8| (#[trigger] (a & 0xF0) == 0) == (a < 16),
        forall|a: u8| #[trigger] (a >> 0u8) == a,
        forall|a: u8| #[trigger] (a | 0u8) == a,
        forall|a: u8| #[trigger] (0u8 | a) == a,
        forall|a: u8| a < 4 ==> #[trigger] (a << 6u8) == a * 64,
        forall|a: u8| a <= 1 ==> #[trigger] (a << 7u8) == a * 128,
        1u8 << 3u8 == 8u8,
        1u8 << 4u8 == 16u8,
{
}

/// Masks and shifts of 16-bit words, as divisions and remainders.
pub proof fn lemma_u16_bits()
    by (bit_vector)
    ensures
        forall|a: u16| #[trigger] ((a >> 8u16) & 0xFF) == a / 256,
        forall|a: u16| #[trigger] ((a >> 9u16) & 7) == (a / 512) % 8,
        forall|a: u16| #[trigger] (a & 1) == a % 2,
        forall|a: u16| (#[trigger] (a >> 1u16) == 0) == (a / 2 == 0),
        forall|a: u16, b: u16| a < 256 && b < 256 ==> #[trigger] ((a << 8u16) | b) == a * 256 + b,
{
}

/// The status code byte of a 16-bit completion status.
pub proof fn lemma_u16_status_code()
    by (bit_vector)
    ensures
        forall|a: u16| #[trigger] ((a >> 1u16) as u8) == ((a / 2) % 256) as u8,
{
}

/// Masks and shifts of 32-bit words, as divisions and remainders.
pub proof fn lemma_u32_bits()
    by (bit_vector)
    ensures
        forall|a: u32| #[trigger] ((a >> 24u32) & 3) == (a / 16777216) % 4,
        forall|a: u32| #[trigger] (((a >> 16u32) & 0xFF) as u8) == (a / 65536) % 256,
        forall|a: u32| #[trigger] (a & 0x0000_000F) == a % 16,
        forall|a: u32| #[trigger] (a & 3) == a % 4,
        forall|a: u32| #[trigger] (a & 7) == a % 8,
        forall|a: u32, b: u32| a < 65536 && b < 256 ==> #[trigger] ((a << 16u32) | b) == a * 65536 + b,
        forall|a: u32, b: u32, c: u32|
            a < 256 && b < 256 && c < 256 ==> #[trigger] ((a << 16u32) | (b << 8u32) | c) == a * 65536
                + b * 256 + c,
{
}

} // verus!
