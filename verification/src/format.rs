//! The pixel format of backend textures.
//!
//! Payloads hold each pixel as the four bytes red, green, blue, alpha. The
//! backend names its 32-bit formats by the order of the channels in the
//! pixel taken as one integer, most significant byte first, so the format
//! whose bytes in memory are red, green, blue, alpha depends on the byte
//! order of the machine.

use vstd::prelude::*;

verus! {

/// A packed 32-bit pixel format, named by its channels from the most
/// significant byte of the pixel to the least significant.
#[derive(Clone, Copy, Debug, PartialEq, Eq, Structural)]
pub enum PixelFormat {
    Rgba8888,
    Abgr8888,
}

/// The four bytes of `value` in the order in which a machine of the given
/// byte order keeps them in memory.
pub open spec fn stored_bytes(value: u32, little_endian: bool) -> Seq<u8> {
    let low = (value & 0xff) as u8;
    let mid_low = ((value >> 8) & 0xff) as u8;
    let mid_high = ((value >> 16) & 0xff) as u8;
    let high = ((value >> 24) & 0xff) as u8;
    if little_endian {
        seq![low, mid_low, mid_high, high]
    } else {
        seq![high, mid_high, mid_low, low]
    }
}

impl PixelFormat {
    /// The pixel of the given channels as one integer.
    pub open spec fn packed(self, red: u8, green: u8, blue: u8, alpha: u8) -> u32 {
        match self {
            PixelFormat::Rgba8888 => (red as u32) << 24 | (green as u32) << 16 | (blue as u32) << 8
                | (alpha as u32),
            PixelFormat::Abgr8888 => (alpha as u32) << 24 | (blue as u32) << 16 | (green as u32)
                << 8 | (red as u32),
        }
    }

    /// The bytes of a pixel of this format in the memory of a machine of the
    /// given byte order.
    pub open spec fn memory_layout(
        self,
        little_endian: bool,
        red: u8,
        green: u8,
        blue: u8,
        alpha: u8,
    ) -> Seq<u8> {
        stored_bytes(self.packed(red, green, blue, alpha), little_endian)
    }

    /// Computes [`PixelFormat::packed`].
    pub fn pack(&self, red: u8, green: u8, blue: u8, alpha: u8) -> (value: u32)
        ensures
            value == self.packed(red, green, blue, alpha),
    {
        match self {
            PixelFormat::Rgba8888 => (red as u32) << 24 | (green as u32) << 16 | (blue as u32) << 8
                | (alpha as u32),
            PixelFormat::Abgr8888 => (alpha as u32) << 24 | (blue as u32) << 16 | (green as u32)
                << 8 | (red as u32),
        }
    }

    /// The format in which textures are created: the one whose pixels lie
    /// in memory as red, green, blue, alpha, as payloads do.
    pub fn for_byte_order(little_endian: bool) -> (format: PixelFormat)
        ensures
            format == (if little_endian {
                PixelFormat::Abgr8888
            } else {
                PixelFormat::Rgba8888
            }),
            forall|red: u8, green: u8, blue: u8, alpha: u8|
                #[trigger] format.memory_layout(little_endian, red, green, blue, alpha)
                    == seq![red, green, blue, alpha],
    {
        let format = if little_endian {
            PixelFormat::Abgr8888
        } else {
            PixelFormat::Rgba8888
        };
        proof {
            assert forall|red: u8, green: u8, blue: u8, alpha: u8|
                #[trigger] format.memory_layout(little_endian, red, green, blue, alpha)
                    == seq![red, green, blue, alpha] by {
                lemma_channels_of_packed(red, green, blue, alpha);
                lemma_channels_of_packed(alpha, blue, green, red);
                assert(format.memory_layout(little_endian, red, green, blue, alpha)
                    =~= seq![red, green, blue, alpha]);
            }
        }
        format
    }
}

/// Four bytes packed into an integer come out again by shifting and
/// masking.
proof fn lemma_channels_of_packed(first: u8, second: u8, third: u8, fourth: u8)
    ensures
        ({
            let value = (first as u32) << 24 | (second as u32) << 16 | (third as u32) << 8 | (
            fourth as u32);
            &&& ((value >> 24) & 0xff) as u8 == first
            &&& ((value >> 16) & 0xff) as u8 == second
            &&& ((value >> 8) & 0xff) as u8 == third
            &&& (value & 0xff) as u8 == fourth
        }),
{
    assert({
        let value = (first as u32) << 24 | (second as u32) << 16 | (third as u32) << 8 | (
        fourth as u32);
        &&& ((value >> 24) & 0xff) as u8 == first
        &&& ((value >> 16) & 0xff) as u8 == second
        &&& ((value >> 8) & 0xff) as u8 == third
        &&& (value & 0xff) as u8 == fourth
    }) by (bit_vector);
}

} // verus!
