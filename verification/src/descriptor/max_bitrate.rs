//! The `maximum_bitrate_descriptor()` gives an upper bound on the bitrate of the stream or
//! program it is attached to.
use super::descriptor_len;
use super::DescriptorError;
use vstd::prelude::*;

verus! {

/// Upper bound of the bitrate, including transport overhead, of the stream or program it
/// describes.
#[derive(Debug)]
pub struct MaximumBitrateDescriptor<'buf> {
    buf: &'buf [u8],
}

impl<'buf> View for MaximumBitrateDescriptor<'buf> {
    type V = Seq<u8>;

    closed spec fn view(&self) -> Seq<u8> {
        self.buf@
    }
}

impl<'buf> MaximumBitrateDescriptor<'buf> {
    #[verifier::type_invariant]
    spec fn inv(self) -> bool {
        self.buf@.len() >= 3
    }

    /// The descriptor tag value which identifies the descriptor as a
    /// `MaximumBitrateDescriptor`.
    pub const TAG: u8 = 14;

    /// Construct a `MaximumBitrateDescriptor` instance that will parse the data from the given
    /// slice, which must hold at least the 3 bytes of the descriptor's fields.
    pub fn new(tag: u8, buf: &'buf [u8]) -> (r: Result<MaximumBitrateDescriptor<'buf>, DescriptorError>)
        ensures
            buf@.len() < 3 ==> r == Err::<MaximumBitrateDescriptor<'buf>, DescriptorError>(
                DescriptorError::NotEnoughData { tag, actual: buf@.len() as usize, expected: 3 },
            ),
            buf@.len() >= 3 ==> (r matches Ok(d) && d@ == buf@),
    {
        descriptor_len(buf, tag, 3)?;
        Ok(MaximumBitrateDescriptor { buf })
    }

    /// The 22-bit `maximum_bitrate` value, in units of 50 bytes per second.
    pub fn maximum_bitrate(&self) -> (r: u32)
        ensures
            r == (self@[0] % 64) * 0x1_0000 + self@[1] * 0x100 + self@[2],
    {
        proof {
            use_type_invariant(self);
        }
        (self.buf[0] % 64) as u32 * 0x1_0000 + self.buf[1] as u32 * 0x100 + self.buf[2] as u32
    }
}

} // verus!
