//! Provides some metadata from the SPS/PPS within this AVC stream, and also some flags to
//! indicate usage of certain AVC stream features.
use super::descriptor_len;
use super::DescriptorError;
use vstd::prelude::*;

verus! {

/// Descriptor holding copies of properties from the AVC metadata such as AVC 'profile' and
/// 'level'.
#[derive(Debug)]
pub struct AvcVideoDescriptor<'buf> {
    buf: &'buf [u8],
}

impl<'buf> View for AvcVideoDescriptor<'buf> {
    type V = Seq<u8>;

    closed spec fn view(&self) -> Seq<u8> {
        self.buf@
    }
}

impl<'buf> AvcVideoDescriptor<'buf> {
    #[verifier::type_invariant]
    spec fn inv(self) -> bool {
        self.buf@.len() >= 4
    }

    /// The descriptor tag value which identifies the descriptor as an `AvcVideoDescriptor`.
    pub const TAG: u8 = 40;

    /// Construct an `AvcVideoDescriptor` instance that will parse the data from the given
    /// slice, which must hold at least the 4 bytes of the descriptor's fields.
    pub fn new(tag: u8, buf: &'buf [u8]) -> (r: Result<AvcVideoDescriptor<'buf>, DescriptorError>)
        requires
            tag == Self::TAG,
        ensures
            buf@.len() < 4 ==> r == Err::<AvcVideoDescriptor<'buf>, DescriptorError>(
                DescriptorError::NotEnoughData { tag, actual: buf@.len() as usize, expected: 4 },
            ),
            buf@.len() >= 4 ==> (r matches Ok(d) && d@ == buf@),
    {
        descriptor_len(buf, tag, 4)?;
        Ok(AvcVideoDescriptor { buf })
    }

    /// The AVC _profile_ used in this stream will be equal to, or lower than, this value
    pub fn profile_idc(&self) -> (r: u8)
        ensures
            r == self@[0],
    {
        proof {
            use_type_invariant(self);
        }
        self.buf[0]
    }

    /// Value of the same flag from this AVC stream's _Sequence Parameter Set_
    pub fn constraint_set0_flag(&self) -> (r: bool)
        ensures
            r == (self@[1] >= 128),
    {
        proof {
            use_type_invariant(self);
        }
        self.buf[1] >= 128
    }

    /// Value of the same flag from this AVC stream's _Sequence Parameter Set_
    pub fn constraint_set1_flag(&self) -> (r: bool)
        ensures
            r == ((self@[1] / 64) % 2 == 1),
    {
        proof {
            use_type_invariant(self);
        }
        (self.buf[1] / 64) % 2 == 1
    }

    /// Value of the same flag from this AVC stream's _Sequence Parameter Set_
    pub fn constraint_set2_flag(&self) -> (r: bool)
        ensures
            r == ((self@[1] / 32) % 2 == 1),
    {
        proof {
            use_type_invariant(self);
        }
        (self.buf[1] / 32) % 2 == 1
    }

    /// Value of the same flag from this AVC stream's _Sequence Parameter Set_
    pub fn constraint_set3_flag(&self) -> (r: bool)
        ensures
            r == ((self@[1] / 16) % 2 == 1),
    {
        proof {
            use_type_invariant(self);
        }
        (self.buf[1] / 16) % 2 == 1
    }

    /// Value of the same flag from this AVC stream's _Sequence Parameter Set_
    pub fn constraint_set4_flag(&self) -> (r: bool)
        ensures
            r == ((self@[1] / 8) % 2 == 1),
    {
        proof {
            use_type_invariant(self);
        }
        (self.buf[1] / 8) % 2 == 1
    }

    /// Value of the same flag from this AVC stream's _Sequence Parameter Set_
    pub fn constraint_set5_flag(&self) -> (r: bool)
        ensures
            r == ((self@[1] / 4) % 2 == 1),
    {
        proof {
            use_type_invariant(self);
        }
        (self.buf[1] / 4) % 2 == 1
    }

    /// Value of the same flags from this AVC stream's _Sequence Parameter Set_
    pub fn avc_compatible_flags(&self) -> (r: u8)
        ensures
            r == self@[1] % 4,
    {
        proof {
            use_type_invariant(self);
        }
        self.buf[1] % 4
    }

    /// The AVC _level_ used in this stream will be equal to, or lower than, this value
    pub fn level_idc(&self) -> (r: u8)
        ensures
            r == self@[2],
    {
        proof {
            use_type_invariant(self);
        }
        self.buf[2]
    }

    /// Stream may include AVC still pictures
    pub fn avc_still_present(&self) -> (r: bool)
        ensures
            r == (self@[3] >= 128),
    {
        proof {
            use_type_invariant(self);
        }
        self.buf[3] >= 128
    }

    /// Stream may contain AVC 24-hour pictures
    pub fn avc_24_hour_picture_flag(&self) -> (r: bool)
        ensures
            r == ((self@[3] / 64) % 2 == 1),
    {
        proof {
            use_type_invariant(self);
        }
        (self.buf[3] / 64) % 2 == 1
    }

    /// If false, _frame packing arrangement_ or _stereo video information_ SEI message should be
    /// present
    pub fn frame_packing_sei_not_present_flag(&self) -> (r: bool)
        ensures
            r == ((self@[3] / 32) % 2 == 1),
    {
        proof {
            use_type_invariant(self);
        }
        (self.buf[3] / 32) % 2 == 1
    }
}

} // verus!
