//! Types related to the _Program Map Table_
use crate::demultiplex::DemuxError;
use crate::descriptor;
use crate::packet;
use crate::StreamType;
use vstd::prelude::*;

verus! {

/// The 12-bit `program_info_length` field of a PMT section.
pub open spec fn spec_program_info_length(s: Seq<u8>) -> int {
    (s[2] % 16) * 256 + s[3]
}

/// The 12-bit `ES_info_length` field of a PMT stream entry.
pub open spec fn spec_es_info_length(s: Seq<u8>) -> int {
    (s[3] % 16) * 256 + s[4]
}

/// `true` when the bytes start with a whole PMT stream entry: the 5 fixed bytes followed by
/// `ES_info_length` bytes of descriptors.
pub open spec fn spec_stream_info_ok(s: Seq<u8>) -> bool {
    s.len() >= 5 && 5 + spec_es_info_length(s) <= s.len()
}

/// The data of each stream entry in the stream loop `s` of a PMT section, in order: each entry
/// starts where the last one ended, and the list ends at the end of the data or at the first
/// entry that does not fit.
pub open spec fn spec_stream_infos(s: Seq<u8>) -> Seq<Seq<u8>>
    decreases s.len(),
{
    if !spec_stream_info_ok(s) {
        Seq::empty()
    } else {
        seq![s] + spec_stream_infos(s.subrange(5 + spec_es_info_length(s), s.len() as int))
    }
}

/// Sections of the _Program Map Table_ give details of the streams within a particular
/// program
#[derive(Debug)]
pub struct PmtSection<'buf> {
    data: &'buf [u8],
}

impl<'buf> View for PmtSection<'buf> {
    type V = Seq<u8>;

    closed spec fn view(&self) -> Seq<u8> {
        self.data@
    }
}

impl<'buf> PmtSection<'buf> {
    #[verifier::type_invariant]
    spec fn inv(self) -> bool {
        self.data@.len() >= 4
    }

    const HEADER_SIZE: usize = 4;

    /// Create a `PmtSection`, wrapping the given slice, whose methods can parse the section's
    /// fields; an error if the slice is too short to hold the 4 bytes of fixed fields.
    pub fn from_bytes(data: &'buf [u8]) -> (r: Result<PmtSection<'buf>, DemuxError>)
        ensures
            data@.len() < 4 ==> (r matches Err(DemuxError::NotEnoughData { expected, actual, .. })
                && expected == 4 && actual == data@.len()),
            data@.len() >= 4 ==> (r matches Ok(s) && s@ == data@),
    {
        if data.len() < Self::HEADER_SIZE {
            Err(
                DemuxError::NotEnoughData {
                    field: "program_map_section",
                    expected: Self::HEADER_SIZE,
                    actual: data.len(),
                },
            )
        } else {
            Ok(PmtSection { data })
        }
    }

    /// Returns the Pid of packets that will contain the Program Clock Reference for this
    /// program
    pub fn pcr_pid(&self) -> (r: packet::Pid)
        ensures
            r@ == (self@[0] % 32) * 256 + self@[1],
    {
        proof {
            use_type_invariant(self);
        }
        packet::Pid::new((self.data[0] % 32) as u16 * 256 + self.data[1] as u16)
    }

    fn program_info_length(&self) -> (r: usize)
        ensures
            r == spec_program_info_length(self@),
    {
        proof {
            use_type_invariant(self);
        }
        (self.data[2] % 16) as usize * 256 + self.data[3] as usize
    }

    /// Returns an iterator over the descriptors attached to this PMT section: the
    /// `program_info_length` bytes after the fixed fields, or nothing when that length runs
    /// past the end of the section.
    pub fn descriptors<Desc: descriptor::Descriptor<'buf>>(&self) -> (r: descriptor::DescriptorIter<'buf, Desc>)
        ensures
            4 + spec_program_info_length(self@) <= self@.len() ==> r@ == self@.subrange(
                4,
                4 + spec_program_info_length(self@),
            ),
            4 + spec_program_info_length(self@) > self@.len() ==> r@.len() == 0,
    {
        proof {
            use_type_invariant(self);
        }
        let descriptor_end = Self::HEADER_SIZE + self.program_info_length();
        if descriptor_end > self.data.len() {
            descriptor::DescriptorIter::new(&self.data[0..0])
        } else {
            descriptor::DescriptorIter::new(&self.data[Self::HEADER_SIZE..descriptor_end])
        }
    }

    /// Returns the streams of which this program is composed, in order: the entries of the
    /// stream loop following the program descriptors (none when the descriptors run past the
    /// end of the section).
    pub fn streams(&self) -> (r: Vec<StreamInfo<'buf>>)
        ensures
            ({
                let end = 4 + spec_program_info_length(self@);
                let expected = if end > self@.len() {
                    Seq::<Seq<u8>>::empty()
                } else {
                    spec_stream_infos(self@.subrange(end, self@.len() as int))
                };
                &&& r@.len() == expected.len()
                &&& forall|i: int| 0 <= i < r@.len() ==> (#[trigger] r@[i])@ == expected[i]
            }),
    {
        proof {
            use_type_invariant(self);
        }
        let descriptor_end = Self::HEADER_SIZE + self.program_info_length();
        let mut out: Vec<StreamInfo<'buf>> = Vec::new();
        if descriptor_end > self.data.len() {
            return out;
        }
        let mut rest = &self.data[descriptor_end..self.data.len()];
        let ghost all = rest@;
        loop
            invariant
                spec_stream_infos(all) =~= out@.map_values(|si: StreamInfo<'buf>| si@)
                    + spec_stream_infos(rest@),
            ensures
                spec_stream_infos(all) =~= out@.map_values(|si: StreamInfo<'buf>| si@)
                    + spec_stream_infos(rest@),
                !spec_stream_info_ok(rest@),
            decreases rest@.len(),
        {
            if rest.len() == 0 {
                break ;
            }
            match StreamInfo::from_bytes(rest) {
                Some((stream_info, info_len)) => {
                    let ghost old_rest = rest@;
                    out.push(stream_info);
                    rest = &rest[info_len..rest.len()];
                    proof {
                        assert(spec_stream_infos(old_rest) == seq![old_rest] + spec_stream_infos(
                            rest@,
                        ));
                    }
                },
                None => {
                    break ;
                },
            }
        }
        proof {
            assert(spec_stream_infos(rest@) =~= Seq::<Seq<u8>>::empty());
            assert forall|i: int| 0 <= i < out@.len() implies (#[trigger] out@[i])@ == spec_stream_infos(all)[i] by {
                assert(out@.map_values(|si: StreamInfo<'buf>| si@)[i] == out@[i]@);
            }
        }
        out
    }
}

/// Details of a particular elementary stream within a program.
///
///  - `stream_type` gives an indication of the kind of content carried within the stream
///  - The `elementary_pid` property allows us to find Transport Stream packets that belong to
///    the elementary stream
///  - `descriptors` _may_ provide extra metadata describing some of the stream's properties
#[derive(Debug)]
pub struct StreamInfo<'buf> {
    data: &'buf [u8],
}

impl<'buf> View for StreamInfo<'buf> {
    type V = Seq<u8>;

    closed spec fn view(&self) -> Seq<u8> {
        self.data@
    }
}

impl<'buf> StreamInfo<'buf> {
    #[verifier::type_invariant]
    spec fn inv(self) -> bool {
        spec_stream_info_ok(self.data@)
    }

    const HEADER_SIZE: usize = 5;

    fn from_bytes(data: &'buf [u8]) -> (r: Option<(StreamInfo<'buf>, usize)>)
        ensures
            r is Some <==> spec_stream_info_ok(data@),
            r matches Some((si, len)) ==> si@ == data@ && len == 5 + spec_es_info_length(data@),
    {
        if data.len() < Self::HEADER_SIZE {
            return None;
        }
        let es_info_length = (data[3] % 16) as usize * 256 + data[4] as usize;
        let descriptor_end = Self::HEADER_SIZE + es_info_length;
        if descriptor_end > data.len() {
            return None;
        }
        Some((StreamInfo { data }, descriptor_end))
    }

    /// The type of this stream
    pub fn stream_type(&self) -> (r: StreamType)
        ensures
            r.0 == self@[0],
    {
        proof {
            use_type_invariant(self);
        }
        StreamType(self.data[0])
    }

    /// The Pid that will be used for TS packets containing the data of this stream
    pub fn elementary_pid(&self) -> (r: packet::Pid)
        ensures
            r@ == (self@[1] % 32) * 256 + self@[2],
    {
        proof {
            use_type_invariant(self);
        }
        packet::Pid::new((self.data[1] % 32) as u16 * 256 + self.data[2] as u16)
    }

    fn es_info_length(&self) -> (r: usize)
        ensures
            r == spec_es_info_length(self@),
    {
        proof {
            use_type_invariant(self);
        }
        (self.data[3] % 16) as usize * 256 + self.data[4] as usize
    }

    /// Returns an iterator over the descriptors attached to this stream: the `ES_info_length`
    /// bytes following the 5 fixed bytes.
    pub fn descriptors<Desc: descriptor::Descriptor<'buf>>(&self) -> (r: descriptor::DescriptorIter<'buf, Desc>)
        ensures
            r@ == self@.subrange(5, 5 + spec_es_info_length(self@)),
    {
        proof {
            use_type_invariant(self);
        }
        let descriptor_end = Self::HEADER_SIZE + self.es_info_length();
        descriptor::DescriptorIter::new(&self.data[Self::HEADER_SIZE..descriptor_end])
    }
}

} // verus!
