//! Types related to the _Program Association Table_
use crate::packet;
use vstd::prelude::*;

verus! {

/// An error encountered while parsing a PAT entry.
#[derive(Debug, PartialEq, Eq, Structural, Clone, Copy)]
pub enum PatError {
    /// A PAT entry requires 4 bytes but fewer were available.
    NotEnoughData {
        /// The number of bytes that were actually available.
        actual: usize,
    },
}

/// The value of the PID of TS Packets containing Program Association Table sections.
pub const PAT_PID: u16 = 0;

/// Identifiers related to a specific program within the Transport Stream
#[derive(Clone, Copy, Debug)]
pub enum ProgramDescriptor {
    /// this PAT section entry describes where the Network Information Table will be found
    Network {
        /// The PID of NIT section packets
        pid: packet::Pid,
    },
    /// this PAT section entry gives the PID and Program Number of a program within this
    /// Transport Stream
    Program {
        /// The program number might represent the 'channel' of the program
        program_number: u16,
        /// The PID where PMT sections for this program can be found
        pid: packet::Pid,
    },
}

/// The 16-bit `program_number` of a 4-byte PAT entry.
pub open spec fn spec_pat_program_number(s: Seq<u8>) -> int {
    s[0] * 256 + s[1]
}

/// The 13-bit PID of a 4-byte PAT entry.
pub open spec fn spec_pat_pid(s: Seq<u8>) -> int {
    (s[2] % 32) * 256 + s[3]
}

/// `true` when `d` is the entry held in the 4 bytes `s`: a `Network` entry when the program
/// number is zero, a `Program` entry otherwise.
pub open spec fn spec_program_descriptor_matches(d: ProgramDescriptor, s: Seq<u8>) -> bool {
    match d {
        ProgramDescriptor::Network { pid } => spec_pat_program_number(s) == 0 && pid@
            == spec_pat_pid(s),
        ProgramDescriptor::Program { program_number, pid } => spec_pat_program_number(s) != 0
            && program_number == spec_pat_program_number(s) && pid@ == spec_pat_pid(s),
    }
}

/// The PID named by a PAT entry.
pub open spec fn spec_program_descriptor_pid(d: ProgramDescriptor) -> packet::Pid {
    match d {
        ProgramDescriptor::Network { pid } => pid,
        ProgramDescriptor::Program { pid, .. } => pid,
    }
}

impl ProgramDescriptor {
    /// Parse a PAT entry from the first 4 bytes of the given slice.
    pub fn from_bytes(data: &[u8]) -> (r: ProgramDescriptor)
        requires
            data@.len() >= 4,
        ensures
            spec_program_descriptor_matches(r, data@.subrange(0, 4)),
    {
        let program_number = data[0] as u16 * 256 + data[1] as u16;
        let pid = packet::Pid::new((data[2] % 32) as u16 * 256 + data[3] as u16);
        if program_number == 0 {
            ProgramDescriptor::Network { pid }
        } else {
            ProgramDescriptor::Program { program_number, pid }
        }
    }

    /// produces the Pid of either the NIT or PMT, depending on which type of
    /// `ProgramDescriptor` this is
    pub fn pid(&self) -> (r: packet::Pid)
        ensures
            r == spec_program_descriptor_pid(*self),
    {
        match *self {
            ProgramDescriptor::Network { pid } => pid,
            ProgramDescriptor::Program { pid, .. } => pid,
        }
    }
}

/// `true` when `r` is what `PatSection::programs()` produces for the section data `s`: one
/// entry for each whole 4 bytes, then a `NotEnoughData` error when bytes are left over.
pub open spec fn spec_pat_programs_ok(r: Seq<Result<ProgramDescriptor, PatError>>, s: Seq<u8>) -> bool {
    let n = (s.len() / 4) as int;
    &&& r.len() == n + if s.len() % 4 != 0 { 1int } else { 0int }
    &&& forall|i: int|
        0 <= i < n ==> (#[trigger] r[i] matches Ok(d) && spec_program_descriptor_matches(
            d,
            s.subrange(4 * i, 4 * i + 4),
        ))
    &&& s.len() % 4 != 0 ==> r[n] == Err::<ProgramDescriptor, PatError>(
        PatError::NotEnoughData { actual: (s.len() % 4) as usize },
    )
}

/// Sections of the _Program Association Table_ give details of the programs within a
/// transport stream.  There may be only one program, or in the case of a broadcast multiplex,
/// there may be many.
#[derive(Clone, Copy, Debug)]
pub struct PatSection<'buf> {
    data: &'buf [u8],
}

impl<'buf> View for PatSection<'buf> {
    type V = Seq<u8>;

    closed spec fn view(&self) -> Seq<u8> {
        self.data@
    }
}

impl<'buf> PatSection<'buf> {
    /// Create a `PatSection`, wrapping the given slice, whose methods can parse the section's
    /// fields
    pub fn new(data: &'buf [u8]) -> (r: PatSection<'buf>)
        ensures
            r@ == data@,
    {
        PatSection { data }
    }

    /// Returns the entries in this program association table section, in order.
    pub fn programs(&self) -> (r: Vec<Result<ProgramDescriptor, PatError>>)
        ensures
            spec_pat_programs_ok(r@, self@),
    {
        let mut out: Vec<Result<ProgramDescriptor, PatError>> = Vec::new();
        let len = self.data.len();
        let mut off: usize = 0;
        while len - off >= 4
            invariant
                len == self@.len(),
                off % 4 == 0,
                off <= len,
                out@.len() == off / 4,
                forall|i: int|
                    0 <= i < out@.len() ==> (#[trigger] out@[i] matches Ok(d)
                        && spec_program_descriptor_matches(d, self@.subrange(4 * i, 4 * i + 4))),
            decreases len - off,
        {
            let d = ProgramDescriptor::from_bytes(&self.data[off..off + 4]);
            proof {
                assert(self@.subrange(off as int, off + 4).subrange(0, 4) =~= self@.subrange(
                    4 * (off / 4) as int,
                    4 * (off / 4) as int + 4,
                ));
            }
            out.push(Ok(d));
            off = off + 4;
        }
        if off < len {
            out.push(Err(PatError::NotEnoughData { actual: len - off }));
        }
        out
    }
}

} // verus!
