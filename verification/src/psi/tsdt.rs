//! Types related to the _Transport Stream Description Table_
use crate::descriptor;
use vstd::prelude::*;

verus! {

/// The value of the PID of TS Packets containing Transport Stream Description Table sections.
pub const TSDT_PID: u16 = 0x0002;

/// Sections of the _Transport Stream Description Table_ carry descriptors applying to the
/// entire transport stream.
#[derive(Debug)]
pub struct TsdtSection<'buf> {
    data: &'buf [u8],
}

impl<'buf> View for TsdtSection<'buf> {
    type V = Seq<u8>;

    closed spec fn view(&self) -> Seq<u8> {
        self.data@
    }
}

impl<'buf> TsdtSection<'buf> {
    /// Create a `TsdtSection`, wrapping the given slice, whose methods can parse the section's
    /// fields
    pub fn new(data: &'buf [u8]) -> (r: TsdtSection<'buf>)
        ensures
            r@ == data@,
    {
        TsdtSection { data }
    }

    /// Returns an iterator over the descriptors in this TSDT section (all of the section data).
    pub fn descriptors<Desc: descriptor::Descriptor<'buf>>(&self) -> (r: descriptor::DescriptorIter<'buf, Desc>)
        ensures
            r@ == self@,
    {
        descriptor::DescriptorIter::new(self.data)
    }
}

} // verus!
