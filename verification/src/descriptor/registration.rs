//! Registration descriptor indicates which kind of syntax any 'private data' within the
//! transport stream will be following
use super::descriptor_len;
use super::DescriptorError;
use smptera_format_identifiers_rust::FormatIdentifier;
use vstd::prelude::*;

verus! {

/// The format identifier type of the `smptera-format-identifiers-rust` crate, whose values are
/// carried through this library without being inspected.
#[verifier::external_type_specification]
#[verifier::external_body]
pub struct ExFormatIdentifier(FormatIdentifier);

/// The `FormatIdentifier` that `FormatIdentifier::from()` produces for the given 4 bytes.
pub uninterp spec fn spec_format_identifier(bytes: Seq<u8>) -> FormatIdentifier;

/// Calls `FormatIdentifier::from(&[u8])` of `smptera-format-identifiers-rust`, which wraps the
/// first 4 bytes of the slice (and panics when there are fewer).  The contract claims that the
/// result depends on those 4 bytes alone.
#[verifier::external_body]
fn format_identifier_from_bytes(bytes: &[u8]) -> (r: FormatIdentifier)
    requires
        bytes@.len() >= 4,
    ensures
        r == spec_format_identifier(bytes@.subrange(0, 4)),
{
    FormatIdentifier::from(bytes)
}

/// Calls the derived `PartialEq::eq` of `FormatIdentifier`, which compares the 4 wrapped bytes;
/// the contract claims that it agrees with equality of the values.
#[verifier::external_body]
fn format_identifier_eq(a: &FormatIdentifier, b: &FormatIdentifier) -> (r: bool)
    ensures
        r == (*a == *b),
{
    a == b
}

/// Indicates which kind of syntax any 'private data' within the transport stream will be
/// following
#[derive(Debug)]
pub struct RegistrationDescriptor<'buf> {
    /// the registration data bytes
    buf: &'buf [u8],
}

impl<'buf> View for RegistrationDescriptor<'buf> {
    type V = Seq<u8>;

    closed spec fn view(&self) -> Seq<u8> {
        self.buf@
    }
}

impl<'buf> RegistrationDescriptor<'buf> {
    #[verifier::type_invariant]
    spec fn inv(self) -> bool {
        self.buf@.len() >= 4
    }

    /// The descriptor tag value which identifies the descriptor as a `RegistrationDescriptor`.
    pub const TAG: u8 = 5;

    /// Construct a `RegistrationDescriptor` instance that will parse the data from the given
    /// slice, which must hold at least the 4 bytes of the format identifier.
    pub fn new(tag: u8, buf: &'buf [u8]) -> (r: Result<RegistrationDescriptor<'buf>, DescriptorError>)
        ensures
            buf@.len() < 4 ==> r == Err::<RegistrationDescriptor<'buf>, DescriptorError>(
                DescriptorError::NotEnoughData { tag, actual: buf@.len() as usize, expected: 4 },
            ),
            buf@.len() >= 4 ==> (r matches Ok(d) && d@ == buf@),
    {
        descriptor_len(buf, tag, 4)?;
        Ok(RegistrationDescriptor { buf })
    }

    /// Format identifier value assigned by a _Registration Authority_: the first 4 bytes of
    /// the descriptor.
    pub fn format_identifier(&self) -> (r: FormatIdentifier)
        ensures
            r == spec_format_identifier(self@.subrange(0, 4)),
    {
        proof {
            use_type_invariant(self);
        }
        format_identifier_from_bytes(self.buf)
    }

    /// Returns true if the given identifier is equal to the value returned by
    /// `format_identifier()`
    pub fn is_format(&self, id: FormatIdentifier) -> (r: bool)
        ensures
            r == (spec_format_identifier(self@.subrange(0, 4)) == id),
    {
        let own = self.format_identifier();
        format_identifier_eq(&own, &id)
    }

    /// borrows a slice of additional_identification_info bytes, whose meaning is defined by
    /// the identifier returned by `format_identifier()`.
    pub fn additional_identification_info(&self) -> (r: &'buf [u8])
        ensures
            r@ == self@.subrange(4, self@.len() as int),
    {
        proof {
            use_type_invariant(self);
        }
        &self.buf[4..self.buf.len()]
    }
}

} // verus!
