//! The `ISO_639_language_descriptor()` names the language(s) of the stream it is attached to.
use super::DescriptorError;
use encoding::all::ISO_8859_1;
use encoding::types::DecoderTrap;
use encoding::Encoding;
use std::borrow::Cow;
use vstd::prelude::*;

verus! {

/// The error-handling mode type of the `encoding` crate, passed through to its decoder.
#[verifier::external_type_specification]
#[verifier::external_body]
pub struct ExDecoderTrap(DecoderTrap);

/// The characters denoted by the given ISO-8859-1 bytes: each byte is the code point of one
/// character.
pub open spec fn spec_latin1(bytes: Seq<u8>) -> Seq<char> {
    bytes.map_values(|b: u8| b as char)
}

/// Calls `ISO_8859_1.decode()` of the `encoding` crate.  That decoder maps every byte to the
/// character with the same code point and never reports an error, whatever the trap; the
/// contract claims exactly that.
#[verifier::external_body]
fn decode_iso_8859_1(bytes: &[u8], trap: DecoderTrap) -> (r: Result<String, Cow<'static, str>>)
    ensures
        r is Ok,
        r.unwrap()@ == spec_latin1(bytes@),
{
    ISO_8859_1.decode(bytes, trap)
}

/// Descriptor listing the languages of the stream, each with an 'audio type'.
#[derive(Debug)]
pub struct Iso639LanguageDescriptor<'buf> {
    /// the descriptor payload, made of 4-byte entries
    pub buf: &'buf [u8],
}

impl<'buf> Iso639LanguageDescriptor<'buf> {
    /// The descriptor tag value which identifies the descriptor as an
    /// `Iso639LanguageDescriptor`.
    pub const TAG: u8 = 10;

    /// Construct an `Iso639LanguageDescriptor` wrapping the given descriptor payload.
    pub fn new(_tag: u8, buf: &'buf [u8]) -> (r: Result<Iso639LanguageDescriptor<'buf>, DescriptorError>)
        ensures
            r matches Ok(d) && d.buf@ == buf@,
    {
        Ok(Iso639LanguageDescriptor { buf })
    }

    /// The entries of this descriptor, in order.
    pub fn languages(&self) -> (r: LanguageIterator<'buf>)
        ensures
            r@ == self.buf@,
    {
        LanguageIterator::new(self.buf)
    }
}

/// Produces the entries of an `Iso639LanguageDescriptor` one by one.
pub struct LanguageIterator<'buf> {
    remaining_data: &'buf [u8],
}

impl<'buf> View for LanguageIterator<'buf> {
    type V = Seq<u8>;

    closed spec fn view(&self) -> Seq<u8> {
        self.remaining_data@
    }
}

impl<'buf> LanguageIterator<'buf> {
    /// Iterate over the 4-byte entries in the given data.
    pub fn new(data: &'buf [u8]) -> (r: LanguageIterator<'buf>)
        ensures
            r@ == data@,
    {
        LanguageIterator { remaining_data: data }
    }

    /// The next entry: `None` once the data is exhausted, and an error (after which only
    /// `None` follows) when fewer than 4 bytes remain.
    pub fn next(&mut self) -> (r: Option<Result<Language<'buf>, DescriptorError>>)
        ensures
            old(self)@.len() == 0 ==> r is None && final(self)@ == old(self)@,
            0 < old(self)@.len() < 4 ==> r == Some(
                Err::<Language<'buf>, DescriptorError>(
                    DescriptorError::NotEnoughData {
                        tag: Iso639LanguageDescriptor::TAG,
                        actual: old(self)@.len() as usize,
                        expected: 4,
                    },
                ),
            ) && final(self)@.len() == 0,
            old(self)@.len() >= 4 ==> (r matches Some(Ok(l)) && l@ == old(self)@.subrange(0, 4))
                && final(self)@ == old(self)@.subrange(4, old(self)@.len() as int),
    {
        if self.remaining_data.len() == 0 {
            None
        } else if self.remaining_data.len() < 4 {
            let actual = self.remaining_data.len();
            self.remaining_data = &self.remaining_data[0..0];
            Some(
                Err(
                    DescriptorError::NotEnoughData {
                        tag: Iso639LanguageDescriptor::TAG,
                        actual,
                        expected: 4,
                    },
                ),
            )
        } else {
            let (head, tail) = self.remaining_data.split_at(4);
            self.remaining_data = tail;
            Some(Ok(Language::new(head)))
        }
    }
}

/// The kind of audio content that the language entry applies to.
#[derive(Debug, PartialEq, Eq, Structural, Clone, Copy)]
pub enum AudioType {
    /// no particular kind
    Undefined,
    /// no language, e.g. only sound effects
    CleanEffects,
    /// prepared for the hearing impaired
    HearingImpaired,
    /// commentary for the visually impaired
    VisualImpairedCommentary,
    /// a value reserved by the standard
    Reserved(u8),
}

/// The `AudioType` denoted by the given `audio_type` byte.
pub open spec fn spec_audio_type(v: u8) -> AudioType {
    if v == 0 {
        AudioType::Undefined
    } else if v == 1 {
        AudioType::CleanEffects
    } else if v == 2 {
        AudioType::HearingImpaired
    } else if v == 3 {
        AudioType::VisualImpairedCommentary
    } else {
        AudioType::Reserved(v)
    }
}

impl vstd::std_specs::convert::FromSpecImpl<u8> for AudioType {
    open spec fn obeys_from_spec() -> bool {
        true
    }

    open spec fn from_spec(v: u8) -> AudioType {
        spec_audio_type(v)
    }
}

impl From<u8> for AudioType {
    fn from(v: u8) -> Self {
        match v {
            0 => AudioType::Undefined,
            1 => AudioType::CleanEffects,
            2 => AudioType::HearingImpaired,
            3 => AudioType::VisualImpairedCommentary,
            _ => AudioType::Reserved(v),
        }
    }
}

/// One entry of an `Iso639LanguageDescriptor`: a 3-byte ISO 639 language code followed by an
/// `audio_type` byte.
#[derive(Debug)]
pub struct Language<'buf> {
    buf: &'buf [u8],
}

impl<'buf> View for Language<'buf> {
    type V = Seq<u8>;

    closed spec fn view(&self) -> Seq<u8> {
        self.buf@
    }
}

impl<'buf> Language<'buf> {
    #[verifier::type_invariant]
    spec fn inv(self) -> bool {
        self.buf@.len() == 4
    }

    fn new(buf: &'buf [u8]) -> (r: Language<'buf>)
        requires
            buf@.len() == 4,
        ensures
            r@ == buf@,
    {
        Language { buf }
    }

    /// The 3-letter language code, decoded from ISO-8859-1.
    pub fn code(&self, trap: DecoderTrap) -> (r: Result<String, Cow<'static, str>>)
        ensures
            r matches Ok(s) && s@ == spec_latin1(self@.subrange(0, 3)),
    {
        proof {
            use_type_invariant(self);
        }
        decode_iso_8859_1(&self.buf[0..3], trap)
    }

    /// The kind of audio that this language entry applies to.
    pub fn audio_type(&self) -> (r: AudioType)
        ensures
            r == spec_audio_type(self@[3]),
    {
        proof {
            use_type_invariant(self);
        }
        AudioType::from(self.buf[3])
    }
}

} // verus!
