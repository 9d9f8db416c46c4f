//! Readers for the two supported game file formats, and what they share:
//! the error type and the reading of big-endian integers.

use vstd::prelude::*;

pub mod blorb_chunk_types;
pub mod blorb_reader;
pub mod ulx_reader;

use crate::text::{decimal, decimal_text};
use blorb_chunk_types::{name_of, BlorbChunkType, TAG_FORM, TAG_ULX};
use blorb_reader::{executable_at, parse_blorb, BlorbReader, BlorbView};
use ulx_reader::{parse_ulx, UlxReader, UlxView};
use vstd::std_specs::convert::TryFromSpecImpl;
use vstd::string::StringExecFns;

verus! {

/// Why a buffer, or a part of one, could not be read.
#[derive(Debug, Eq, PartialEq, Copy, Clone, Hash, Structural)]
pub enum FileReadError {
    /// The identifier at the start of a structure is not the expected one,
    /// which is carried.
    UnexpectedStartingIdentifier(BlorbChunkType),
    /// A length does not fit what was supplied. Actual and expected.
    InvalidLength(usize, usize),
    /// Nothing is known under the identifier, which is carried.
    UnknownIdentifier(usize),
    /// Bytes could not be read as the value asked for.
    InvalidConversion,
    /// The buffer is in none of the supported formats.
    UnknownFileType,
    /// What was asked for is well formed, but not handled.
    UnsupportedOperation,
}

/// The message that describes `error`.
pub open spec fn message_of(error: FileReadError) -> Seq<char> {
    match error {
        FileReadError::UnexpectedStartingIdentifier(expected) => {
            "Unexpected starting identifier. Expected "@ + name_of(expected)
        },
        FileReadError::InvalidLength(actual, expected) => {
            "An invalid length was supplied. Actual length: "@ + decimal(actual as nat)
                + ", expected length: "@ + decimal(expected as nat)
        },
        FileReadError::UnknownIdentifier(id) => {
            "An unknown identifier was supplied: "@ + decimal(id as nat)
        },
        FileReadError::InvalidConversion => "An invalid conversion was attempted"@,
        FileReadError::UnknownFileType => {
            "A file was supplied but did not fit a known file type"@
        },
        FileReadError::UnsupportedOperation => "An unsupported chunk type tried to be read"@,
    }
}

impl FileReadError {
    /// Describes the error in a sentence.
    pub fn message(&self) -> (text: String)
        ensures
            text@ == message_of(*self),
    {
        match self {
            FileReadError::UnexpectedStartingIdentifier(expected) => {
                let mut text = String::from_str("Unexpected starting identifier. Expected ");
                text.append(expected.name());
                text
            },
            FileReadError::InvalidLength(actual, expected) => {
                let mut text = String::from_str("An invalid length was supplied. Actual length: ");
                text.append(decimal_text(*actual).as_str());
                text.append(", expected length: ");
                text.append(decimal_text(*expected).as_str());
                text
            },
            FileReadError::UnknownIdentifier(id) => {
                let mut text = String::from_str("An unknown identifier was supplied: ");
                text.append(decimal_text(*id).as_str());
                text
            },
            FileReadError::InvalidConversion => {
                String::from_str("An invalid conversion was attempted")
            },
            FileReadError::UnknownFileType => {
                String::from_str("A file was supplied but did not fit a known file type")
            },
            FileReadError::UnsupportedOperation => {
                String::from_str("An unsupported chunk type tried to be read")
            },
        }
    }
}

/// A game file, read as the one of the two formats that it is in.
#[derive(Debug)]
pub enum GameType<'a> {
    /// A standalone game image.
    Ulx(UlxReader<'a>),
    /// A resource container.
    Blorb(BlorbReader<'a>),
}

/// A game file as a mathematical value.
pub enum GameView {
    Ulx(UlxView),
    Blorb(BlorbView),
}

impl<'a> View for GameType<'a> {
    type V = GameView;

    open spec fn view(&self) -> GameView {
        match self {
            GameType::Ulx(image) => GameView::Ulx(image@),
            GameType::Blorb(container) => GameView::Blorb(container@),
        }
    }
}

/// The game file that `bytes` hold: an image if they parse as one, else a
/// container if they parse as one. Why they parse as neither is not kept.
pub open spec fn classify(bytes: Seq<u8>) -> Result<GameView, FileReadError> {
    match parse_ulx(bytes) {
        Ok(image) => Ok(GameView::Ulx(image)),
        Err(_) => match parse_blorb(bytes) {
            Ok(container) => Ok(GameView::Blorb(container)),
            Err(_) => Err(FileReadError::UnknownFileType),
        },
    }
}

/// The image to play of a game file: the file itself if it is an image, and
/// the first executable resource if it is a container.
pub open spec fn primary_image(game: GameView) -> Result<UlxView, FileReadError> {
    match game {
        GameView::Ulx(image) => Ok(image),
        GameView::Blorb(container) => executable_at(container, 0),
    }
}

impl<'a> TryFrom<&'a [u8]> for GameType<'a> {
    type Error = FileReadError;

    /// Reads `value` as an image and, failing that, as a container.
    fn try_from(value: &'a [u8]) -> (r: Result<Self, Self::Error>)
        ensures
            viewed(r) == classify(value@),
            !has_tag_at(value@, 0, TAG_ULX) && !has_tag_at(value@, 0, TAG_FORM) ==> r matches Err(
                FileReadError::UnknownFileType,
            ),
    {
        if let Ok(ulx) = UlxReader::parse(value) {
            Ok(GameType::Ulx(ulx))
        } else if let Ok(blorb) = BlorbReader::parse(value) {
            Ok(GameType::Blorb(blorb))
        } else {
            Err(FileReadError::UnknownFileType)
        }
    }
}

impl<'a> TryFromSpecImpl<&'a [u8]> for GameType<'a> {
    /// What the conversion returns is stated over views, by `classify`.
    open spec fn obeys_try_from_spec() -> bool {
        false
    }

    open spec fn try_from_spec(value: &'a [u8]) -> Result<Self, Self::Error> {
        arbitrary()
    }
}

impl<'a> GameType<'a> {
    /// The image to play: the file itself if it is an image, and the first
    /// executable resource if it is a container.
    pub fn get_exec(&self) -> (r: Result<UlxReader<'a>, FileReadError>)
        ensures
            viewed(r) == primary_image(self@),
            self matches GameType::Ulx(image) ==> r matches Ok(reader) && reader == image,
    {
        match self {
            GameType::Ulx(ulx) => Ok(*ulx),
            GameType::Blorb(blorb) => blorb.get_exec(0),
        }
    }
}

/// No buffer is both an image and a container.
pub proof fn lemma_formats_exclude(bytes: Seq<u8>)
    ensures
        !(parse_ulx(bytes) is Ok && parse_blorb(bytes) is Ok),
{
}

/// A buffer that starts with neither the identifier of an image nor that of
/// a form is of unknown type.
pub proof fn lemma_unknown_start(bytes: Seq<u8>)
    requires
        !has_tag_at(bytes, 0, TAG_ULX),
        !has_tag_at(bytes, 0, TAG_FORM),
    ensures
        classify(bytes) == Err::<GameView, _>(FileReadError::UnknownFileType),
{
}

/// The outcome `r` with what was read replaced by its view.
pub open spec fn viewed<T: View>(r: Result<T, FileReadError>) -> Result<T::V, FileReadError> {
    match r {
        Ok(value) => Ok(value@),
        Err(e) => Err(e),
    }
}

/// The value of the four bytes `bytes[at..at + 4]`, most significant byte
/// first.
pub open spec fn be_u32_at(bytes: Seq<u8>, at: int) -> u32
    recommends
        0 <= at,
        at + 4 <= bytes.len(),
{
    ((bytes[at] as int) * 0x100_0000 + (bytes[at + 1] as int) * 0x1_0000 + (bytes[at + 2] as int)
        * 0x100 + (bytes[at + 3] as int)) as u32
}

/// The value of the two bytes `bytes[at..at + 2]`, most significant byte
/// first.
pub open spec fn be_u16_at(bytes: Seq<u8>, at: int) -> u16
    recommends
        0 <= at,
        at + 2 <= bytes.len(),
{
    ((bytes[at] as int) * 0x100 + (bytes[at + 1] as int)) as u16
}

/// The four bytes that spell `value`, most significant byte first.
pub open spec fn be_bytes_of(value: u32) -> Seq<u8> {
    seq![
        (value / 0x100_0000) as u8,
        (value / 0x1_0000 % 0x100) as u8,
        (value / 0x100 % 0x100) as u8,
        (value % 0x100) as u8,
    ]
}

/// The signed number that the 32 bits of `value` stand for in two's
/// complement.
pub open spec fn as_signed(value: u32) -> i32 {
    if value >= 0x8000_0000 {
        (value - 0x1_0000_0000) as i32
    } else {
        value as i32
    }
}

/// The unsigned number with the same 32 bits as `value` in two's complement.
pub open spec fn as_unsigned(value: i32) -> u32 {
    if value < 0 {
        (value + 0x1_0000_0000) as u32
    } else {
        value as u32
    }
}

/// `n` where a `usize` can hold it, else the nearest `usize`.
pub open spec fn clamp_usize(n: int) -> usize {
    if n < 0 {
        0
    } else if n <= usize::MAX {
        n as usize
    } else {
        usize::MAX
    }
}

/// Whether `tag` appears at `bytes[at..at + 4]`. It does not where fewer than
/// four bytes are left.
pub open spec fn has_tag_at(bytes: Seq<u8>, at: int, tag: u32) -> bool {
    0 <= at && at + 4 <= bytes.len() && be_u32_at(bytes, at) == tag
}

/// Reads the first four bytes of `input` as a big-endian unsigned integer.
pub fn read_be_u32(input: &[u8]) -> (value: u32)
    requires
        input@.len() >= 4,
    ensures
        value == be_u32_at(input@, 0),
{
    read_be_u32_at(input, 0)
}

/// Reads `data[at..at + 4]` as a big-endian unsigned integer.
pub fn read_be_u32_at(data: &[u8], at: usize) -> (value: u32)
    requires
        at + 4 <= data@.len(),
    ensures
        value == be_u32_at(data@, at as int),
{
    let b0: u32 = data[at] as u32;
    let b1: u32 = data[at + 1] as u32;
    let b2: u32 = data[at + 2] as u32;
    let b3: u32 = data[at + 3] as u32;
    b0 * 0x100_0000 + b1 * 0x1_0000 + b2 * 0x100 + b3
}

/// Reads `data[at..at + 2]` as a big-endian unsigned integer.
pub fn read_be_u16_at(data: &[u8], at: usize) -> (value: u16)
    requires
        at + 2 <= data@.len(),
    ensures
        value == be_u16_at(data@, at as int),
{
    let b0: u16 = data[at] as u16;
    let b1: u16 = data[at + 1] as u16;
    b0 * 0x100 + b1
}

/// Spells `value` as four bytes, most significant byte first.
pub fn be_bytes(value: u32) -> (bytes: [u8; 4])
    ensures
        bytes@ == be_bytes_of(value),
        be_u32_at(bytes@, 0) == value,
{
    [
        (value / 0x100_0000) as u8,
        (value / 0x1_0000 % 0x100) as u8,
        (value / 0x100 % 0x100) as u8,
        (value % 0x100) as u8,
    ]
}

/// Reinterprets 32 bits as a signed number.
pub fn to_signed(value: u32) -> (signed: i32)
    ensures
        signed == as_signed(value),
        as_unsigned(signed) == value,
{
    if value >= 0x8000_0000 {
        let low: i32 = (value - 0x8000_0000) as i32;
        low + i32::MIN
    } else {
        value as i32
    }
}

/// Reinterprets 32 bits as an unsigned number.
pub fn to_unsigned(value: i32) -> (unsigned: u32)
    ensures
        unsigned == as_unsigned(value),
        as_signed(unsigned) == value,
{
    if value < 0 {
        let low: u32 = (value - i32::MIN) as u32;
        low + 0x8000_0000
    } else {
        value as u32
    }
}

/// Whether `tag` appears at `data[at..at + 4]`.
pub fn tag_at(data: &[u8], at: usize, tag: u32) -> (found: bool)
    ensures
        found == has_tag_at(data@, at as int, tag),
{
    if at > data.len() || data.len() - at < 4 {
        false
    } else {
        read_be_u32_at(data, at) == tag
    }
}

/// `a + b + c`, or `usize::MAX` where the sum is larger.
pub fn clamped_sum(a: usize, b: usize, c: usize) -> (sum: usize)
    ensures
        sum == clamp_usize(a + b + c),
{
    a.saturating_add(b).saturating_add(c)
}

} // verus!
