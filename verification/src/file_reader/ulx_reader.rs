//! The reader of game images.
//!
//! An image starts with a header of nine big-endian 32-bit fields, the first
//! of which is the identifier `Glul`. Images that come out of a compiler carry
//! a second record behind the header, announced by the identifier `Info`,
//! which tells debugging tools how the image was made. The strings of an image
//! follow its string-decoding table, one entry after the other.

use super::blorb_chunk_types::{BlorbChunkType, TAG_ULX};
use super::{
    be_bytes, be_bytes_of, be_u16_at, be_u32_at, clamp_usize, has_tag_at, read_be_u16_at,
    read_be_u32_at, tag_at, viewed, FileReadError,
};
use crate::text::{decimal, decimal_text};
use vstd::string::StringExecFns;
use crate::strings::{
    c_string_len, c_string_length, decoded_text, string_type_of, ParsingErrors, StringTypes,
};
use vstd::prelude::*;
use vstd::slice::slice_subrange;

verus! {

/// The number of bytes in the header of an image.
pub const HEADER_LEN: usize = 36;

/// Where the debugging header of an image ends.
pub const DEBUGGING_HEADER_END: usize = 60;

/// `"Info"`: announces the debugging header.
pub const TAG_INFO: u32 = 0x496E_666F;

/// The header of an image.
#[derive(Debug, Clone, Copy, PartialEq, Eq, Hash, Structural)]
pub struct UlxHeader {
    pub magic: u32,
    pub version: u32,
    pub ram_start: u32,
    pub ext_start: u32,
    pub end_mem: u32,
    pub stack_size: u32,
    pub start_func: u32,
    pub decoding_table: u32,
    pub checksum: u32,
}

/// The record that a compiler leaves behind the header of an image.
#[derive(Debug, Clone, Copy, PartialEq, Eq, Hash)]
pub struct DebuggingHeader {
    /// The version of the memory layout.
    pub memory_layout: u32,
    /// The version of the compiler, four characters.
    pub compiler_version: u32,
    /// The version of the code generator, four characters.
    pub generator_version: u32,
    /// The release number of the game.
    pub release: u16,
    /// The serial number of the game.
    pub serial: [u8; 6],
}

/// An image as a mathematical value.
pub struct UlxView {
    /// The bytes of the image.
    pub bytes: Seq<u8>,
    pub header: UlxHeader,
    pub debugging_header: Option<DebuggingHeader>,
}

/// One entry of the string table of an image.
#[derive(Debug, PartialEq, Eq)]
pub struct ParsedString {
    pub string_type: StringTypes,
    /// Where the entry starts in the image, at its type byte.
    pub start_address: usize,
    /// The decoded text.
    pub data: String,
}

/// A string-table entry as a mathematical value.
pub struct ParsedStringView {
    pub string_type: StringTypes,
    pub start_address: nat,
    pub text: Seq<char>,
}

impl View for ParsedString {
    type V = ParsedStringView;

    open spec fn view(&self) -> ParsedStringView {
        ParsedStringView {
            string_type: self.string_type,
            start_address: self.start_address as nat,
            text: self.data@,
        }
    }
}

/// The characters that the four bytes of `value` spell: those in front of the
/// first zero byte, and none where the bytes are not text.
pub open spec fn identifier_text(value: u32) -> Seq<char> {
    decoded_text(StringTypes::CStyle, be_bytes_of(value))
}

/// A version number as its three parts: sixteen bits, eight bits and eight
/// bits, in decimal with dots between them.
pub open spec fn version_text(version: u32) -> Seq<char> {
    decimal((version / 0x1_0000) as nat) + "."@ + decimal((version / 0x100 % 0x100) as nat) + "."@
        + decimal((version % 0x100) as nat)
}

/// The fields of a header, one on each line.
pub open spec fn header_text(header: UlxHeader) -> Seq<char> {
    "Magic: "@ + identifier_text(header.magic) + "\nVersion: "@ + version_text(header.version)
        + "\nRAM start: "@ + decimal(header.ram_start as nat) + "\nExtent start: "@ + decimal(
        header.ext_start as nat,
    ) + "\nEnd of memory: "@ + decimal(header.end_mem as nat) + "\nStack size: "@ + decimal(
        header.stack_size as nat,
    ) + "\nStart function: "@ + decimal(header.start_func as nat) + "\nDecoding table: "@
        + decimal(header.decoding_table as nat) + "\nChecksum: "@ + decimal(
        header.checksum as nat,
    )
}

/// The fields of a debugging header, one on each line, or a sentence that says
/// that there is none.
pub open spec fn debugging_header_text(header: Option<DebuggingHeader>) -> Seq<char> {
    match header {
        Some(header) => "Memory layout: "@ + decimal(header.memory_layout as nat)
            + "\nCompiler version: "@ + identifier_text(header.compiler_version)
            + "\nGenerator version: "@ + identifier_text(header.generator_version)
            + "\nRelease: "@ + decimal(header.release as nat) + "\nSerial: "@ + decoded_text(
            StringTypes::CStyle,
            header.serial@,
        ),
        None => "This image has no debugging header"@,
    }
}

/// Writes the characters that the four bytes of `value` spell.
pub fn identifier_to_text(value: u32) -> (text: String)
    ensures
        text@ == identifier_text(value),
{
    let bytes = be_bytes(value);
    StringTypes::CStyle.parse(bytes.as_slice())
}

/// Writes a version number as its three parts.
pub fn version_to_text(version: u32) -> (text: String)
    ensures
        text@ == version_text(version),
{
    let mut text = decimal_text((version / 0x1_0000) as usize);
    text.append(".");
    text.append(decimal_text((version / 0x100 % 0x100) as usize).as_str());
    text.append(".");
    text.append(decimal_text((version % 0x100) as usize).as_str());
    text
}

impl UlxHeader {
    /// Writes the fields of the header, one on each line.
    pub fn text(&self) -> (text: String)
        ensures
            text@ == header_text(*self),
    {
        let mut text = String::from_str("Magic: ");
        text.append(identifier_to_text(self.magic).as_str());
        text.append("\nVersion: ");
        text.append(version_to_text(self.version).as_str());
        text.append("\nRAM start: ");
        text.append(decimal_text(self.ram_start as usize).as_str());
        text.append("\nExtent start: ");
        text.append(decimal_text(self.ext_start as usize).as_str());
        text.append("\nEnd of memory: ");
        text.append(decimal_text(self.end_mem as usize).as_str());
        text.append("\nStack size: ");
        text.append(decimal_text(self.stack_size as usize).as_str());
        text.append("\nStart function: ");
        text.append(decimal_text(self.start_func as usize).as_str());
        text.append("\nDecoding table: ");
        text.append(decimal_text(self.decoding_table as usize).as_str());
        text.append("\nChecksum: ");
        text.append(decimal_text(self.checksum as usize).as_str());
        text
    }
}

impl DebuggingHeader {
    /// Writes the fields of the debugging header, one on each line.
    pub fn text(&self) -> (text: String)
        ensures
            text@ == debugging_header_text(Some(*self)),
    {
        let mut text = String::from_str("Memory layout: ");
        text.append(decimal_text(self.memory_layout as usize).as_str());
        text.append("\nCompiler version: ");
        text.append(identifier_to_text(self.compiler_version).as_str());
        text.append("\nGenerator version: ");
        text.append(identifier_to_text(self.generator_version).as_str());
        text.append("\nRelease: ");
        text.append(decimal_text(self.release as usize).as_str());
        text.append("\nSerial: ");
        text.append(StringTypes::CStyle.parse(self.serial.as_slice()).as_str());
        text
    }
}

/// Writes the fields of a debugging header, or that there is none.
pub fn debugging_header_to_text(header: Option<DebuggingHeader>) -> (text: String)
    ensures
        text@ == debugging_header_text(header),
{
    match header {
        Some(header) => header.text(),
        None => String::from_str("This image has no debugging header"),
    }
}

/// The header that the first 36 bytes of `bytes` spell.
pub open spec fn header_of(bytes: Seq<u8>) -> UlxHeader {
    UlxHeader {
        magic: be_u32_at(bytes, 0),
        version: be_u32_at(bytes, 4),
        ram_start: be_u32_at(bytes, 8),
        ext_start: be_u32_at(bytes, 12),
        end_mem: be_u32_at(bytes, 16),
        stack_size: be_u32_at(bytes, 20),
        start_func: be_u32_at(bytes, 24),
        decoding_table: be_u32_at(bytes, 28),
        checksum: be_u32_at(bytes, 32),
    }
}

/// The debugging header of `bytes`: the 24 bytes behind the header, where
/// they are there and start with the identifier `Info`.
pub open spec fn debugging_header_of(bytes: Seq<u8>) -> Option<DebuggingHeader> {
    if bytes.len() >= DEBUGGING_HEADER_END && has_tag_at(bytes, HEADER_LEN as int, TAG_INFO) {
        Some(
            DebuggingHeader {
                memory_layout: be_u32_at(bytes, 40),
                compiler_version: be_u32_at(bytes, 44),
                generator_version: be_u32_at(bytes, 48),
                release: be_u16_at(bytes, 52),
                serial: [bytes[54], bytes[55], bytes[56], bytes[57], bytes[58], bytes[59]],
            },
        )
    } else {
        None
    }
}

/// The image that `bytes` hold.
///
/// The buffer has to start with the identifier of an image, which is
/// otherwise reported as expected, and to hold a whole header; a length error
/// carries the length of `bytes` and that of a header.
pub open spec fn parse_ulx(bytes: Seq<u8>) -> Result<UlxView, FileReadError> {
    if !has_tag_at(bytes, 0, TAG_ULX) {
        Err(FileReadError::UnexpectedStartingIdentifier(BlorbChunkType::UlxMagic))
    } else if bytes.len() < HEADER_LEN {
        Err(FileReadError::InvalidLength(clamp_usize(bytes.len() as int), HEADER_LEN))
    } else {
        Ok(
            UlxView {
                bytes,
                header: header_of(bytes),
                debugging_header: debugging_header_of(bytes),
            },
        )
    }
}

/// Where the string-table entries of an image start: behind the
/// string-decoding table, whose first field is its length in bytes. Where
/// that field does not lie within the image there are no entries, which is
/// expressed by the end of the image.
pub open spec fn strings_start(bytes: Seq<u8>, header: UlxHeader) -> int {
    let table = header.decoding_table as int;
    if table + 4 <= bytes.len() {
        table + be_u32_at(bytes, table)
    } else {
        bytes.len() as int
    }
}

/// The string-table entries that follow one another in `bytes` from `at` on.
///
/// An entry is a type byte and a payload that reaches up to the next zero
/// byte, which ends it. The entries end at the end of `bytes`, or at the first
/// byte that is no type byte.
pub open spec fn strings_from(bytes: Seq<u8>, at: int) -> Seq<ParsedStringView>
    decreases bytes.len() + 1 - at,
{
    if at < 0 || at >= bytes.len() {
        Seq::empty()
    } else {
        match string_type_of(bytes[at]) {
            Err(_) => Seq::empty(),
            Ok(kind) => {
                let payload = bytes.skip(at + 1);
                let entry = ParsedStringView {
                    string_type: kind,
                    start_address: at as nat,
                    text: decoded_text(kind, payload),
                };
                proof {
                    crate::strings::lemma_c_string_len(payload);
                }
                seq![entry] + strings_from(bytes, at + 1 + c_string_len(payload) + 1)
            },
        }
    }
}

/// The string-table entries of an image.
pub open spec fn strings_of(image: UlxView) -> Seq<ParsedStringView> {
    strings_from(image.bytes, strings_start(image.bytes, image.header))
}

/// The views of `strings`, one by one.
pub open spec fn views_of(strings: Seq<ParsedString>) -> Seq<ParsedStringView> {
    strings.map_values(|s: ParsedString| s@)
}

/// A parsed game image. It borrows the buffer it was parsed from, and copying
/// it copies the borrow.
#[derive(Debug, Clone, Copy)]
pub struct UlxReader<'a> {
    data: &'a [u8],
    header: UlxHeader,
    debugging_header: Option<DebuggingHeader>,
}

impl<'a> View for UlxReader<'a> {
    type V = UlxView;

    closed spec fn view(&self) -> UlxView {
        UlxView {
            bytes: self.data@,
            header: self.header,
            debugging_header: self.debugging_header,
        }
    }
}

impl<'a> UlxReader<'a> {
    /// A reader is what parsing its bytes gives.
    #[verifier::type_invariant]
    pub open spec fn wf(&self) -> bool {
        parse_ulx(self@.bytes) == Ok::<_, FileReadError>(self@)
    }

    /// Parses `data` as a game image.
    pub fn parse(data: &'a [u8]) -> (r: Result<UlxReader<'a>, FileReadError>)
        ensures
            viewed(r) == parse_ulx(data@),
    {
        let len = data.len();
        if !tag_at(data, 0, TAG_ULX) {
            return Err(FileReadError::UnexpectedStartingIdentifier(BlorbChunkType::UlxMagic));
        }
        if len < HEADER_LEN {
            return Err(FileReadError::InvalidLength(len, HEADER_LEN));
        }
        let header = UlxHeader {
            magic: read_be_u32_at(data, 0),
            version: read_be_u32_at(data, 4),
            ram_start: read_be_u32_at(data, 8),
            ext_start: read_be_u32_at(data, 12),
            end_mem: read_be_u32_at(data, 16),
            stack_size: read_be_u32_at(data, 20),
            start_func: read_be_u32_at(data, 24),
            decoding_table: read_be_u32_at(data, 28),
            checksum: read_be_u32_at(data, 32),
        };
        let debugging_header = if len >= DEBUGGING_HEADER_END && tag_at(data, HEADER_LEN, TAG_INFO) {
            Some(
                DebuggingHeader {
                    memory_layout: read_be_u32_at(data, 40),
                    compiler_version: read_be_u32_at(data, 44),
                    generator_version: read_be_u32_at(data, 48),
                    release: read_be_u16_at(data, 52),
                    serial: [data[54], data[55], data[56], data[57], data[58], data[59]],
                },
            )
        } else {
            None
        };
        Ok(UlxReader { data, header, debugging_header })
    }

    /// The buffer that the image was parsed from.
    pub fn data(&self) -> (data: &'a [u8])
        ensures
            data@ == self@.bytes,
    {
        self.data
    }

    /// The header of the image.
    pub fn header(&self) -> (header: UlxHeader)
        ensures
            header == self@.header,
            header == header_of(self@.bytes),
            header.magic == TAG_ULX,
    {
        proof {
            use_type_invariant(self);
        }
        self.header
    }

    /// The debugging header of the image, if it has one.
    pub fn debugging_header(&self) -> (debugging_header: Option<DebuggingHeader>)
        ensures
            debugging_header == self@.debugging_header,
            debugging_header == debugging_header_of(self@.bytes),
    {
        proof {
            use_type_invariant(self);
        }
        self.debugging_header
    }

    /// The string-table entries of the image, in the order in which they lie
    /// in it.
    pub fn parse_strings(&self) -> (strings: Vec<ParsedString>)
        ensures
            views_of(strings@) == strings_of(self@),
    {
        let data = self.data;
        let len = data.len();
        let mut strings: Vec<ParsedString> = Vec::new();
        let table = self.header.decoding_table as usize;
        if table > len || len - table < 4 {
            return strings;
        }
        let table_len = read_be_u32_at(data, table) as usize;
        if table_len > len - table {
            return strings;
        }
        let mut at: usize = table + table_len;
        while at < len
            invariant
                len == data@.len(),
                at <= len,
                views_of(strings@) + strings_from(data@, at as int) == strings_of(self@),
            decreases len - at,
        {
            let kind = match StringTypes::try_from(data[at]) {
                Ok(kind) => kind,
                Err(_) => {
                    return strings;
                },
            };
            let payload = slice_subrange(data, at + 1, len);
            let n = c_string_length(payload);
            let text = kind.parse(payload);
            let entry = ParsedString { string_type: kind, start_address: at, data: text };
            let ghost before = views_of(strings@);
            let ghost next = at + 1 + n + 1;
            strings.push(entry);
            proof {
                assert(before + (seq![entry@] + strings_from(data@, next)) =~= (before
                    + seq![entry@]) + strings_from(data@, next));
            }
            if n >= len - at - 1 {
                at = len;
            } else {
                at = at + n + 2;
            }
        }
        strings
    }
}

/// Parsing is a function of the bytes: two readers of the same bytes are the
/// same image, with the same headers and the same strings.
pub proof fn lemma_readers_agree(first: UlxReader<'_>, second: UlxReader<'_>)
    requires
        first.wf(),
        second.wf(),
        first@.bytes == second@.bytes,
    ensures
        first@ == second@,
        strings_of(first@) == strings_of(second@),
{
}

/// The string-table entries lie one behind the other within the image, each
/// at a type byte of its encoding.
pub proof fn lemma_strings_in_order(bytes: Seq<u8>, at: int)
    requires
        0 <= at,
    ensures
        forall|i: int|
            0 <= i < strings_from(bytes, at).len() ==> {
                let entry = #[trigger] strings_from(bytes, at)[i];
                &&& at <= entry.start_address < bytes.len()
                &&& string_type_of(bytes[entry.start_address as int]) == Ok::<_, ParsingErrors>(
                    entry.string_type,
                )
            },
        forall|i: int, j: int|
            0 <= i < j < strings_from(bytes, at).len() ==> (#[trigger] strings_from(
                bytes,
                at,
            )[i]).start_address < (#[trigger] strings_from(bytes, at)[j]).start_address,
    decreases bytes.len() + 1 - at,
{
    if at < bytes.len() {
        if let Ok(kind) = string_type_of(bytes[at]) {
            let payload = bytes.skip(at + 1);
            let next = at + 1 + c_string_len(payload) + 1;
            crate::strings::lemma_c_string_len(payload);
            lemma_strings_in_order(bytes, next);
            let all = strings_from(bytes, at);
            let rest = strings_from(bytes, next);
            assert forall|i: int| 0 < i < all.len() implies all[i] == rest[i - 1] by {}
        }
    }
}

/// The header of an image that parses starts with the identifier of an
/// image.
pub proof fn lemma_parsed_magic(bytes: Seq<u8>)
    ensures
        parse_ulx(bytes) matches Ok(image) ==> image.header.magic == TAG_ULX && image.bytes == bytes,
{
}

} // verus!
