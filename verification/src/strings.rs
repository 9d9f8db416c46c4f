//! Decoding of the entries of a game image's string table.

use vstd::prelude::*;
use vstd::slice::{slice_subrange, slice_to_vec};
use vstd::std_specs::convert::TryFromSpecImpl;
use vstd::utf8::{decode_utf8, valid_utf8};

verus! {

/// The encodings a string-table entry can declare in its leading type byte.
#[derive(Copy, Clone, Debug, PartialEq, Eq, Hash, Structural)]
pub enum StringTypes {
    CStyle,
    Compressed,
    CStyleUnicode,
}

/// Why a type byte could not be read as a [`StringTypes`].
#[derive(Copy, Clone, Debug, PartialEq, Eq, Hash, Structural)]
pub enum ParsingErrors {
    UnknownValue,
}

/// The type byte that announces each encoding.
pub open spec fn type_byte(kind: StringTypes) -> u8 {
    match kind {
        StringTypes::CStyle => 0xE0,
        StringTypes::Compressed => 0xE1,
        StringTypes::CStyleUnicode => 0xE2,
    }
}

/// The encoding that a type byte announces, if it announces one.
pub open spec fn string_type_of(value: u8) -> Result<StringTypes, ParsingErrors> {
    if value == 0xE0 {
        Ok(StringTypes::CStyle)
    } else if value == 0xE1 {
        Ok(StringTypes::Compressed)
    } else if value == 0xE2 {
        Ok(StringTypes::CStyleUnicode)
    } else {
        Err(ParsingErrors::UnknownValue)
    }
}

impl TryFrom<u8> for StringTypes {
    type Error = ParsingErrors;

    fn try_from(value: u8) -> (r: Result<Self, Self::Error>) {
        match value {
            0xE0 => Ok(StringTypes::CStyle),
            0xE1 => Ok(StringTypes::Compressed),
            0xE2 => Ok(StringTypes::CStyleUnicode),
            _ => Err(ParsingErrors::UnknownValue),
        }
    }
}

impl TryFromSpecImpl<u8> for StringTypes {
    open spec fn obeys_try_from_spec() -> bool {
        true
    }

    open spec fn try_from_spec(value: u8) -> Result<Self, Self::Error> {
        string_type_of(value)
    }
}

/// The error of `String::from_utf8`. It is passed on as it comes; nothing is
/// claimed of what it holds.
#[verifier::external_type_specification]
#[verifier::external_body]
pub struct ExFromUtf8Error(std::string::FromUtf8Error);

/// `String::from_utf8` checks that the bytes are UTF-8 and, if they are, makes
/// them a `String`: it succeeds exactly on well-formed UTF-8, and the
/// characters of the string are then those that the bytes encode.
pub assume_specification[ String::from_utf8 ](vec: Vec<u8>) -> (r: Result<
    String,
    std::string::FromUtf8Error,
>)
    ensures
        r is Ok <==> valid_utf8(vec@),
        r matches Ok(text) ==> text@ == decode_utf8(vec@),
;

/// The number of bytes of `data` in front of its first zero byte: all of
/// them where it holds no zero byte.
pub open spec fn c_string_len(data: Seq<u8>) -> nat
    decreases data.len(),
{
    if data.len() == 0 || data[0] == 0 {
        0
    } else {
        1 + c_string_len(data.drop_first())
    }
}

/// The text of a string-table entry of encoding `kind` with the payload
/// `data`.
///
/// A C-style payload ends in front of its first zero byte and is UTF-8; where
/// it is not well-formed UTF-8 the text is empty. The other two encodings are
/// not decoded: their text is empty.
pub open spec fn decoded_text(kind: StringTypes, data: Seq<u8>) -> Seq<char> {
    match kind {
        StringTypes::CStyle => {
            let bytes = data.take(c_string_len(data) as int);
            if valid_utf8(bytes) {
                decode_utf8(bytes)
            } else {
                Seq::empty()
            }
        },
        StringTypes::Compressed => Seq::empty(),
        StringTypes::CStyleUnicode => Seq::empty(),
    }
}

/// The number of bytes of `data` in front of its first zero byte.
pub fn c_string_length(data: &[u8]) -> (n: usize)
    ensures
        n == c_string_len(data@),
        n <= data.len(),
{
    let mut n: usize = 0;
    while n < data.len() && data[n] != 0
        invariant
            n <= data.len(),
            forall|i: int| 0 <= i < n ==> data@[i] != 0,
        decreases data.len() - n,
    {
        n += 1;
    }
    proof {
        lemma_c_string_len_unique(data@, n as int);
    }
    n
}

impl StringTypes {
    /// The type byte that announces this encoding.
    pub fn type_byte(&self) -> (byte: u8)
        ensures
            byte == type_byte(*self),
    {
        match self {
            StringTypes::CStyle => 0xE0,
            StringTypes::Compressed => 0xE1,
            StringTypes::CStyleUnicode => 0xE2,
        }
    }

    /// Decodes the payload `data` of a string-table entry of this encoding.
    pub fn parse(&self, data: &[u8]) -> (text: String)
        ensures
            text@ == decoded_text(*self, data@),
    {
        match self {
            StringTypes::CStyle => {
                let n = c_string_length(data);
                let bytes = slice_to_vec(slice_subrange(data, 0, n));
                match String::from_utf8(bytes) {
                    Ok(text) => text,
                    Err(_) => String::new(),
                }
            },
            StringTypes::Compressed => String::new(),
            StringTypes::CStyleUnicode => String::new(),
        }
    }
}

/// `c_string_len` is the place of the first zero byte: no byte in front of it
/// is zero, and the byte at it is, where there is one.
pub proof fn lemma_c_string_len(data: Seq<u8>)
    ensures
        c_string_len(data) <= data.len(),
        forall|i: int| 0 <= i < c_string_len(data) ==> data[i] != 0,
        c_string_len(data) < data.len() ==> data[c_string_len(data) as int] == 0,
    decreases data.len(),
{
    if data.len() != 0 && data[0] != 0 {
        let rest = data.drop_first();
        lemma_c_string_len(rest);
        assert forall|i: int| 0 <= i < c_string_len(data) implies data[i] != 0 by {
            if i > 0 {
                assert(data[i] == rest[i - 1]);
            }
        }
    }
}

/// Only one place is that of the first zero byte.
pub proof fn lemma_c_string_len_unique(data: Seq<u8>, n: int)
    requires
        0 <= n <= data.len(),
        forall|i: int| 0 <= i < n ==> data[i] != 0,
        n < data.len() ==> data[n] == 0,
    ensures
        c_string_len(data) == n,
    decreases data.len(),
{
    if n > 0 {
        let rest = data.drop_first();
        lemma_c_string_len_unique(rest, n - 1);
    }
}

/// The type byte of an encoding announces that encoding, and no other byte
/// does.
pub proof fn lemma_type_byte_round_trip(kind: StringTypes, value: u8)
    ensures
        string_type_of(type_byte(kind)) == Ok::<_, ParsingErrors>(kind),
        string_type_of(value) == Ok::<_, ParsingErrors>(kind) <==> value == type_byte(kind),
{
}

/// What follows the first zero byte of a C-style payload does not change its
/// text: the text is that of the bytes in front of the zero byte.
pub proof fn lemma_text_ignores_tail(text: Seq<u8>, tail: Seq<u8>)
    requires
        forall|i: int| 0 <= i < text.len() ==> text[i] != 0,
    ensures
        decoded_text(StringTypes::CStyle, text + seq![0u8] + tail) == decoded_text(
            StringTypes::CStyle,
            text,
        ),
{
    let data = text + seq![0u8] + tail;
    let n = text.len() as int;
    lemma_c_string_len_unique(data, n);
    lemma_c_string_len_unique(text, n);
    assert(data.take(n) =~= text.take(n));
}

} // verus!
