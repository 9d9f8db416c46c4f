//! The registry of four-byte identifiers that the readers recognise.
//!
//! An identifier is held as the `u32` that its four bytes spell when read most
//! significant byte first, so `"FORM"` is `0x464F524D`.

use vstd::prelude::*;

verus! {

/// `"FORM"`: opens an IFF container.
pub const TAG_FORM: u32 = 0x464F_524D;

/// `"IFRS"`: the form type of a resource container.
pub const TAG_IFRS: u32 = 0x4946_5253;

/// `"RIdx"`: the resource index chunk.
pub const TAG_RIDX: u32 = 0x5249_6478;

/// `"IFhd"`: the game identifier chunk.
pub const TAG_IFHD: u32 = 0x4946_6864;

/// `"Pict"`: the picture usage.
pub const TAG_PICT: u32 = 0x5069_6374;

/// `"Snd "`: the sound usage.
pub const TAG_SND: u32 = 0x536E_6420;

/// `"MOD "`: a sound in MOD format.
pub const TAG_MOD: u32 = 0x4D4F_4420;

/// `"SONG"`: a sound in song format.
pub const TAG_SONG: u32 = 0x534F_4E47;

/// `"Exec"`: the executable usage.
pub const TAG_EXEC: u32 = 0x4578_6563;

/// `"PNG "`: a PNG picture.
pub const TAG_PNG: u32 = 0x504E_4720;

/// `"JPEG"`: a JPEG picture.
pub const TAG_JPEG: u32 = 0x4A50_4547;

/// `"AIFF"`: an AIFF sound.
pub const TAG_AIFF: u32 = 0x4149_4646;

/// `"OGGV"`: an Ogg Vorbis sound.
pub const TAG_OGGV: u32 = 0x4F47_4756;

/// `"GLUL"`: a Glulx game image held in a container.
pub const TAG_GLUL: u32 = 0x474C_554C;

/// `"ZCOD"`: a Z-code game image held in a container.
pub const TAG_ZCOD: u32 = 0x5A43_4F44;

/// `"TEXT"`: a text chunk.
pub const TAG_TEXT: u32 = 0x5445_5854;

/// `"Glul"`: the first four bytes of a standalone Glulx game image.
pub const TAG_ULX: u32 = 0x476C_756C;

/// The identifiers the readers recognise, one variant per identifier.
#[derive(Debug, Clone, Copy, PartialEq, Eq, Hash, Structural)]
pub enum BlorbChunkType {
    Form,
    Ifrs,
    ResourceIndex,
    GameIdentifier,
    Picture,
    Sound,
    SoundMod,
    SoundSong,
    Executable,
    Png,
    Jpeg,
    Aiff,
    OggVorbis,
    Glulx,
    ZCode,
    Text,
    UlxMagic,
}

/// What the payload of a chunk holds.
#[derive(Debug, Clone, Copy, PartialEq, Eq, Hash, Structural)]
pub enum ChunkKind {
    Picture,
    Sound,
    Executable,
    Text,
    Unknown,
}

/// What a resource is used for, as the resource index records it.
#[derive(Debug, Clone, Copy, PartialEq, Eq, Hash, Structural)]
pub enum Usage {
    Picture,
    Sound,
    SoundMod,
    SoundSong,
    Executable,
}

/// The identifier that stands for `chunk_type`.
pub open spec fn tag_of(chunk_type: BlorbChunkType) -> u32 {
    match chunk_type {
        BlorbChunkType::Form => TAG_FORM,
        BlorbChunkType::Ifrs => TAG_IFRS,
        BlorbChunkType::ResourceIndex => TAG_RIDX,
        BlorbChunkType::GameIdentifier => TAG_IFHD,
        BlorbChunkType::Picture => TAG_PICT,
        BlorbChunkType::Sound => TAG_SND,
        BlorbChunkType::SoundMod => TAG_MOD,
        BlorbChunkType::SoundSong => TAG_SONG,
        BlorbChunkType::Executable => TAG_EXEC,
        BlorbChunkType::Png => TAG_PNG,
        BlorbChunkType::Jpeg => TAG_JPEG,
        BlorbChunkType::Aiff => TAG_AIFF,
        BlorbChunkType::OggVorbis => TAG_OGGV,
        BlorbChunkType::Glulx => TAG_GLUL,
        BlorbChunkType::ZCode => TAG_ZCOD,
        BlorbChunkType::Text => TAG_TEXT,
        BlorbChunkType::UlxMagic => TAG_ULX,
    }
}

/// The registered meaning of `tag`, if it has one.
pub open spec fn chunk_type_of(tag: u32) -> Option<BlorbChunkType> {
    if tag == TAG_FORM {
        Some(BlorbChunkType::Form)
    } else if tag == TAG_IFRS {
        Some(BlorbChunkType::Ifrs)
    } else if tag == TAG_RIDX {
        Some(BlorbChunkType::ResourceIndex)
    } else if tag == TAG_IFHD {
        Some(BlorbChunkType::GameIdentifier)
    } else if tag == TAG_PICT {
        Some(BlorbChunkType::Picture)
    } else if tag == TAG_SND {
        Some(BlorbChunkType::Sound)
    } else if tag == TAG_MOD {
        Some(BlorbChunkType::SoundMod)
    } else if tag == TAG_SONG {
        Some(BlorbChunkType::SoundSong)
    } else if tag == TAG_EXEC {
        Some(BlorbChunkType::Executable)
    } else if tag == TAG_PNG {
        Some(BlorbChunkType::Png)
    } else if tag == TAG_JPEG {
        Some(BlorbChunkType::Jpeg)
    } else if tag == TAG_AIFF {
        Some(BlorbChunkType::Aiff)
    } else if tag == TAG_OGGV {
        Some(BlorbChunkType::OggVorbis)
    } else if tag == TAG_GLUL {
        Some(BlorbChunkType::Glulx)
    } else if tag == TAG_ZCOD {
        Some(BlorbChunkType::ZCode)
    } else if tag == TAG_TEXT {
        Some(BlorbChunkType::Text)
    } else if tag == TAG_ULX {
        Some(BlorbChunkType::UlxMagic)
    } else {
        None
    }
}

/// The name of `chunk_type`, as it is written in messages.
pub open spec fn name_of(chunk_type: BlorbChunkType) -> Seq<char> {
    match chunk_type {
        BlorbChunkType::Form => "Form"@,
        BlorbChunkType::Ifrs => "Ifrs"@,
        BlorbChunkType::ResourceIndex => "ResourceIndex"@,
        BlorbChunkType::GameIdentifier => "GameIdentifier"@,
        BlorbChunkType::Picture => "Picture"@,
        BlorbChunkType::Sound => "Sound"@,
        BlorbChunkType::SoundMod => "SoundMod"@,
        BlorbChunkType::SoundSong => "SoundSong"@,
        BlorbChunkType::Executable => "Executable"@,
        BlorbChunkType::Png => "Png"@,
        BlorbChunkType::Jpeg => "Jpeg"@,
        BlorbChunkType::Aiff => "Aiff"@,
        BlorbChunkType::OggVorbis => "OggVorbis"@,
        BlorbChunkType::Glulx => "Glulx"@,
        BlorbChunkType::ZCode => "ZCode"@,
        BlorbChunkType::Text => "Text"@,
        BlorbChunkType::UlxMagic => "UlxMagic"@,
    }
}

/// What a chunk identified by `chunk_type` holds. The identifiers that only
/// structure a file hold nothing this library interprets.
pub open spec fn kind_of(chunk_type: BlorbChunkType) -> ChunkKind {
    match chunk_type {
        BlorbChunkType::Picture | BlorbChunkType::Png | BlorbChunkType::Jpeg => ChunkKind::Picture,
        BlorbChunkType::Sound
        | BlorbChunkType::SoundMod
        | BlorbChunkType::SoundSong
        | BlorbChunkType::Aiff
        | BlorbChunkType::OggVorbis => ChunkKind::Sound,
        BlorbChunkType::Executable | BlorbChunkType::Glulx | BlorbChunkType::ZCode => {
            ChunkKind::Executable
        },
        BlorbChunkType::Text => ChunkKind::Text,
        BlorbChunkType::Form
        | BlorbChunkType::Ifrs
        | BlorbChunkType::ResourceIndex
        | BlorbChunkType::GameIdentifier
        | BlorbChunkType::UlxMagic => ChunkKind::Unknown,
    }
}

/// What a chunk whose header carries `tag` holds; an identifier outside the
/// registry is of unknown kind.
pub open spec fn kind_of_tag(tag: u32) -> ChunkKind {
    match chunk_type_of(tag) {
        Some(chunk_type) => kind_of(chunk_type),
        None => ChunkKind::Unknown,
    }
}

/// The registered identifiers of each kind, in registry order.
pub open spec fn tags_of_kind(kind: ChunkKind) -> Seq<u32> {
    match kind {
        ChunkKind::Picture => seq![TAG_PICT, TAG_PNG, TAG_JPEG],
        ChunkKind::Sound => seq![TAG_SND, TAG_MOD, TAG_SONG, TAG_AIFF, TAG_OGGV],
        ChunkKind::Executable => seq![TAG_EXEC, TAG_GLUL, TAG_ZCOD],
        ChunkKind::Text => seq![TAG_TEXT],
        ChunkKind::Unknown => seq![TAG_FORM, TAG_IFRS, TAG_RIDX, TAG_IFHD, TAG_ULX],
    }
}

/// The usage that `tag` names in a resource index entry, if it names one.
pub open spec fn usage_of_tag(tag: u32) -> Option<Usage> {
    if tag == TAG_PICT {
        Some(Usage::Picture)
    } else if tag == TAG_SND {
        Some(Usage::Sound)
    } else if tag == TAG_MOD {
        Some(Usage::SoundMod)
    } else if tag == TAG_SONG {
        Some(Usage::SoundSong)
    } else if tag == TAG_EXEC {
        Some(Usage::Executable)
    } else {
        None
    }
}

/// The registry entry of a usage.
pub open spec fn usage_chunk_type(usage: Usage) -> BlorbChunkType {
    match usage {
        Usage::Picture => BlorbChunkType::Picture,
        Usage::Sound => BlorbChunkType::Sound,
        Usage::SoundMod => BlorbChunkType::SoundMod,
        Usage::SoundSong => BlorbChunkType::SoundSong,
        Usage::Executable => BlorbChunkType::Executable,
    }
}

/// The category of a usage: what the chunks of its resources hold.
pub open spec fn usage_kind(usage: Usage) -> ChunkKind {
    kind_of(usage_chunk_type(usage))
}

impl BlorbChunkType {
    /// The identifier that stands for this entry of the registry.
    pub fn tag(self) -> (tag: u32)
        ensures
            tag == tag_of(self),
    {
        match self {
            BlorbChunkType::Form => TAG_FORM,
            BlorbChunkType::Ifrs => TAG_IFRS,
            BlorbChunkType::ResourceIndex => TAG_RIDX,
            BlorbChunkType::GameIdentifier => TAG_IFHD,
            BlorbChunkType::Picture => TAG_PICT,
            BlorbChunkType::Sound => TAG_SND,
            BlorbChunkType::SoundMod => TAG_MOD,
            BlorbChunkType::SoundSong => TAG_SONG,
            BlorbChunkType::Executable => TAG_EXEC,
            BlorbChunkType::Png => TAG_PNG,
            BlorbChunkType::Jpeg => TAG_JPEG,
            BlorbChunkType::Aiff => TAG_AIFF,
            BlorbChunkType::OggVorbis => TAG_OGGV,
            BlorbChunkType::Glulx => TAG_GLUL,
            BlorbChunkType::ZCode => TAG_ZCOD,
            BlorbChunkType::Text => TAG_TEXT,
            BlorbChunkType::UlxMagic => TAG_ULX,
        }
    }

    /// The name of this entry of the registry, as it is written in messages.
    pub fn name(self) -> (name: &'static str)
        ensures
            name@ == name_of(self),
    {
        match self {
            BlorbChunkType::Form => "Form",
            BlorbChunkType::Ifrs => "Ifrs",
            BlorbChunkType::ResourceIndex => "ResourceIndex",
            BlorbChunkType::GameIdentifier => "GameIdentifier",
            BlorbChunkType::Picture => "Picture",
            BlorbChunkType::Sound => "Sound",
            BlorbChunkType::SoundMod => "SoundMod",
            BlorbChunkType::SoundSong => "SoundSong",
            BlorbChunkType::Executable => "Executable",
            BlorbChunkType::Png => "Png",
            BlorbChunkType::Jpeg => "Jpeg",
            BlorbChunkType::Aiff => "Aiff",
            BlorbChunkType::OggVorbis => "OggVorbis",
            BlorbChunkType::Glulx => "Glulx",
            BlorbChunkType::ZCode => "ZCode",
            BlorbChunkType::Text => "Text",
            BlorbChunkType::UlxMagic => "UlxMagic",
        }
    }

    /// Looks `tag` up in the registry.
    pub fn from_tag(tag: u32) -> (found: Option<BlorbChunkType>)
        ensures
            found == chunk_type_of(tag),
    {
        if tag == TAG_FORM {
            Some(BlorbChunkType::Form)
        } else if tag == TAG_IFRS {
            Some(BlorbChunkType::Ifrs)
        } else if tag == TAG_RIDX {
            Some(BlorbChunkType::ResourceIndex)
        } else if tag == TAG_IFHD {
            Some(BlorbChunkType::GameIdentifier)
        } else if tag == TAG_PICT {
            Some(BlorbChunkType::Picture)
        } else if tag == TAG_SND {
            Some(BlorbChunkType::Sound)
        } else if tag == TAG_MOD {
            Some(BlorbChunkType::SoundMod)
        } else if tag == TAG_SONG {
            Some(BlorbChunkType::SoundSong)
        } else if tag == TAG_EXEC {
            Some(BlorbChunkType::Executable)
        } else if tag == TAG_PNG {
            Some(BlorbChunkType::Png)
        } else if tag == TAG_JPEG {
            Some(BlorbChunkType::Jpeg)
        } else if tag == TAG_AIFF {
            Some(BlorbChunkType::Aiff)
        } else if tag == TAG_OGGV {
            Some(BlorbChunkType::OggVorbis)
        } else if tag == TAG_GLUL {
            Some(BlorbChunkType::Glulx)
        } else if tag == TAG_ZCOD {
            Some(BlorbChunkType::ZCode)
        } else if tag == TAG_TEXT {
            Some(BlorbChunkType::Text)
        } else if tag == TAG_ULX {
            Some(BlorbChunkType::UlxMagic)
        } else {
            None
        }
    }

    /// What a chunk with this identifier holds.
    pub fn kind(self) -> (kind: ChunkKind)
        ensures
            kind == kind_of(self),
    {
        match self {
            BlorbChunkType::Picture | BlorbChunkType::Png | BlorbChunkType::Jpeg => {
                ChunkKind::Picture
            },
            BlorbChunkType::Sound
            | BlorbChunkType::SoundMod
            | BlorbChunkType::SoundSong
            | BlorbChunkType::Aiff
            | BlorbChunkType::OggVorbis => ChunkKind::Sound,
            BlorbChunkType::Executable | BlorbChunkType::Glulx | BlorbChunkType::ZCode => {
                ChunkKind::Executable
            },
            BlorbChunkType::Text => ChunkKind::Text,
            BlorbChunkType::Form
            | BlorbChunkType::Ifrs
            | BlorbChunkType::ResourceIndex
            | BlorbChunkType::GameIdentifier
            | BlorbChunkType::UlxMagic => ChunkKind::Unknown,
        }
    }
}

impl Usage {
    /// Reads the usage field of a resource index entry.
    pub fn from_tag(tag: u32) -> (found: Option<Usage>)
        ensures
            found == usage_of_tag(tag),
    {
        if tag == TAG_PICT {
            Some(Usage::Picture)
        } else if tag == TAG_SND {
            Some(Usage::Sound)
        } else if tag == TAG_MOD {
            Some(Usage::SoundMod)
        } else if tag == TAG_SONG {
            Some(Usage::SoundSong)
        } else if tag == TAG_EXEC {
            Some(Usage::Executable)
        } else {
            None
        }
    }

    /// The registry entry of this usage.
    pub fn chunk_type(self) -> (chunk_type: BlorbChunkType)
        ensures
            chunk_type == usage_chunk_type(self),
    {
        match self {
            Usage::Picture => BlorbChunkType::Picture,
            Usage::Sound => BlorbChunkType::Sound,
            Usage::SoundMod => BlorbChunkType::SoundMod,
            Usage::SoundSong => BlorbChunkType::SoundSong,
            Usage::Executable => BlorbChunkType::Executable,
        }
    }

    /// The category of this usage.
    pub fn kind(self) -> (kind: ChunkKind)
        ensures
            kind == usage_kind(self),
    {
        match self {
            Usage::Picture => ChunkKind::Picture,
            Usage::Sound | Usage::SoundMod | Usage::SoundSong => ChunkKind::Sound,
            Usage::Executable => ChunkKind::Executable,
        }
    }
}

/// What a chunk whose header carries `tag` holds. Every identifier has a kind:
/// one outside the registry is `Unknown`.
pub fn tag_to_kind(tag: u32) -> (kind: ChunkKind)
    ensures
        kind == kind_of_tag(tag),
{
    match BlorbChunkType::from_tag(tag) {
        Some(chunk_type) => chunk_type.kind(),
        None => ChunkKind::Unknown,
    }
}

/// The registered identifiers of `kind`.
pub fn kind_to_tags(kind: ChunkKind) -> (tags: Vec<u32>)
    ensures
        tags@ == tags_of_kind(kind),
{
    let mut tags: Vec<u32> = Vec::new();
    match kind {
        ChunkKind::Picture => {
            tags.push(TAG_PICT);
            tags.push(TAG_PNG);
            tags.push(TAG_JPEG);
        },
        ChunkKind::Sound => {
            tags.push(TAG_SND);
            tags.push(TAG_MOD);
            tags.push(TAG_SONG);
            tags.push(TAG_AIFF);
            tags.push(TAG_OGGV);
        },
        ChunkKind::Executable => {
            tags.push(TAG_EXEC);
            tags.push(TAG_GLUL);
            tags.push(TAG_ZCOD);
        },
        ChunkKind::Text => {
            tags.push(TAG_TEXT);
        },
        ChunkKind::Unknown => {
            tags.push(TAG_FORM);
            tags.push(TAG_IFRS);
            tags.push(TAG_RIDX);
            tags.push(TAG_IFHD);
            tags.push(TAG_ULX);
        },
    }
    tags
}

/// The registry maps each entry to its identifier and back: looking up the
/// identifier of an entry finds that entry, and an identifier that is found
/// is the identifier of the entry found.
pub proof fn lemma_registry_is_bidirectional(chunk_type: BlorbChunkType, tag: u32)
    ensures
        chunk_type_of(tag_of(chunk_type)) == Some(chunk_type),
        chunk_type_of(tag) == Some(chunk_type) <==> tag == tag_of(chunk_type),
{
}

/// `tags_of_kind` lists, without repetition, exactly the registered
/// identifiers whose kind is `kind`.
pub proof fn lemma_tags_of_kind_exact(kind: ChunkKind, tag: u32)
    ensures
        tags_of_kind(kind).contains(tag) <==> (chunk_type_of(tag) is Some && kind_of_tag(tag)
            == kind),
        tags_of_kind(kind).no_duplicates(),
{
    let tags = tags_of_kind(kind);
    if chunk_type_of(tag) is Some && kind_of_tag(tag) == kind {
        let position: int = match chunk_type_of(tag).unwrap() {
            BlorbChunkType::Picture
            | BlorbChunkType::Sound
            | BlorbChunkType::Executable
            | BlorbChunkType::Text
            | BlorbChunkType::Form => 0,
            BlorbChunkType::Png
            | BlorbChunkType::SoundMod
            | BlorbChunkType::Glulx
            | BlorbChunkType::Ifrs => 1,
            BlorbChunkType::Jpeg
            | BlorbChunkType::SoundSong
            | BlorbChunkType::ZCode
            | BlorbChunkType::ResourceIndex => 2,
            BlorbChunkType::Aiff | BlorbChunkType::GameIdentifier => 3,
            BlorbChunkType::OggVorbis | BlorbChunkType::UlxMagic => 4,
        };
        assert(tags[position] == tag);
    }
}

/// A usage is named in the index by the identifier of its registry entry.
pub proof fn lemma_usage_tags(usage: Usage, tag: u32)
    ensures
        usage_of_tag(tag) == Some(usage) <==> tag == tag_of(usage_chunk_type(usage)),
        usage_kind(usage) != ChunkKind::Unknown,
{
}

} // verus!
