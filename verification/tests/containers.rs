use blorb_browser::file_reader::blorb_chunk_types::{
    BlorbChunkType, ChunkKind, Usage, TAG_GLUL, TAG_PNG, TAG_RIDX, TAG_ULX,
};
use blorb_browser::file_reader::blorb_reader::{
    is_printable, read_chunk, BlorbReader, Chunk, ChunkHeader, ResourceIndexEntry,
};
use blorb_browser::file_reader::{FileReadError, GameType};

fn chunk(tag: &[u8; 4], payload: &[u8]) -> Vec<u8> {
    let mut out = tag.to_vec();
    out.extend_from_slice(&(payload.len() as u32).to_be_bytes());
    out.extend_from_slice(payload);
    if payload.len() % 2 == 1 {
        out.push(0);
    }
    out
}

fn form(rest: &[u8]) -> Vec<u8> {
    let mut out = b"FORM".to_vec();
    out.extend_from_slice(&((4 + rest.len()) as u32).to_be_bytes());
    out.extend_from_slice(b"IFRS");
    out.extend_from_slice(rest);
    out
}

fn index_chunk(entries: &[(&[u8; 4], i32, u32)]) -> Vec<u8> {
    let mut payload = (entries.len() as u32).to_be_bytes().to_vec();
    for (usage, id, offset) in entries {
        payload.extend_from_slice(*usage);
        payload.extend_from_slice(&id.to_be_bytes());
        payload.extend_from_slice(&offset.to_be_bytes());
    }
    chunk(b"RIdx", &payload)
}

/// A container whose index is its first chunk and lists `resources` in
/// order, each followed by its chunk.
fn container(resources: &[(&[u8; 4], i32, Vec<u8>)]) -> Vec<u8> {
    let mut offset = 12 + 8 + 4 + 12 * resources.len();
    let mut entries = Vec::new();
    let mut body = Vec::new();
    for (usage, id, bytes) in resources {
        entries.push((*usage, *id, offset as u32));
        body.extend_from_slice(bytes);
        offset += bytes.len();
    }
    let mut rest = index_chunk(&entries);
    rest.extend_from_slice(&body);
    form(&rest)
}

fn image() -> Vec<u8> {
    let mut out = b"Glul".to_vec();
    for field in [0x0003_0102u32, 0x100, 0x200, 0x300, 0x400, 0x48, 0, 0xDEAD_BEEF] {
        out.extend_from_slice(&field.to_be_bytes());
    }
    out
}

fn sample() -> Vec<u8> {
    container(&[
        (b"Pict", 1, chunk(b"PNG ", b"first picture")),
        (b"Exec", 0, chunk(b"GLUL", &image())),
        (b"Snd ", 3, chunk(b"OGGV", b"ogg")),
        (b"Pict", 7, chunk(b"JPEG", b"second")),
        (b"MOD ", 4, chunk(b"MOD ", b"mod")),
        (b"SONG", 5, chunk(b"SONG", b"song!")),
        (b"Pict", -2, chunk(b"PNG ", b"")),
    ])
}

#[test]
fn container_with_one_executable_is_read_as_a_container() {
    let bytes = container(&[(b"Exec", 0, chunk(b"GLUL", &image()))]);
    let game = GameType::try_from(&bytes[..]).unwrap();
    let reader = match &game {
        GameType::Blorb(reader) => reader,
        GameType::Ulx(_) => panic!("read as an image"),
    };
    assert_eq!(reader.get_ids(Usage::Executable), vec![0]);
    let primary = game.get_exec().unwrap();
    assert_eq!(primary.header().magic, TAG_ULX);
    assert_eq!(primary.header().magic.to_be_bytes(), *b"Glul");
    assert_eq!(primary.header().checksum, 0xDEAD_BEEF);
    assert_eq!(primary.data(), &image()[..]);
}

#[test]
fn container_records_its_declared_length_and_bytes() {
    let bytes = sample();
    let reader = BlorbReader::parse(&bytes).unwrap();
    assert_eq!(reader.declared_len() as usize, bytes.len() - 8);
    assert_eq!(reader.data(), &bytes[..]);
}

#[test]
fn index_is_kept_in_file_order() {
    let bytes = sample();
    let reader = BlorbReader::parse(&bytes).unwrap();
    let index = reader.index();
    assert_eq!(index.len(), 7);
    let summary: Vec<(Usage, i32)> = index.iter().map(|entry| (entry.usage, entry.id)).collect();
    assert_eq!(
        summary,
        vec![
            (Usage::Picture, 1),
            (Usage::Executable, 0),
            (Usage::Sound, 3),
            (Usage::Picture, 7),
            (Usage::SoundMod, 4),
            (Usage::SoundSong, 5),
            (Usage::Picture, -2),
        ]
    );
    assert_eq!(index[0], ResourceIndexEntry { usage: Usage::Picture, id: 1, offset: 108 });
    assert_eq!(index[1].offset, 108 + 8 + 14);
}

#[test]
fn ids_of_a_usage_are_those_of_the_index_in_order() {
    let bytes = sample();
    let reader = BlorbReader::parse(&bytes).unwrap();
    assert_eq!(reader.get_ids(Usage::Picture), vec![1, 7, -2]);
    assert_eq!(reader.image_ids(), vec![1, 7, -2]);
    assert_eq!(reader.get_ids(Usage::Sound), vec![3]);
    assert_eq!(reader.get_ids(Usage::SoundMod), vec![4]);
    assert_eq!(reader.get_ids(Usage::SoundSong), vec![5]);
    assert_eq!(reader.get_ids(Usage::Executable), vec![0]);
}

#[test]
fn ids_of_all_usages_are_as_many_as_the_entries() {
    let bytes = sample();
    let reader = BlorbReader::parse(&bytes).unwrap();
    let mut total = 0;
    for usage in [
        Usage::Picture,
        Usage::Sound,
        Usage::SoundMod,
        Usage::SoundSong,
        Usage::Executable,
    ] {
        let ids = reader.get_ids(usage);
        let recorded: Vec<i32> = reader
            .index()
            .iter()
            .filter(|entry| entry.usage == usage)
            .map(|entry| entry.id)
            .collect();
        assert_eq!(ids, recorded);
        total += ids.len();
    }
    assert_eq!(total, reader.index().len());
}

#[test]
fn ids_of_an_unused_usage_are_none() {
    let bytes = container(&[(b"Pict", 1, chunk(b"PNG ", b"p"))]);
    let reader = BlorbReader::parse(&bytes).unwrap();
    assert_eq!(reader.get_ids(Usage::Sound), Vec::<i32>::new());
    assert_eq!(reader.get_ids(Usage::Executable), Vec::<i32>::new());
}

#[test]
fn empty_index_is_a_container_without_resources() {
    let bytes = container(&[]);
    assert_eq!(bytes.len(), 24);
    let reader = BlorbReader::parse(&bytes).unwrap();
    assert_eq!(reader.index().len(), 0);
    assert_eq!(reader.image_ids(), Vec::<i32>::new());
    assert_eq!(reader.get_exec(0).unwrap_err(), FileReadError::UnknownIdentifier(0));
}

#[test]
fn resource_is_resolved_to_its_chunk() {
    let bytes = sample();
    let reader = BlorbReader::parse(&bytes).unwrap();
    let picture = reader.get_resource(Usage::Picture, 7).unwrap();
    assert_eq!(picture.data, b"second");
    assert_eq!(picture.header, ChunkHeader { tag: u32::from_be_bytes(*b"JPEG"), length: 6 });
    assert_eq!(picture.kind, ChunkKind::Picture);
    assert_eq!(picture.offset, reader.index()[3].offset as usize);
    let sound = reader.get_resource(Usage::Sound, 3).unwrap();
    assert_eq!(sound.data, b"ogg");
    assert_eq!(sound.kind, ChunkKind::Sound);
    let empty = reader.get_resource(Usage::Picture, -2).unwrap();
    assert_eq!(empty.data, b"");
    assert_eq!(reader.get_image(1).unwrap().data, b"first picture");
    assert_eq!(reader.get_image(1), reader.get_resource(Usage::Picture, 1));
}

#[test]
fn every_listed_resource_resolves() {
    let bytes = sample();
    let reader = BlorbReader::parse(&bytes).unwrap();
    for entry in reader.index() {
        let found = reader.get_resource(entry.usage, entry.id).unwrap();
        assert_eq!(found.offset, entry.offset as usize);
        assert_eq!(found.kind, entry.usage.kind());
        assert_eq!(Ok(found), reader.get_chunk_at(entry.offset as usize));
    }
}

#[test]
fn unlisted_resource_is_an_unknown_identifier() {
    let bytes = sample();
    let reader = BlorbReader::parse(&bytes).unwrap();
    assert_eq!(
        reader.get_resource(Usage::Picture, 2).unwrap_err(),
        FileReadError::UnknownIdentifier(2)
    );
    assert_eq!(
        reader.get_resource(Usage::Sound, 1).unwrap_err(),
        FileReadError::UnknownIdentifier(1)
    );
    assert_eq!(
        reader.get_resource(Usage::SoundMod, 3).unwrap_err(),
        FileReadError::UnknownIdentifier(3)
    );
    assert_eq!(reader.get_image(0).unwrap_err(), FileReadError::UnknownIdentifier(0));
}

#[test]
fn unlisted_negative_resource_is_reported_as_unsigned() {
    let bytes = sample();
    let reader = BlorbReader::parse(&bytes).unwrap();
    assert_eq!(
        reader.get_resource(Usage::Sound, -1).unwrap_err(),
        FileReadError::UnknownIdentifier(0xFFFF_FFFF)
    );
    assert_eq!(
        reader.get_resource(Usage::Executable, i32::MIN).unwrap_err(),
        FileReadError::UnknownIdentifier(0x8000_0000)
    );
}

#[test]
fn executables_are_counted_in_index_order() {
    let mut second = image();
    second[35] = 0x01;
    let bytes = container(&[
        (b"Pict", 0, chunk(b"PNG ", b"p")),
        (b"Exec", 9, chunk(b"GLUL", &image())),
        (b"Exec", 4, chunk(b"GLUL", &second)),
    ]);
    let reader = BlorbReader::parse(&bytes).unwrap();
    assert_eq!(reader.get_ids(Usage::Executable), vec![9, 4]);
    assert_eq!(reader.get_exec(0).unwrap().header().checksum, 0xDEAD_BEEF);
    assert_eq!(reader.get_exec(1).unwrap().header().checksum, 0xDEAD_BE01);
    assert_eq!(reader.get_exec(2).unwrap_err(), FileReadError::UnknownIdentifier(2));
    assert_eq!(
        reader.get_exec(usize::MAX).unwrap_err(),
        FileReadError::UnknownIdentifier(usize::MAX)
    );
}

#[test]
fn container_without_executable_has_no_primary_image() {
    let bytes = container(&[(b"Pict", 1, chunk(b"PNG ", b"p"))]);
    let game = GameType::try_from(&bytes[..]).unwrap();
    assert!(matches!(game, GameType::Blorb(_)));
    assert_eq!(game.get_exec().unwrap_err(), FileReadError::UnknownIdentifier(0));
}

#[test]
fn executable_that_is_no_image_gives_the_error_of_the_image() {
    let bytes = container(&[
        (b"Exec", 0, chunk(b"ZCOD", b"not a glulx image, but long enough to be one")),
        (b"Exec", 1, chunk(b"GLUL", b"Glul too short")),
    ]);
    let reader = BlorbReader::parse(&bytes).unwrap();
    assert_eq!(
        reader.get_exec(0).unwrap_err(),
        FileReadError::UnexpectedStartingIdentifier(BlorbChunkType::UlxMagic)
    );
    assert_eq!(reader.get_exec(1).unwrap_err(), FileReadError::InvalidLength(14, 36));
}

#[test]
fn chunk_is_read_at_an_offset() {
    let bytes = sample();
    let reader = BlorbReader::parse(&bytes).unwrap();
    let index = reader.get_chunk_at(12).unwrap();
    assert_eq!(index.header.tag, TAG_RIDX);
    assert_eq!(index.header.length, 4 + 12 * 7);
    assert_eq!(index.offset, 12);
    assert_eq!(index.kind, ChunkKind::Unknown);
    assert_eq!(index.data.len(), 88);
    assert_eq!(index.data, &bytes[20..108]);
    let picture = reader.get_chunk_at(108).unwrap();
    assert_eq!(picture.header.tag, TAG_PNG);
    assert_eq!(picture.data, b"first picture");
    assert_eq!(picture.kind, ChunkKind::Picture);
}

#[test]
fn chunk_whose_payload_ends_behind_the_buffer_is_an_invalid_length() {
    let mut bytes = chunk(b"PNG ", b"0123456789");
    bytes[7] = 11;
    assert_eq!(read_chunk(&bytes, 0).unwrap_err(), FileReadError::InvalidLength(18, 19));
    bytes[4] = 0xFF;
    bytes[5] = 0xFF;
    bytes[6] = 0xFF;
    bytes[7] = 0xFF;
    assert_eq!(
        read_chunk(&bytes, 0).unwrap_err(),
        FileReadError::InvalidLength(18, 8 + 0xFFFF_FFFF)
    );
    let container = sample();
    let reader = BlorbReader::parse(&container).unwrap();
    let inside = 21;
    assert_eq!(&container[inside + 4..inside + 8], b"ict\0");
    assert_eq!(
        reader.get_chunk_at(inside).unwrap_err(),
        FileReadError::InvalidLength(container.len(), inside + 8 + 0x6963_7400)
    );
}

#[test]
fn chunk_whose_length_is_wrong_is_an_invalid_length_whatever_its_identifier() {
    let bytes = [0x00, 0x01, 0x02, 0x03, 0, 0, 0, 5, 1, 2, 3, 4];
    assert_eq!(read_chunk(&bytes, 0).unwrap_err(), FileReadError::InvalidLength(12, 13));
}

#[test]
fn chunk_whose_header_does_not_fit_is_an_invalid_length() {
    let bytes = chunk(b"PNG ", b"0123456789");
    assert_eq!(read_chunk(&bytes, 11).unwrap_err(), FileReadError::InvalidLength(18, 19));
    assert_eq!(read_chunk(&bytes, 18).unwrap_err(), FileReadError::InvalidLength(18, 26));
    assert_eq!(read_chunk(&bytes, 500).unwrap_err(), FileReadError::InvalidLength(18, 508));
    assert_eq!(
        read_chunk(&bytes, usize::MAX).unwrap_err(),
        FileReadError::InvalidLength(18, usize::MAX)
    );
    assert_eq!(read_chunk(&[], 0).unwrap_err(), FileReadError::InvalidLength(0, 8));
}

#[test]
fn chunk_that_fills_the_buffer_is_read() {
    let bytes = chunk(b"TEXT", b"0123456789");
    let found = read_chunk(&bytes, 0).unwrap();
    assert_eq!(found.data, b"0123456789");
    assert_eq!(found.kind, ChunkKind::Text);
    let empty = chunk(b"TEXT", b"");
    assert_eq!(read_chunk(&empty, 0).unwrap().data, b"");
}

#[test]
fn chunk_with_an_unprintable_identifier_is_an_invalid_conversion() {
    for position in 0..4 {
        for byte in [0x00u8, 0x1F, 0x7F, 0xFF] {
            let mut bytes = chunk(b"PNG ", b"01");
            bytes[position] = byte;
            assert_eq!(read_chunk(&bytes, 0).unwrap_err(), FileReadError::InvalidConversion);
        }
    }
}

#[test]
fn chunk_with_an_unregistered_identifier_is_of_unknown_kind() {
    let bytes = chunk(b"Fspc", &[0, 0, 0, 1]);
    let found = read_chunk(&bytes, 0).unwrap();
    assert_eq!(found.kind, ChunkKind::Unknown);
    assert_eq!(found.header.tag, u32::from_be_bytes(*b"Fspc"));
    assert_eq!(found.data, &[0, 0, 0, 1]);
    let edges = chunk(b" ~ ~", b"");
    assert_eq!(read_chunk(&edges, 0).unwrap().kind, ChunkKind::Unknown);
}

#[test]
fn printable_bytes_are_space_to_tilde() {
    for byte in 0..=255u8 {
        assert_eq!(is_printable(byte), (0x20..=0x7E).contains(&byte));
    }
}

#[test]
fn next_chunk_starts_behind_the_padding() {
    let odd = Chunk {
        header: ChunkHeader { tag: TAG_PNG, length: 3 },
        offset: 12,
        data: b"abc",
        kind: ChunkKind::Picture,
    };
    assert_eq!(odd.next_offset(), 12 + 8 + 3 + 1);
    let even = Chunk {
        header: ChunkHeader { tag: TAG_PNG, length: 4 },
        offset: 12,
        data: b"abcd",
        kind: ChunkKind::Picture,
    };
    assert_eq!(even.next_offset(), 12 + 8 + 4);
    let far = Chunk {
        header: ChunkHeader { tag: TAG_PNG, length: 3 },
        offset: usize::MAX - 4,
        data: b"abc",
        kind: ChunkKind::Picture,
    };
    assert_eq!(far.next_offset(), usize::MAX);
}

#[test]
fn index_is_found_behind_other_chunks() {
    let mut rest = chunk(b"IFhd", b"thirteen byte");
    rest.extend_from_slice(&chunk(b"Fspc", &[0, 0, 0, 1]));
    let index_at = 12 + rest.len();
    assert_eq!(index_at, 12 + 8 + 14 + 12);
    let picture_at = index_at + 8 + 4 + 12;
    rest.extend_from_slice(&index_chunk(&[(b"Pict", 5, picture_at as u32)]));
    rest.extend_from_slice(&chunk(b"PNG ", b"png"));
    let bytes = form(&rest);
    let reader = BlorbReader::parse(&bytes).unwrap();
    assert_eq!(reader.image_ids(), vec![5]);
    assert_eq!(reader.get_image(5).unwrap().data, b"png");
    assert_eq!(reader.get_chunk_at(index_at).unwrap().header.tag, TAG_RIDX);
}

#[test]
fn first_index_chunk_is_the_index() {
    let mut rest = index_chunk(&[]);
    let picture_at = 12 + rest.len() + 8 + 4 + 12;
    rest.extend_from_slice(&index_chunk(&[(b"Pict", 5, picture_at as u32)]));
    rest.extend_from_slice(&chunk(b"PNG ", b"png"));
    let bytes = form(&rest);
    let reader = BlorbReader::parse(&bytes).unwrap();
    assert_eq!(reader.index().len(), 0);
}

#[test]
fn container_without_an_index_expects_one() {
    let expected = FileReadError::UnexpectedStartingIdentifier(BlorbChunkType::ResourceIndex);
    assert_eq!(BlorbReader::parse(&form(&[])).unwrap_err(), expected);
    let only_picture = form(&chunk(b"PNG ", b"png"));
    assert_eq!(BlorbReader::parse(&only_picture).unwrap_err(), expected);
    let mut unpadded = chunk(b"PNG ", b"png");
    unpadded.pop();
    assert_eq!(BlorbReader::parse(&form(&unpadded)).unwrap_err(), expected);
}

#[test]
fn chunk_in_front_of_the_index_that_cannot_be_read_gives_its_error() {
    let mut rest = chunk(b"PNG ", b"png!");
    rest[7] = 200;
    rest.extend_from_slice(&index_chunk(&[]));
    let bytes = form(&rest);
    assert_eq!(
        BlorbReader::parse(&bytes).unwrap_err(),
        FileReadError::InvalidLength(bytes.len(), 12 + 8 + 200)
    );
    let mut rest = chunk(b"PN\x01 ", b"png!");
    rest.extend_from_slice(&index_chunk(&[]));
    assert_eq!(
        BlorbReader::parse(&form(&rest)).unwrap_err(),
        FileReadError::InvalidConversion
    );
    let mut rest = chunk(b"PNG ", b"png!");
    rest.extend_from_slice(b"RIdx");
    let bytes = form(&rest);
    assert_eq!(
        BlorbReader::parse(&bytes).unwrap_err(),
        FileReadError::InvalidLength(28, 24 + 8)
    );
}

#[test]
fn buffer_that_does_not_start_with_the_form_identifier_expects_it() {
    let expected = FileReadError::UnexpectedStartingIdentifier(BlorbChunkType::Form);
    assert_eq!(BlorbReader::parse(&[]).unwrap_err(), expected);
    assert_eq!(BlorbReader::parse(b"FOR").unwrap_err(), expected);
    assert_eq!(BlorbReader::parse(&image()).unwrap_err(), expected);
    let mut bytes = sample();
    bytes[0] = b'f';
    assert_eq!(BlorbReader::parse(&bytes).unwrap_err(), expected);
}

#[test]
fn form_whose_length_is_not_that_of_the_buffer_is_an_invalid_length() {
    assert_eq!(BlorbReader::parse(b"FORM").unwrap_err(), FileReadError::InvalidLength(4, 8));
    assert_eq!(
        BlorbReader::parse(b"FORM\0\0\0").unwrap_err(),
        FileReadError::InvalidLength(7, 8)
    );
    let bytes = sample();
    let mut longer = bytes.clone();
    longer.push(0);
    assert_eq!(
        BlorbReader::parse(&longer).unwrap_err(),
        FileReadError::InvalidLength(bytes.len() + 1, bytes.len())
    );
    let shorter = &bytes[..bytes.len() - 1];
    assert_eq!(
        BlorbReader::parse(shorter).unwrap_err(),
        FileReadError::InvalidLength(bytes.len() - 1, bytes.len())
    );
    assert_eq!(
        BlorbReader::parse(b"FORM\0\0\0\x04").unwrap_err(),
        FileReadError::InvalidLength(8, 12)
    );
}

#[test]
fn form_of_another_type_expects_the_container_type() {
    let expected = FileReadError::UnexpectedStartingIdentifier(BlorbChunkType::Ifrs);
    let mut bytes = sample();
    bytes[8..12].copy_from_slice(b"AIFF");
    assert_eq!(BlorbReader::parse(&bytes).unwrap_err(), expected);
    assert_eq!(BlorbReader::parse(b"FORM\0\0\0\0").unwrap_err(), expected);
    assert_eq!(BlorbReader::parse(b"FORM\0\0\0\x03IFR").unwrap_err(), expected);
}

#[test]
fn index_whose_length_is_not_that_of_its_count_is_an_invalid_length() {
    let bytes = form(&chunk(b"RIdx", &[0, 0]));
    assert_eq!(BlorbReader::parse(&bytes).unwrap_err(), FileReadError::InvalidLength(2, 4));
    let bytes = form(&chunk(b"RIdx", &[]));
    assert_eq!(BlorbReader::parse(&bytes).unwrap_err(), FileReadError::InvalidLength(0, 4));
    let bytes = form(&chunk(b"RIdx", &[0, 0, 0, 2, 1, 2, 3, 4, 5, 6, 7, 8, 9, 10, 11, 12]));
    assert_eq!(BlorbReader::parse(&bytes).unwrap_err(), FileReadError::InvalidLength(16, 28));
    let bytes = form(&chunk(b"RIdx", &[0, 0, 0, 0, 1, 2, 3, 4, 5, 6, 7, 8, 9, 10, 11, 12]));
    assert_eq!(BlorbReader::parse(&bytes).unwrap_err(), FileReadError::InvalidLength(16, 4));
    let bytes = form(&chunk(b"RIdx", &[0, 0, 0, 1, 1, 2, 3, 4, 5, 6, 7, 8, 9, 10, 11]));
    assert_eq!(BlorbReader::parse(&bytes).unwrap_err(), FileReadError::InvalidLength(15, 16));
    let bytes = form(&chunk(b"RIdx", &[0xFF, 0xFF, 0xFF, 0xFF]));
    assert_eq!(
        BlorbReader::parse(&bytes).unwrap_err(),
        FileReadError::InvalidLength(4, 4 + 12 * 0xFFFF_FFFF)
    );
}

#[test]
fn entry_with_an_unknown_usage_is_an_unknown_identifier() {
    let bytes = container(&[
        (b"Pict", 1, chunk(b"PNG ", b"p")),
        (b"Data", 2, chunk(b"TEXT", b"t")),
    ]);
    assert_eq!(
        BlorbReader::parse(&bytes).unwrap_err(),
        FileReadError::UnknownIdentifier(0x4461_7461)
    );
    let bytes = container(&[(b"PNG ", 1, chunk(b"PNG ", b"p"))]);
    assert_eq!(
        BlorbReader::parse(&bytes).unwrap_err(),
        FileReadError::UnknownIdentifier(TAG_PNG as usize)
    );
}

#[test]
fn entry_that_points_outside_the_buffer_is_an_invalid_length() {
    let mut rest = index_chunk(&[(b"Pict", 1, 1000)]);
    rest.extend_from_slice(&chunk(b"PNG ", b"p"));
    let bytes = form(&rest);
    assert_eq!(
        BlorbReader::parse(&bytes).unwrap_err(),
        FileReadError::InvalidLength(bytes.len(), 1008)
    );
    let mut rest = index_chunk(&[(b"Pict", 1, 0xFFFF_FFFF)]);
    rest.extend_from_slice(&chunk(b"PNG ", b"p"));
    let bytes = form(&rest);
    assert_eq!(
        BlorbReader::parse(&bytes).unwrap_err(),
        FileReadError::InvalidLength(bytes.len(), 0xFFFF_FFFF + 8)
    );
}

#[test]
fn entry_whose_chunk_does_not_fit_is_an_invalid_length() {
    let mut bytes = container(&[(b"Pict", 1, chunk(b"PNG ", b"pp"))]);
    let at = bytes.len() - 10;
    bytes[at + 7] = 3;
    assert_eq!(
        BlorbReader::parse(&bytes).unwrap_err(),
        FileReadError::InvalidLength(bytes.len(), bytes.len() + 1)
    );
}

#[test]
fn entry_whose_chunk_has_an_unprintable_identifier_is_an_invalid_conversion() {
    let bytes = container(&[(b"Pict", 1, chunk(b"PNG\n", b"pp"))]);
    assert_eq!(BlorbReader::parse(&bytes).unwrap_err(), FileReadError::InvalidConversion);
}

#[test]
fn entry_whose_chunk_holds_something_else_expects_its_usage() {
    let bytes = container(&[(b"Pict", 1, chunk(b"GLUL", &image()))]);
    assert_eq!(
        BlorbReader::parse(&bytes).unwrap_err(),
        FileReadError::UnexpectedStartingIdentifier(BlorbChunkType::Picture)
    );
    let bytes = container(&[(b"Exec", 1, chunk(b"PNG ", b"p"))]);
    assert_eq!(
        BlorbReader::parse(&bytes).unwrap_err(),
        FileReadError::UnexpectedStartingIdentifier(BlorbChunkType::Executable)
    );
    let bytes = container(&[(b"SONG", 1, chunk(b"Fspc", b"?"))]);
    assert_eq!(
        BlorbReader::parse(&bytes).unwrap_err(),
        FileReadError::UnexpectedStartingIdentifier(BlorbChunkType::SoundSong)
    );
    let bytes = container(&[(b"Snd ", 1, chunk(b"TEXT", b"t"))]);
    assert_eq!(
        BlorbReader::parse(&bytes).unwrap_err(),
        FileReadError::UnexpectedStartingIdentifier(BlorbChunkType::Sound)
    );
}

#[test]
fn sound_usages_accept_every_sound_chunk() {
    let bytes = container(&[
        (b"Snd ", 1, chunk(b"MOD ", b"m")),
        (b"MOD ", 2, chunk(b"AIFF", b"a")),
        (b"SONG", 3, chunk(b"OGGV", b"o")),
        (b"Snd ", 4, chunk(b"Snd ", b"s")),
    ]);
    let reader = BlorbReader::parse(&bytes).unwrap();
    assert_eq!(reader.get_ids(Usage::Sound), vec![1, 4]);
    assert_eq!(reader.get_resource(Usage::SoundMod, 2).unwrap().data, b"a");
}

#[test]
fn first_entry_that_cannot_be_read_gives_the_error() {
    let bytes = container(&[
        (b"Pict", 1, chunk(b"PNG ", b"p")),
        (b"Pict", 2, chunk(b"GLUL", b"g")),
        (b"Data", 3, chunk(b"TEXT", b"t")),
    ]);
    assert_eq!(
        BlorbReader::parse(&bytes).unwrap_err(),
        FileReadError::UnexpectedStartingIdentifier(BlorbChunkType::Picture)
    );
    let bytes = container(&[
        (b"Data", 3, chunk(b"TEXT", b"t")),
        (b"Pict", 2, chunk(b"GLUL", b"g")),
    ]);
    assert_eq!(
        BlorbReader::parse(&bytes).unwrap_err(),
        FileReadError::UnknownIdentifier(0x4461_7461)
    );
}

#[test]
fn resource_listed_twice_is_unsupported() {
    let bytes = container(&[
        (b"Pict", 1, chunk(b"PNG ", b"p")),
        (b"Exec", 1, chunk(b"GLUL", &image())),
        (b"Pict", 1, chunk(b"JPEG", b"j")),
    ]);
    assert_eq!(BlorbReader::parse(&bytes).unwrap_err(), FileReadError::UnsupportedOperation);
    let bytes = container(&[
        (b"Snd ", 6, chunk(b"OGGV", b"o")),
        (b"MOD ", 6, chunk(b"MOD ", b"m")),
    ]);
    assert_eq!(BlorbReader::parse(&bytes).unwrap_err(), FileReadError::UnsupportedOperation);
}

#[test]
fn same_number_in_different_categories_is_accepted() {
    let bytes = container(&[
        (b"Pict", 1, chunk(b"PNG ", b"p")),
        (b"Exec", 1, chunk(b"GLUL", &image())),
        (b"Snd ", 1, chunk(b"OGGV", b"o")),
    ]);
    let reader = BlorbReader::parse(&bytes).unwrap();
    assert_eq!(reader.get_ids(Usage::Picture), vec![1]);
    assert_eq!(reader.get_ids(Usage::Executable), vec![1]);
    assert_eq!(reader.get_ids(Usage::Sound), vec![1]);
    assert_eq!(reader.get_resource(Usage::Sound, 1).unwrap().data, b"o");
}

#[test]
fn two_entries_may_share_a_chunk() {
    let mut rest = index_chunk(&[(b"Pict", 1, 48), (b"Pict", 2, 48)]);
    rest.extend_from_slice(&chunk(b"PNG ", b"shared"));
    let bytes = form(&rest);
    let reader = BlorbReader::parse(&bytes).unwrap();
    assert_eq!(reader.get_image(1), reader.get_image(2));
    assert_eq!(reader.get_image(2).unwrap().data, b"shared");
}

#[test]
fn parsing_twice_gives_the_same_container() {
    let bytes = sample();
    let copy = bytes.clone();
    let first = BlorbReader::parse(&bytes).unwrap();
    let second = BlorbReader::parse(&copy).unwrap();
    assert_eq!(first.index(), second.index());
    assert_eq!(first.declared_len(), second.declared_len());
    for entry in first.index() {
        let a = first.get_resource(entry.usage, entry.id).unwrap();
        let b = second.get_resource(entry.usage, entry.id).unwrap();
        assert_eq!(a, b);
        assert_eq!(a.offset, b.offset);
    }
    assert_eq!(
        first.get_exec(0).unwrap().header(),
        second.get_exec(0).unwrap().header()
    );
    assert_eq!(BlorbReader::parse(b"FORM").unwrap_err(), BlorbReader::parse(b"FORM").unwrap_err());
}

#[test]
fn bare_image_is_read_as_an_image() {
    let bytes = image();
    assert_eq!(bytes.len(), 36);
    let game = GameType::try_from(&bytes[..]).unwrap();
    let held = match &game {
        GameType::Ulx(reader) => *reader,
        GameType::Blorb(_) => panic!("read as a container"),
    };
    let primary = game.get_exec().unwrap();
    assert_eq!(primary.header(), held.header());
    assert_eq!(primary.debugging_header(), held.debugging_header());
    assert_eq!(primary.data(), held.data());
    assert_eq!(primary.header().magic, TAG_ULX);
    assert_eq!(primary.data().as_ptr(), bytes.as_ptr());
}

#[test]
fn buffer_in_neither_format_is_of_unknown_type() {
    assert_eq!(GameType::try_from(&[0u8; 0][..]).unwrap_err(), FileReadError::UnknownFileType);
    assert_eq!(
        GameType::try_from(&b"neither an image nor a container, whatever its length"[..])
            .unwrap_err(),
        FileReadError::UnknownFileType
    );
    assert_eq!(GameType::try_from(&[0u8; 64][..]).unwrap_err(), FileReadError::UnknownFileType);
    assert_eq!(GameType::try_from(&b"GLUL"[..]).unwrap_err(), FileReadError::UnknownFileType);
    assert_eq!(GameType::try_from(&b"form"[..]).unwrap_err(), FileReadError::UnknownFileType);
}

#[test]
fn buffer_that_fails_in_both_formats_is_of_unknown_type() {
    assert_eq!(GameType::try_from(&b"Glul"[..]).unwrap_err(), FileReadError::UnknownFileType);
    assert_eq!(GameType::try_from(&image()[..35]).unwrap_err(), FileReadError::UnknownFileType);
    assert_eq!(GameType::try_from(&b"FORM"[..]).unwrap_err(), FileReadError::UnknownFileType);
    let mut bytes = sample();
    bytes.push(0);
    assert_eq!(GameType::try_from(&bytes[..]).unwrap_err(), FileReadError::UnknownFileType);
    let duplicate = container(&[
        (b"Pict", 1, chunk(b"PNG ", b"p")),
        (b"Pict", 1, chunk(b"PNG ", b"q")),
    ]);
    assert_eq!(GameType::try_from(&duplicate[..]).unwrap_err(), FileReadError::UnknownFileType);
}

#[test]
fn no_buffer_is_read_in_both_formats() {
    let samples = [image(), sample(), container(&[]), b"FORM".to_vec(), b"Glul".to_vec()];
    for bytes in samples {
        let as_image = blorb_browser::file_reader::ulx_reader::UlxReader::parse(&bytes).is_ok();
        let as_container = BlorbReader::parse(&bytes).is_ok();
        assert!(!(as_image && as_container));
        match GameType::try_from(&bytes[..]) {
            Ok(GameType::Ulx(_)) => assert!(as_image),
            Ok(GameType::Blorb(_)) => assert!(as_container && !as_image),
            Err(e) => {
                assert_eq!(e, FileReadError::UnknownFileType);
                assert!(!as_image && !as_container);
            }
        }
    }
}

#[test]
fn exec_chunk_identifier_is_the_glulx_one() {
    let bytes = container(&[(b"Exec", 0, chunk(b"GLUL", &image()))]);
    let reader = BlorbReader::parse(&bytes).unwrap();
    let found = reader.get_resource(Usage::Executable, 0).unwrap();
    assert_eq!(found.header.tag, TAG_GLUL);
    assert_eq!(found.header.length, 36);
    assert_eq!(found.kind, ChunkKind::Executable);
    assert_eq!(found.data, &image()[..]);
}
