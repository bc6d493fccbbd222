use std::io::Write;

use me1_save::codec::SaveData;
use me1_save::container::{
    decode_record, encode_record, read_header, read_records, survey_entries, write_header,
    Me1SaveGame,
};
use me1_save::cursor::SaveCursor;
use me1_save::error::{DecodeError, EntryName};
use me1_save::opaque::{Dummy, WorldSavePackage};

const PLAYER: [u8; 10] = [1, 2, 3, 4, 5, 6, 7, 8, 9, 10];
const STATE: [u8; 10] = [11, 12, 13, 14, 15, 16, 17, 18, 19, 20];
const MARKER: [u8; 8] = *b"\x00\x01ME1\xff\xfe\x7f";

type Game = Me1SaveGame<Dummy<10>, Dummy<10>>;

fn archive_with(
    method: zip::CompressionMethod,
    comment: usize,
    entries: &[(&str, &[u8])],
) -> Vec<u8> {
    let mut writer = zip::ZipWriter::new(std::io::Cursor::new(Vec::new()));
    let options = zip::write::FileOptions::default().compression_method(method);
    for (name, data) in entries {
        writer.start_file(*name, options).unwrap();
        writer.write_all(data).unwrap();
    }
    writer.set_raw_comment(vec![b' '; comment]);
    writer.finish().unwrap().into_inner()
}

fn archive_of(entries: &[(&str, &[u8])]) -> Vec<u8> {
    archive_with(zip::CompressionMethod::DEFLATE, 0, entries)
}

fn entries_in_order(archive: &[u8]) -> Vec<(String, Vec<u8>)> {
    let mut reader = zip::ZipArchive::new(std::io::Cursor::new(archive.to_vec())).unwrap();
    let mut entries = Vec::new();
    for i in 0..reader.len() {
        let mut file = reader.by_index(i).unwrap();
        assert_eq!(file.compression(), zip::CompressionMethod::DEFLATE);
        let mut data = Vec::new();
        std::io::Read::read_to_end(&mut file, &mut data).unwrap();
        entries.push((file.name().to_owned(), data));
    }
    entries
}

fn save_file(marker: [u8; 8], offset: u32, region: &[u8], archive: &[u8]) -> Vec<u8> {
    let mut file = marker.to_vec();
    file.extend_from_slice(&offset.to_le_bytes());
    file.extend_from_slice(region);
    file.extend_from_slice(archive);
    file
}

fn decode(file: Vec<u8>) -> Result<Game, DecodeError> {
    Game::deserialize(&mut SaveCursor::new(file))
}

fn encode(game: &Game) -> Vec<u8> {
    let mut output = Vec::new();
    assert_eq!(game.serialize(&mut output), Ok(()));
    output
}

fn plain_file() -> Vec<u8> {
    let archive = archive_of(&[("player.sav", &PLAYER), ("state.sav", &STATE)]);
    save_file(MARKER, 15, &[0xa0, 0xa1, 0xa2], &archive)
}

fn world_file() -> Vec<u8> {
    let archive = archive_of(&[
        ("player.sav", &PLAYER),
        ("state.sav", &STATE),
        ("WorldSavePackage.sav", &[0x77; 300]),
    ]);
    save_file(MARKER, 15, &[0xa0, 0xa1, 0xa2], &archive)
}

fn noise(seed: &mut u32, len: usize) -> Vec<u8> {
    let mut bytes = Vec::with_capacity(len);
    for _ in 0..len {
        *seed = seed.wrapping_mul(1_664_525).wrapping_add(1_013_904_223);
        bytes.push((*seed >> 24) as u8);
    }
    bytes
}

#[test]
fn many_files_are_stable_from_the_second_generation() {
    let mut seed = 0x2545_f491u32;
    for round in 0..40usize {
        let region = noise(&mut seed, round * 7 % 61);
        let marker: [u8; 8] = noise(&mut seed, 8).try_into().unwrap();
        let player = noise(&mut seed, 10);
        let state = noise(&mut seed, 10);
        let world = noise(&mut seed, round * 13);
        let mut entries: Vec<(&str, &[u8])> =
            vec![("player.sav", &player), ("state.sav", &state)];
        if round % 2 == 1 {
            entries.push(("WorldSavePackage.sav", &world));
        }
        let archive = archive_of(&entries);
        let file = save_file(marker, 12 + region.len() as u32, &region, &archive);

        let first = decode(file).ok().unwrap();
        let output = encode(&first);
        let second = decode(output.clone()).ok().unwrap();
        assert_eq!(encode(&second), output);

        assert_eq!(second.leading_marker().0, marker);
        assert_eq!(second.archive_offset() as usize, 12 + region.len());
        assert_eq!(second.pre_archive_region(), &region[..]);
        assert_eq!(second.player.0[..], player[..]);
        assert_eq!(second.state.0[..], state[..]);
        match second.world_package() {
            Some(package) => {
                assert_eq!(round % 2, 1);
                assert_eq!(package.as_bytes(), &world[..]);
            }
            None => assert_eq!(round % 2, 0),
        }
    }
}

#[test]
fn five_hundred_bytes_with_offset_fifty() {
    let bare = archive_of(&[("player.sav", &PLAYER), ("state.sav", &STATE)]);
    assert!(bare.len() < 450);
    let archive = archive_with(
        zip::CompressionMethod::DEFLATE,
        450 - bare.len(),
        &[("player.sav", &PLAYER), ("state.sav", &STATE)],
    );
    let region: Vec<u8> = (0u8..38).collect();
    let file = save_file(MARKER, 50, &region, &archive);
    assert_eq!(file.len(), 500);

    let game = decode(file.clone()).ok().unwrap();
    assert!(game.world_package().is_none());
    assert_eq!(game.leading_marker().0, MARKER);
    assert_eq!(game.archive_offset(), 50);
    assert_eq!(game.pre_archive_region(), &region[..]);
    assert_eq!(game.player.0, PLAYER);
    assert_eq!(game.state.0, STATE);
    assert_eq!(game.player().0, PLAYER);
    assert_eq!(game.state().0, STATE);

    let output = encode(&game);
    assert_eq!(output[..50], file[..50]);
    assert_eq!(
        entries_in_order(&output[50..]),
        vec![("player.sav".to_owned(), PLAYER.to_vec()), ("state.sav".to_owned(), STATE.to_vec())]
    );
}

#[test]
fn second_serialize_equals_first() {
    for file in [plain_file(), world_file()] {
        let first = decode(file).ok().unwrap();
        let output = encode(&first);
        let second = decode(output.clone()).ok().unwrap();
        let output_2 = encode(&second);
        assert_eq!(output, output_2);
    }
}

#[test]
fn serialize_is_the_same_each_time() {
    let game = decode(world_file()).ok().unwrap();
    assert_eq!(encode(&game), encode(&game));
    assert_eq!(encode(&game), encode(&game.clone()));
}

#[test]
fn opaque_spans_survive_a_round_trip() {
    let region: Vec<u8> = (0..=255u8).rev().collect();
    let archive = archive_of(&[("player.sav", &PLAYER), ("state.sav", &STATE)]);
    let first = decode(save_file(MARKER, 12 + 256, &region, &archive)).ok().unwrap();
    let second = decode(encode(&first)).ok().unwrap();
    assert_eq!(second.leading_marker().0, MARKER);
    assert_eq!(second.archive_offset(), 268);
    assert_eq!(second.pre_archive_region(), &region[..]);
    assert_eq!(second.leading_marker().0, first.leading_marker().0);
    assert_eq!(second.archive_offset(), first.archive_offset());
    assert_eq!(second.pre_archive_region(), first.pre_archive_region());
}

#[test]
fn empty_region_is_kept_empty() {
    let archive = archive_of(&[("player.sav", &PLAYER), ("state.sav", &STATE)]);
    let game = decode(save_file(MARKER, 12, &[], &archive)).ok().unwrap();
    assert_eq!(game.archive_offset(), 12);
    assert_eq!(game.pre_archive_region(), &[][..]);
    let output = encode(&game);
    assert_eq!(output[..12], [&MARKER[..], &[12, 0, 0, 0][..]].concat()[..]);
    assert_eq!(entries_in_order(&output[12..]).len(), 2);
}

#[test]
fn world_package_is_kept_byte_for_byte() {
    let world: Vec<u8> = (0..1000u32).map(|i| (i * 7 % 251) as u8).collect();
    let archive = archive_of(&[
        ("player.sav", &PLAYER),
        ("state.sav", &STATE),
        ("WorldSavePackage.sav", &world),
    ]);
    let game = decode(save_file(MARKER, 12, &[], &archive)).ok().unwrap();
    assert_eq!(game.world_package().unwrap().as_bytes(), &world[..]);

    let output = encode(&game);
    assert_eq!(
        entries_in_order(&output[12..]),
        vec![
            ("player.sav".to_owned(), PLAYER.to_vec()),
            ("state.sav".to_owned(), STATE.to_vec()),
            ("WorldSavePackage.sav".to_owned(), world.clone()),
        ]
    );
    let again = decode(output).ok().unwrap();
    assert_eq!(again.world_package().unwrap().as_bytes(), &world[..]);
}

#[test]
fn empty_world_package_is_still_a_world_package() {
    let archive = archive_of(&[
        ("player.sav", &PLAYER),
        ("state.sav", &STATE),
        ("WorldSavePackage.sav", &[]),
    ]);
    let game = decode(save_file(MARKER, 12, &[], &archive)).ok().unwrap();
    assert_eq!(game.world_package().unwrap().as_bytes(), &[][..]);
    let output = encode(&game);
    assert_eq!(entries_in_order(&output[12..]).len(), 3);
}

#[test]
fn absent_world_package_is_not_written() {
    let game = decode(plain_file()).ok().unwrap();
    assert!(game.world_package().is_none());
    let output = encode(&game);
    let names: Vec<String> =
        entries_in_order(&output[15..]).into_iter().map(|(name, _)| name).collect();
    assert_eq!(names, vec!["player.sav", "state.sav"]);
    assert!(decode(output).ok().unwrap().world_package().is_none());
}

#[test]
fn records_are_written_player_first_whatever_the_order_read() {
    let archive = archive_of(&[
        ("WorldSavePackage.sav", &[9, 9]),
        ("state.sav", &STATE),
        ("player.sav", &PLAYER),
    ]);
    let game = decode(save_file(MARKER, 12, &[], &archive)).ok().unwrap();
    assert_eq!(game.player.0, PLAYER);
    assert_eq!(game.state.0, STATE);
    let output = encode(&game);
    assert_eq!(
        entries_in_order(&output[12..]),
        vec![
            ("player.sav".to_owned(), PLAYER.to_vec()),
            ("state.sav".to_owned(), STATE.to_vec()),
            ("WorldSavePackage.sav".to_owned(), vec![9, 9]),
        ]
    );
}

#[test]
fn records_of_other_names_are_dropped() {
    let archive = archive_of(&[
        ("player.sav", &PLAYER),
        ("notes.txt", b"hello"),
        ("state.sav", &STATE),
        ("worldsavepackage.sav", &[1]),
    ]);
    let game = decode(save_file(MARKER, 12, &[], &archive)).ok().unwrap();
    assert!(game.world_package().is_none());
    let output = encode(&game);
    assert_eq!(entries_in_order(&output[12..]).len(), 2);
}

#[test]
fn stored_records_are_read_too() {
    let archive = archive_with(
        zip::CompressionMethod::Stored,
        0,
        &[("player.sav", &PLAYER), ("state.sav", &STATE)],
    );
    let game = decode(save_file(MARKER, 12, &[], &archive)).ok().unwrap();
    assert_eq!(game.player.0, PLAYER);
    assert_eq!(game.state.0, STATE);
}

#[test]
fn changed_record_is_written_changed() {
    let mut game = decode(plain_file()).ok().unwrap();
    game.player = Dummy([0x55; 10]);
    let output = encode(&game);
    let again = decode(output).ok().unwrap();
    assert_eq!(again.player.0, [0x55; 10]);
    assert_eq!(again.state.0, STATE);
}

#[test]
fn serialize_appends_to_what_is_there() {
    let game = decode(plain_file()).ok().unwrap();
    let mut output = vec![0xee, 0xef];
    assert_eq!(game.serialize(&mut output), Ok(()));
    assert_eq!(output[..2], [0xee, 0xef]);
    assert_eq!(output[2..], encode(&game)[..]);
}

#[test]
fn missing_player_is_refused() {
    let archive = archive_of(&[("state.sav", &STATE)]);
    assert_eq!(
        decode(save_file(MARKER, 12, &[], &archive)).err(),
        Some(DecodeError::MissingRequiredEntry(EntryName::Player))
    );
}

#[test]
fn missing_state_is_refused() {
    let archive = archive_of(&[("player.sav", &PLAYER), ("WorldSavePackage.sav", &[1, 2])]);
    assert_eq!(
        decode(save_file(MARKER, 12, &[], &archive)).err(),
        Some(DecodeError::MissingRequiredEntry(EntryName::State))
    );
}

#[test]
fn missing_both_names_the_player() {
    let archive = archive_of(&[("WorldSavePackage.sav", &[1, 2])]);
    assert_eq!(
        decode(save_file(MARKER, 12, &[], &archive)).err(),
        Some(DecodeError::MissingRequiredEntry(EntryName::Player))
    );
}

#[test]
fn archive_without_records_misses_the_player() {
    let archive = archive_of(&[]);
    assert_eq!(
        decode(save_file(MARKER, 12, &[], &archive)).err(),
        Some(DecodeError::MissingRequiredEntry(EntryName::Player))
    );
}

#[test]
fn missing_state_comes_before_a_bad_player() {
    let archive = archive_of(&[("player.sav", &[1, 2, 3])]);
    assert_eq!(
        decode(save_file(MARKER, 12, &[], &archive)).err(),
        Some(DecodeError::MissingRequiredEntry(EntryName::State))
    );
}

#[test]
fn short_player_record_is_a_nested_error() {
    let archive = archive_of(&[("player.sav", &[1, 2, 3]), ("state.sav", &STATE)]);
    assert_eq!(
        decode(save_file(MARKER, 12, &[], &archive)).err(),
        Some(DecodeError::NestedDecodeError(
            EntryName::Player,
            Box::new(DecodeError::TruncatedInput)
        ))
    );
}

#[test]
fn short_state_record_is_a_nested_error() {
    let archive = archive_of(&[("player.sav", &PLAYER), ("state.sav", &[])]);
    assert_eq!(
        decode(save_file(MARKER, 12, &[], &archive)).err(),
        Some(DecodeError::NestedDecodeError(
            EntryName::State,
            Box::new(DecodeError::TruncatedInput)
        ))
    );
}

#[test]
fn bad_player_comes_before_bad_state() {
    let archive = archive_of(&[("player.sav", &[1]), ("state.sav", &[2])]);
    assert_eq!(
        decode(save_file(MARKER, 12, &[], &archive)).err(),
        Some(DecodeError::NestedDecodeError(
            EntryName::Player,
            Box::new(DecodeError::TruncatedInput)
        ))
    );
}

#[test]
fn empty_buffer_is_truncated() {
    assert_eq!(decode(Vec::new()).err(), Some(DecodeError::TruncatedInput));
}

#[test]
fn buffer_shorter_than_the_marker_is_truncated() {
    assert_eq!(decode(vec![0; 7]).err(), Some(DecodeError::TruncatedInput));
}

#[test]
fn buffer_shorter_than_the_header_is_truncated() {
    assert_eq!(decode(vec![0; 8]).err(), Some(DecodeError::TruncatedInput));
    assert_eq!(decode(vec![0; 11]).err(), Some(DecodeError::TruncatedInput));
}

#[test]
fn buffer_shorter_than_the_offset_is_truncated() {
    let file = save_file(MARKER, 50, &[0; 37], &[]);
    assert_eq!(file.len(), 49);
    assert_eq!(decode(file).err(), Some(DecodeError::TruncatedInput));
}

#[test]
fn plain_file_cut_before_its_offset_is_truncated() {
    let mut file = plain_file();
    file.truncate(14);
    assert_eq!(decode(file).err(), Some(DecodeError::TruncatedInput));
}

#[test]
fn largest_offset_is_truncated() {
    let file = save_file(MARKER, u32::MAX, &[0; 100], &[]);
    assert_eq!(decode(file).err(), Some(DecodeError::TruncatedInput));
}

#[test]
fn offset_inside_the_header_is_invalid() {
    let archive = archive_of(&[("player.sav", &PLAYER), ("state.sav", &STATE)]);
    for offset in [0u32, 1, 8, 11] {
        assert_eq!(
            decode(save_file(MARKER, offset, &[], &archive)).err(),
            Some(DecodeError::InvalidOffset)
        );
    }
}

#[test]
fn invalid_offset_in_a_header_of_twelve_bytes() {
    assert_eq!(decode(save_file(MARKER, 3, &[], &[])).err(), Some(DecodeError::InvalidOffset));
}

#[test]
fn buffer_that_ends_at_the_offset_has_no_archive() {
    let file = save_file(MARKER, 14, &[1, 2], &[]);
    assert_eq!(decode(file).err(), Some(DecodeError::CorruptArchive));
}

#[test]
fn garbage_behind_the_header_is_a_corrupt_archive() {
    let file = save_file(MARKER, 12, &[], &[0x5a; 200]);
    assert_eq!(decode(file).err(), Some(DecodeError::CorruptArchive));
}

#[test]
fn archive_cut_short_is_corrupt() {
    let mut file = plain_file();
    file.truncate(file.len() - 10);
    assert_eq!(decode(file).err(), Some(DecodeError::CorruptArchive));
}

#[test]
fn record_with_a_wrong_checksum_is_a_corrupt_archive() {
    let archive = archive_with(
        zip::CompressionMethod::Stored,
        0,
        &[("player.sav", &PLAYER), ("state.sav", &STATE)],
    );
    let at = archive.windows(10).position(|w| w == STATE).unwrap();
    let mut broken = archive.clone();
    broken[at + 4] ^= 0x01;
    assert_eq!(
        decode(save_file(MARKER, 12, &[], &broken)).err(),
        Some(DecodeError::CorruptArchive)
    );
}

#[test]
fn world_package_with_a_wrong_checksum_is_a_corrupt_archive() {
    let world = [0x31u8, 0x32, 0x33, 0x34, 0x35, 0x36];
    let archive = archive_with(
        zip::CompressionMethod::Stored,
        0,
        &[("player.sav", &PLAYER), ("state.sav", &STATE), ("WorldSavePackage.sav", &world)],
    );
    let at = archive.windows(6).position(|w| w == world).unwrap();
    let mut broken = archive.clone();
    broken[at] ^= 0x80;
    assert_eq!(
        decode(save_file(MARKER, 12, &[], &broken)).err(),
        Some(DecodeError::CorruptArchive)
    );
}

#[test]
fn directory_entry_with_a_place_that_wraps_is_a_corrupt_archive() {
    // One byte, then a directory of one entry whose ZIP64 extra field names
    // the largest 64-bit place for its record, then the end of the directory.
    let mut entry = vec![0x50, 0x4b, 0x01, 0x02, 20, 3, 20, 0];
    entry.extend_from_slice(&[0; 20]);
    entry.extend_from_slice(&[10, 0, 12, 0]);
    entry.extend_from_slice(&[0; 10]);
    entry.extend_from_slice(&[0xff; 4]);
    entry.extend_from_slice(b"player.sav");
    entry.extend_from_slice(&[0x01, 0x00, 0x08, 0x00]);
    entry.extend_from_slice(&[0xff; 8]);
    let mut archive = vec![0u8];
    archive.extend_from_slice(&entry);
    archive.extend_from_slice(&[0x50, 0x4b, 0x05, 0x06, 0, 0, 0, 0, 1, 0, 1, 0]);
    archive.extend_from_slice(&(entry.len() as u32).to_le_bytes());
    archive.extend_from_slice(&[0; 6]);
    let file = save_file(MARKER, 12, &[], &archive);
    assert_eq!(file.len(), 103);
    assert_eq!(decode(file).err(), Some(DecodeError::CorruptArchive));
}

#[test]
fn directory_entry_with_a_far_place_is_still_listed() {
    let mut entry = vec![0x50, 0x4b, 0x01, 0x02, 20, 3, 20, 0];
    entry.extend_from_slice(&[0; 20]);
    entry.extend_from_slice(&[10, 0, 12, 0]);
    entry.extend_from_slice(&[0; 10]);
    entry.extend_from_slice(&[0xff; 4]);
    entry.extend_from_slice(b"player.sav");
    entry.extend_from_slice(&[0x01, 0x00, 0x08, 0x00]);
    entry.extend_from_slice(&(1u64 << 40).to_le_bytes());
    let mut archive = vec![0u8];
    archive.extend_from_slice(&entry);
    archive.extend_from_slice(&[0x50, 0x4b, 0x05, 0x06, 0, 0, 0, 0, 1, 0, 1, 0]);
    archive.extend_from_slice(&(entry.len() as u32).to_le_bytes());
    archive.extend_from_slice(&[0; 6]);
    let file = save_file(MARKER, 12, &[], &archive);
    assert_eq!(
        decode(file).err(),
        Some(DecodeError::MissingRequiredEntry(EntryName::State))
    );
}

#[test]
fn offset_that_points_into_the_archive_is_a_corrupt_archive() {
    let archive = archive_of(&[("player.sav", &PLAYER), ("state.sav", &STATE)]);
    let mut file = save_file(MARKER, 12, &[], &archive);
    file[8] = 14;
    assert_eq!(decode(file).err(), Some(DecodeError::CorruptArchive));
}

#[test]
fn region_is_cut_where_the_offset_says() {
    // Five bytes stand between the stated offset and the archive. The archive
    // is still found; the five bytes belong to neither span and are not
    // written back, and the offset is written as it was read.
    let archive = archive_of(&[("player.sav", &PLAYER), ("state.sav", &STATE)]);
    let mut behind = vec![0x11, 0x22, 0x33, 0x44, 0x55];
    behind.extend_from_slice(&archive);
    let game = decode(save_file(MARKER, 14, &[0xb0, 0xb1], &behind)).ok().unwrap();
    assert_eq!(game.archive_offset(), 14);
    assert_eq!(game.pre_archive_region(), &[0xb0u8, 0xb1][..]);
    let output = encode(&game);
    assert_eq!(output[..14], [&MARKER[..], &[14, 0, 0, 0, 0xb0, 0xb1][..]].concat()[..]);
    assert_eq!(entries_in_order(&output[14..]).len(), 2);
    assert_eq!(output[14..18], [0x50, 0x4b, 0x03, 0x04]);
}

#[test]
fn header_is_read_field_by_field() {
    let mut cursor = SaveCursor::new(save_file(MARKER, 14, &[0xb0, 0xb1], &[0xc0, 0xc1, 0xc2]));
    let (marker, offset, region) = read_header(&mut cursor).ok().unwrap();
    assert_eq!(marker.0, MARKER);
    assert_eq!(offset, 14);
    assert_eq!(region, vec![0xb0, 0xb1]);
    assert_eq!(cursor.read_to_end(), &[0xc0u8, 0xc1, 0xc2][..]);
}

#[test]
fn header_errors_are_told_apart() {
    let read = |file: Vec<u8>| read_header(&mut SaveCursor::new(file)).err();
    assert_eq!(read(vec![0; 11]), Some(DecodeError::TruncatedInput));
    assert_eq!(read(save_file(MARKER, 11, &[], &[])), Some(DecodeError::InvalidOffset));
    assert_eq!(read(save_file(MARKER, 13, &[], &[])), Some(DecodeError::TruncatedInput));
    assert_eq!(read(save_file(MARKER, 12, &[], &[])), None);
}

#[test]
fn header_is_written_with_the_offset_given() {
    let mut output = vec![0xfe];
    write_header(&Dummy(MARKER), 0x0102_0304, &[7, 8, 9], &mut output);
    let mut expected = vec![0xfe];
    expected.extend_from_slice(&MARKER);
    expected.extend_from_slice(&[4, 3, 2, 1, 7, 8, 9]);
    assert_eq!(output, expected);
}

#[test]
fn survey_asks_for_both_required_records() {
    let names = |list: &[&str]| list.iter().map(|n| n.to_string()).collect::<Vec<String>>();
    assert_eq!(survey_entries(&names(&["state.sav", "player.sav"])), Ok(false));
    assert_eq!(
        survey_entries(&names(&["WorldSavePackage.sav", "player.sav", "state.sav"])),
        Ok(true)
    );
    assert_eq!(
        survey_entries(&names(&["state.sav"])),
        Err(DecodeError::MissingRequiredEntry(EntryName::Player))
    );
    assert_eq!(
        survey_entries(&names(&["player.sav", "WorldSavePackage.sav"])),
        Err(DecodeError::MissingRequiredEntry(EntryName::State))
    );
    assert_eq!(
        survey_entries(&names(&[])),
        Err(DecodeError::MissingRequiredEntry(EntryName::Player))
    );
    assert_eq!(
        survey_entries(&names(&["Player.sav", "state.sav "])),
        Err(DecodeError::MissingRequiredEntry(EntryName::Player))
    );
}

#[test]
fn record_is_decoded_from_a_cursor_of_its_own() {
    let span: Dummy<2> = decode_record(EntryName::Player, vec![1, 2, 3]).ok().unwrap();
    assert_eq!(span.0, [1, 2]);
    let package: WorldSavePackage =
        decode_record(EntryName::WorldSavePackage, vec![4, 5]).ok().unwrap();
    assert_eq!(package.as_bytes(), &[4u8, 5][..]);
    assert_eq!(
        decode_record::<Dummy<2>>(EntryName::State, vec![1]).err(),
        Some(DecodeError::NestedDecodeError(
            EntryName::State,
            Box::new(DecodeError::TruncatedInput)
        ))
    );
}

#[test]
fn record_is_encoded_into_a_buffer_of_its_own() {
    assert_eq!(encode_record(EntryName::Player, &Dummy([1u8, 2, 3])), Ok(vec![1, 2, 3]));
    assert_eq!(encode_record(EntryName::State, &7u32), Ok(vec![7, 0, 0, 0]));
}

#[test]
fn records_are_read_from_an_opened_archive() {
    let archive = archive_of(&[
        ("player.sav", &PLAYER),
        ("state.sav", &STATE),
        ("WorldSavePackage.sav", &[3, 2, 1]),
    ]);
    let mut reader = zip::ZipArchive::new(std::io::Cursor::new(archive)).unwrap();
    let (player, state, world) =
        read_records::<Dummy<10>, WorldSavePackage>(&mut reader).ok().unwrap();
    assert_eq!(player.0, PLAYER);
    assert_eq!(state.as_bytes(), &STATE[..]);
    assert_eq!(world.unwrap().as_bytes(), &[3u8, 2, 1][..]);
}

#[test]
fn container_inside_a_record_is_decoded_too() {
    let inner = plain_file();
    let archive = archive_of(&[("player.sav", &inner), ("state.sav", &STATE)]);
    let file = save_file(MARKER, 12, &[], &archive);
    let game =
        Me1SaveGame::<Game, Dummy<10>>::deserialize(&mut SaveCursor::new(file)).ok().unwrap();
    assert_eq!(game.player.player.0, PLAYER);
    assert_eq!(game.player.archive_offset(), 15);
    let mut output = Vec::new();
    assert_eq!(game.serialize(&mut output), Ok(()));
    let again =
        Me1SaveGame::<Game, Dummy<10>>::deserialize(&mut SaveCursor::new(output)).ok().unwrap();
    assert_eq!(again.player.state.0, STATE);
}

#[test]
fn nested_container_error_carries_its_cause() {
    let inner = archive_of(&[("player.sav", &PLAYER)]);
    let inner = save_file(MARKER, 12, &[], &inner);
    let archive = archive_of(&[("player.sav", &inner), ("state.sav", &STATE)]);
    let file = save_file(MARKER, 12, &[], &archive);
    assert_eq!(
        Me1SaveGame::<Game, Dummy<10>>::deserialize(&mut SaveCursor::new(file)).err(),
        Some(DecodeError::NestedDecodeError(
            EntryName::Player,
            Box::new(DecodeError::MissingRequiredEntry(EntryName::State))
        ))
    );
}
