//! The save-file container: twelve header bytes, an uninterpreted region and
//! an embedded archive with the player record, the state record and, in
//! some files, a world record.

use vstd::prelude::*;
use vstd::slice::slice_to_vec;
use crate::archive::{
    add_entry, all_admitted, archive_contents, entry_names, extract_entry, finish_archive,
    has_entry, lemma_all_admitted_push, listed, new_writer, open_checked, packed, spec_open,
    writer_entries, Contents, Entry,
};
use crate::codec::{spec_u32_from_le, spec_u32_to_le, SaveData};
use crate::cursor::SaveCursor;
use crate::error::{DecodeError, EncodeError, EntryName};
use crate::opaque::{Dummy, WorldSavePackage};

verus! {

/// One decoded save file. `P` is the type of the player record, `S` that of
/// the state record; the container asks of them only that they can be
/// decoded and encoded.
#[derive(Clone)]
pub struct Me1SaveGame<P, S> {
    leading_marker: Dummy<8>,
    archive_offset: u32,
    pre_archive_region: Vec<u8>,
    pub player: P,
    pub state: S,
    world_package: Option<WorldSavePackage>,
}

/// A save file as a value: what `Me1SaveGame` stands for in contracts.
pub struct Me1SaveGameView<PV, SV> {
    /// The first eight bytes of the file.
    pub leading_marker: Seq<u8>,
    /// The offset of the archive as the file states it.
    pub archive_offset: u32,
    /// The bytes between the header and the archive.
    pub pre_archive_region: Seq<u8>,
    pub player: PV,
    pub state: SV,
    /// The bytes of the world record, where the file has one.
    pub world_package: Option<Seq<u8>>,
}

impl<PV, SV> Me1SaveGameView<PV, SV> {
    /// The stated offset is where the archive begins: behind the eight
    /// marker bytes, the four offset bytes and the region.
    pub open spec fn wf(self) -> bool {
        &&& self.leading_marker.len() == 8
        &&& self.archive_offset == 12 + self.pre_archive_region.len()
    }

    /// Everything that stands in front of the archive.
    pub open spec fn header_bytes(self) -> Seq<u8> {
        self.leading_marker + spec_u32_to_le(self.archive_offset) + self.pre_archive_region
    }
}

/// The records of an archive in the order in which they are written: the
/// player, the state and then the world record if there is one.
pub open spec fn archive_entries(player: Seq<u8>, state: Seq<u8>, world: Option<Seq<u8>>) -> Seq<
    Entry,
> {
    let required = seq![(EntryName::Player.name(), player), (EntryName::State.name(), state)];
    match world {
        Some(data) => required.push((EntryName::WorldSavePackage.name(), data)),
        None => required,
    }
}

/// The three header fields of a file, or the error with which the header is
/// refused.
pub open spec fn spec_header(input: Seq<u8>) -> Result<(Seq<u8>, u32, Seq<u8>), DecodeError> {
    if input.len() < 12 {
        Err(DecodeError::TruncatedInput)
    } else {
        let offset = spec_u32_from_le(input.subrange(8, 12));
        if offset < 12 {
            Err(DecodeError::InvalidOffset)
        } else if input.len() < offset {
            Err(DecodeError::TruncatedInput)
        } else {
            Ok((input.take(8), offset, input.subrange(12, offset as int)))
        }
    }
}

/// What decoding makes of one record's bytes: the value, or the decoder's
/// error under the record's name.
pub open spec fn spec_record<T: SaveData>(name: EntryName, data: Seq<u8>) -> Result<
    T::V,
    DecodeError,
> {
    match T::spec_deserialize(data) {
        Ok((value, _)) => Ok(value),
        Err(cause) => Err(DecodeError::NestedDecodeError(name, Box::new(cause))),
    }
}

/// The bytes of the record `name` in `contents`; a record that is not
/// listed or cannot be unpacked makes the archive corrupt.
pub open spec fn spec_extract(contents: Contents, name: EntryName) -> Result<
    Seq<u8>,
    DecodeError,
> {
    if contents.contains_key(name.name()) && contents[name.name()] is Some {
        Ok(contents[name.name()]->Some_0)
    } else {
        Err(DecodeError::CorruptArchive)
    }
}

/// The three records of an opened archive. Both required records must be
/// listed before either is unpacked; then the player record is unpacked and
/// decoded, then the state record, then the world record if it is listed.
pub open spec fn spec_records<P: SaveData, S: SaveData>(contents: Contents) -> Result<
    (P::V, S::V, Option<Seq<u8>>),
    DecodeError,
> {
    if !contents.contains_key(EntryName::Player.name()) {
        Err(DecodeError::MissingRequiredEntry(EntryName::Player))
    } else if !contents.contains_key(EntryName::State.name()) {
        Err(DecodeError::MissingRequiredEntry(EntryName::State))
    } else {
        match spec_extract(contents, EntryName::Player) {
            Err(e) => Err(e),
            Ok(player_data) => match spec_record::<P>(EntryName::Player, player_data) {
                Err(e) => Err(e),
                Ok(player) => match spec_extract(contents, EntryName::State) {
                    Err(e) => Err(e),
                    Ok(state_data) => match spec_record::<S>(EntryName::State, state_data) {
                        Err(e) => Err(e),
                        Ok(state) => if contents.contains_key(EntryName::WorldSavePackage.name()) {
                            match spec_extract(contents, EntryName::WorldSavePackage) {
                                Err(e) => Err(e),
                                Ok(world) => Ok((player, state, Some(world))),
                            }
                        } else {
                            Ok((player, state, None))
                        },
                    },
                },
            },
        }
    }
}

/// What encoding makes of one record: its bytes, or the encoder's error
/// under the record's name.
pub open spec fn spec_record_bytes<T: SaveData>(name: EntryName, value: T::V) -> Result<
    Seq<u8>,
    EncodeError,
> {
    match T::spec_serialize(value) {
        Ok(bytes) => Ok(bytes),
        Err(cause) => Err(EncodeError::NestedEncodeError(name, Box::new(cause))),
    }
}

/// The archive of a save file. The player record is encoded and written
/// before the state record is encoded, so a writer that refuses the player
/// record is reported before a state record that cannot be encoded.
pub open spec fn spec_archive<P: SaveData, S: SaveData>(
    value: Me1SaveGameView<P::V, S::V>,
) -> Result<Seq<u8>, EncodeError> {
    match spec_record_bytes::<P>(EntryName::Player, value.player) {
        Err(e) => Err(e),
        Ok(player) => if !all_admitted(seq![(EntryName::Player.name(), player)]) {
            Err(EncodeError::ArchiveWrite)
        } else {
            match spec_record_bytes::<S>(EntryName::State, value.state) {
                Err(e) => Err(e),
                Ok(state) => match packed(archive_entries(player, state, value.world_package)) {
                    Some(image) => Ok(image),
                    None => Err(EncodeError::ArchiveWrite),
                },
            }
        },
    }
}

/// Whether an archive with these names may be decoded: both required
/// records must be listed, the player record being looked for first. Where
/// they are, tells whether the world record is listed too.
pub open spec fn spec_survey(names: Seq<String>) -> Result<bool, DecodeError> {
    if !listed(names, EntryName::Player.name()) {
        Err(DecodeError::MissingRequiredEntry(EntryName::Player))
    } else if !listed(names, EntryName::State.name()) {
        Err(DecodeError::MissingRequiredEntry(EntryName::State))
    } else {
        Ok(listed(names, EntryName::WorldSavePackage.name()))
    }
}

/// Reads the marker, the archive offset and the region in front of the
/// archive; the cursor then stands where the archive begins.
pub fn read_header(cursor: &mut SaveCursor) -> (r: Result<(Dummy<8>, u32, Vec<u8>), DecodeError>)
    ensures
        final(cursor).buffer() == old(cursor).buffer(),
        match spec_header(old(cursor).remaining()) {
            Ok((marker, offset, region)) => {
                &&& r matches Ok(header)
                &&& header.0@ == marker
                &&& header.1 == offset
                &&& header.2@ == region
                &&& final(cursor).consumed() == old(cursor).consumed() + offset
                &&& final(cursor).remaining() == old(cursor).remaining().skip(offset as int)
            },
            Err(e) => r matches Err(err) && err == e,
        },
{
    let ghost input = cursor.remaining();
    let leading_marker = Dummy::<8>::deserialize(cursor)?;
    let archive_offset = u32::deserialize(cursor)?;
    if archive_offset < 12 {
        return Err(DecodeError::InvalidOffset);
    }
    let pre_archive_region = slice_to_vec(cursor.read((archive_offset - 12) as usize)?);
    proof {
        assert(input.skip(8).take(4) =~= input.subrange(8, 12));
        assert(input.skip(8).skip(4).take(archive_offset - 12) =~= input.subrange(
            12,
            archive_offset as int,
        ));
        assert(input.skip(8).skip(4).skip(archive_offset - 12) =~= input.skip(
            archive_offset as int,
        ));
    }
    Ok((leading_marker, archive_offset, pre_archive_region))
}

/// Appends the marker, the archive offset as it is given and the region.
pub fn write_header(marker: &Dummy<8>, offset: u32, region: &[u8], output: &mut Vec<u8>)
    ensures
        final(output)@ == old(output)@ + (marker@ + spec_u32_to_le(offset) + region@),
{
    let _ = marker.serialize(output);
    let _ = offset.serialize(output);
    output.extend_from_slice(region);
    assert(output@ =~= old(output)@ + (marker@ + spec_u32_to_le(offset) + region@));
}

/// Looks for the required records among the names of an archive and tells
/// whether the world record is there as well.
pub fn survey_entries(names: &Vec<String>) -> (r: Result<bool, DecodeError>)
    ensures
        r == spec_survey(names@),
{
    if !has_entry(names, EntryName::Player.as_str()) {
        return Err(DecodeError::MissingRequiredEntry(EntryName::Player));
    }
    if !has_entry(names, EntryName::State.as_str()) {
        return Err(DecodeError::MissingRequiredEntry(EntryName::State));
    }
    Ok(has_entry(names, EntryName::WorldSavePackage.as_str()))
}

/// Decodes the bytes of the record `name` with a cursor of their own.
pub fn decode_record<T: SaveData>(name: EntryName, data: Vec<u8>) -> (r: Result<T, DecodeError>)
    ensures
        match spec_record::<T>(name, data@) {
            Ok(value) => r matches Ok(v) && v@ == value,
            Err(e) => r matches Err(err) && err == e,
        },
{
    let mut cursor = SaveCursor::new(data);
    match T::deserialize(&mut cursor) {
        Ok(value) => Ok(value),
        Err(cause) => Err(DecodeError::NestedDecodeError(name, Box::new(cause))),
    }
}

/// Unpacks the record `name`.
fn unpack_record(
    archive: &mut zip::ZipArchive<std::io::Cursor<Vec<u8>>>,
    name: EntryName,
) -> (r: Result<Vec<u8>, DecodeError>)
    ensures
        archive_contents(*final(archive)) == archive_contents(*old(archive)),
        match spec_extract(archive_contents(*old(archive)), name) {
            Ok(data) => r matches Ok(v) && v@ == data,
            Err(e) => r matches Err(err) && err == e,
        },
{
    match extract_entry(archive, name.as_str()) {
        Ok(data) => Ok(data),
        Err(_) => Err(DecodeError::CorruptArchive),
    }
}

/// Reads the three records out of an opened archive.
pub fn read_records<P: SaveData, S: SaveData>(
    archive: &mut zip::ZipArchive<std::io::Cursor<Vec<u8>>>,
) -> (r: Result<(P, S, Option<WorldSavePackage>), DecodeError>)
    ensures
        archive_contents(*final(archive)) == archive_contents(*old(archive)),
        match spec_records::<P, S>(archive_contents(*old(archive))) {
            Ok((player, state, world)) => {
                &&& r matches Ok(records)
                &&& records.0@ == player
                &&& records.1@ == state
                &&& match world {
                    Some(data) => records.2 matches Some(package) && package@ == data,
                    None => records.2 is None,
                }
            },
            Err(e) => r matches Err(err) && err == e,
        },
{
    let names = entry_names(archive);
    let has_world = survey_entries(&names)?;
    let player_data = unpack_record(archive, EntryName::Player)?;
    let player: P = decode_record(EntryName::Player, player_data)?;
    let state_data = unpack_record(archive, EntryName::State)?;
    let state: S = decode_record(EntryName::State, state_data)?;
    let world = if has_world {
        let world_data = unpack_record(archive, EntryName::WorldSavePackage)?;
        let package: WorldSavePackage = decode_record(EntryName::WorldSavePackage, world_data)?;
        Some(package)
    } else {
        None
    };
    Ok((player, state, world))
}

/// Encodes the record `name` into a buffer of its own.
pub fn encode_record<T: SaveData>(name: EntryName, value: &T) -> (r: Result<Vec<u8>, EncodeError>)
    ensures
        match spec_record_bytes::<T>(name, value@) {
            Ok(bytes) => r matches Ok(data) && data@ == bytes,
            Err(e) => r matches Err(err) && err == e,
        },
{
    let mut data: Vec<u8> = Vec::new();
    match value.serialize(&mut data) {
        Ok(()) => {
            assert(data@ =~= Seq::<u8>::empty() + T::spec_serialize(value@)->Ok_0);
            Ok(data)
        },
        Err(cause) => Err(EncodeError::NestedEncodeError(name, Box::new(cause))),
    }
}

impl<P: SaveData, S: SaveData> Me1SaveGame<P, S> {
    pub fn leading_marker(&self) -> (marker: &Dummy<8>)
        ensures
            marker@ == self@.leading_marker,
    {
        &self.leading_marker
    }

    pub fn archive_offset(&self) -> (offset: u32)
        ensures
            offset == self@.archive_offset,
    {
        self.archive_offset
    }

    pub fn pre_archive_region(&self) -> (region: &[u8])
        ensures
            region@ == self@.pre_archive_region,
    {
        self.pre_archive_region.as_slice()
    }

    pub fn player(&self) -> (player: &P)
        ensures
            player@ == self@.player,
    {
        &self.player
    }

    pub fn state(&self) -> (state: &S)
        ensures
            state@ == self@.state,
    {
        &self.state
    }

    pub fn world_package(&self) -> (package: Option<&WorldSavePackage>)
        ensures
            match package {
                Some(p) => self@.world_package == Some(p@),
                None => self@.world_package is None,
            },
    {
        self.world_package.as_ref()
    }
}

impl<P: SaveData, S: SaveData> View for Me1SaveGame<P, S> {
    type V = Me1SaveGameView<P::V, S::V>;

    closed spec fn view(&self) -> Self::V {
        Me1SaveGameView {
            leading_marker: self.leading_marker@,
            archive_offset: self.archive_offset,
            pre_archive_region: self.pre_archive_region@,
            player: self.player@,
            state: self.state@,
            world_package: match self.world_package {
                Some(package) => Some(package@),
                None => None,
            },
        }
    }
}

impl<P: SaveData, S: SaveData> SaveData for Me1SaveGame<P, S> {
    open spec fn spec_deserialize(input: Seq<u8>) -> Result<
        (Me1SaveGameView<P::V, S::V>, nat),
        DecodeError,
    > {
        match spec_header(input) {
            Err(e) => Err(e),
            Ok((marker, offset, region)) => match spec_open(input.skip(offset as int)) {
                None => Err(DecodeError::CorruptArchive),
                Some(contents) => match spec_records::<P, S>(contents) {
                    Err(e) => Err(e),
                    Ok((player, state, world)) => Ok(
                        (
                            Me1SaveGameView {
                                leading_marker: marker,
                                archive_offset: offset,
                                pre_archive_region: region,
                                player,
                                state,
                                world_package: world,
                            },
                            input.len(),
                        ),
                    ),
                },
            },
        }
    }

    open spec fn spec_serialize(value: Me1SaveGameView<P::V, S::V>) -> Result<
        Seq<u8>,
        EncodeError,
    > {
        match spec_archive::<P, S>(value) {
            Ok(image) => Ok(value.header_bytes() + image),
            Err(e) => Err(e),
        }
    }

    /// Decodes a whole save file from the bytes that `cursor` has left. The
    /// value that comes out states as its offset the place where its archive
    /// began.
    fn deserialize(cursor: &mut SaveCursor) -> (r: Result<Self, DecodeError>)
        ensures
            r matches Ok(game) ==> game@.wf(),
    {
        let ghost input = cursor.remaining();
        let (leading_marker, archive_offset, pre_archive_region) = read_header(cursor)?;
        let archive_bytes = slice_to_vec(cursor.read_to_end());
        proof {
            assert(input.skip(archive_offset as int).skip(input.len() - archive_offset)
                =~= input.skip(input.len() as int));
        }
        let mut archive = open_checked(archive_bytes)?;
        let (player, state, world_package) = read_records::<P, S>(&mut archive)?;
        Ok(
            Me1SaveGame {
                leading_marker,
                archive_offset,
                pre_archive_region,
                player,
                state,
                world_package,
            },
        )
    }

    /// Appends the header and then the archive to `output`. When a record
    /// cannot be encoded or the archive cannot be written, `output` has
    /// grown by the header alone.
    fn serialize(&self, output: &mut Vec<u8>) -> (r: Result<(), EncodeError>)
        ensures
            r is Err ==> final(output)@ == old(output)@ + self@.header_bytes(),
    {
        write_header(
            &self.leading_marker,
            self.archive_offset,
            self.pre_archive_region.as_slice(),
            output,
        );

        let writer = new_writer();
        let ghost none = Seq::<Entry>::empty();
        let player_data = encode_record(EntryName::Player, &self.player)?;
        let ghost one = none.push((EntryName::Player.name(), player_data@));
        proof {
            lemma_all_admitted_push(none, EntryName::Player.name(), player_data@);
            assert(one =~= seq![(EntryName::Player.name(), player_data@)]);
        }
        let writer = match add_entry(writer, EntryName::Player.as_str(), player_data.as_slice()) {
            Ok(writer) => writer,
            Err(_) => {
                return Err(EncodeError::ArchiveWrite);
            },
        };
        let state_data = encode_record(EntryName::State, &self.state)?;
        let ghost two = one.push((EntryName::State.name(), state_data@));
        let ghost entries = archive_entries(player_data@, state_data@, self@.world_package);
        proof {
            lemma_all_admitted_push(one, EntryName::State.name(), state_data@);
            assert(two =~= archive_entries(player_data@, state_data@, None));
            if let Some(world) = self@.world_package {
                lemma_all_admitted_push(two, EntryName::WorldSavePackage.name(), world);
            }
        }
        let writer = match add_entry(writer, EntryName::State.as_str(), state_data.as_slice()) {
            Ok(writer) => writer,
            Err(_) => {
                return Err(EncodeError::ArchiveWrite);
            },
        };
        let writer = match &self.world_package {
            Some(package) => {
                let world_data = encode_record(EntryName::WorldSavePackage, package)?;
                match add_entry(
                    writer,
                    EntryName::WorldSavePackage.as_str(),
                    world_data.as_slice(),
                ) {
                    Ok(writer) => writer,
                    Err(_) => {
                        return Err(EncodeError::ArchiveWrite);
                    },
                }
            },
            None => writer,
        };
        assert(writer_entries(writer) == entries && all_admitted(entries));
        let image = match finish_archive(writer) {
            Ok(image) => image,
            Err(_) => {
                return Err(EncodeError::ArchiveWrite);
            },
        };
        output.extend_from_slice(image.as_slice());
        Ok(())
    }
}

} // verus!
