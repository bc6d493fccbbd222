//! What holds of the codec as a whole, proved from the contracts of its
//! parts.

use vstd::prelude::*;
use crate::archive::{packed, reads_back, spec_open, Contents, Entry};
use crate::codec::{lemma_u32_le_round_trip, spec_u32_from_le, spec_u32_to_le, SaveData};
use crate::container::{
    archive_entries, spec_archive, spec_header, spec_records, Me1SaveGame, Me1SaveGameView,
};
use crate::error::{lemma_entry_names_distinct, DecodeError, EncodeError, EntryName};
use crate::opaque::{Dummy, WorldSavePackage};

verus! {

/// Whether the bytes written for `value`, once decoded, are written again as
/// they were.
pub open spec fn stable<T: SaveData>(value: T::V) -> bool {
    T::spec_serialize(value) matches Ok(bytes) ==> (T::spec_deserialize(bytes) matches Ok(
        (back, _),
    ) ==> T::spec_serialize(back) == Ok::<Seq<u8>, EncodeError>(bytes))
}

/// The records that encoding `value` hands to the archive writer, where
/// both required records can be encoded.
pub open spec fn written_entries<P: SaveData, S: SaveData>(
    value: Me1SaveGameView<P::V, S::V>,
) -> Seq<Entry> {
    archive_entries(
        P::spec_serialize(value.player)->Ok_0,
        S::spec_serialize(value.state)->Ok_0,
        value.world_package,
    )
}

/// A number is encoded as four bytes that decode to it.
pub proof fn lemma_u32_round_trip(value: u32)
    ensures
        u32::spec_serialize(value) matches Ok(bytes) && u32::spec_deserialize(bytes) == Ok::<
            (u32, nat),
            DecodeError,
        >((value, 4)),
        stable::<u32>(value),
{
    lemma_u32_le_round_trip(value);
    assert(spec_u32_to_le(value).take(4) =~= spec_u32_to_le(value));
}

/// A span of `LEN` bytes is encoded as itself and decodes to itself.
pub proof fn lemma_dummy_round_trip<const LEN: usize>(value: Seq<u8>)
    requires
        value.len() == LEN,
    ensures
        Dummy::<LEN>::spec_serialize(value) == Ok::<Seq<u8>, EncodeError>(value),
        Dummy::<LEN>::spec_deserialize(value) == Ok::<(Seq<u8>, nat), DecodeError>(
            (value, LEN as nat),
        ),
        stable::<Dummy<LEN>>(value),
{
    assert(value.take(LEN as int) =~= value);
}

/// A world record is encoded as itself and decodes to itself.
pub proof fn lemma_world_package_round_trip(value: Seq<u8>)
    ensures
        WorldSavePackage::spec_serialize(value) == Ok::<Seq<u8>, EncodeError>(value),
        WorldSavePackage::spec_deserialize(value) == Ok::<(Seq<u8>, nat), DecodeError>(
            (value, value.len()),
        ),
        stable::<WorldSavePackage>(value),
{
}

/// A decoded save file states as its archive offset the place where its
/// archive began: twelve bytes plus the length of the region before it.
pub proof fn lemma_decoded_is_wf<P: SaveData, S: SaveData>(
    input: Seq<u8>,
    game: Me1SaveGameView<P::V, S::V>,
)
    requires
        Me1SaveGame::<P, S>::spec_deserialize(input) matches Ok((value, _)) && value == game,
    ensures
        game.wf(),
        game.leading_marker == input.take(8),
        game.pre_archive_region == input.subrange(12, game.archive_offset as int),
{
}

/// The header of an encoded save file reads back as it was written, and
/// the archive begins where the header says.
pub proof fn lemma_header_reads_back<PV, SV>(game: Me1SaveGameView<PV, SV>, image: Seq<u8>)
    requires
        game.wf(),
    ensures
        spec_header(game.header_bytes() + image) == Ok::<(Seq<u8>, u32, Seq<u8>), DecodeError>(
            (game.leading_marker, game.archive_offset, game.pre_archive_region),
        ),
        (game.header_bytes() + image).skip(game.archive_offset as int) == image,
{
    let file = game.header_bytes() + image;
    lemma_u32_le_round_trip(game.archive_offset);
    assert(file.subrange(8, 12) =~= spec_u32_to_le(game.archive_offset));
    assert(file.take(8) =~= game.leading_marker);
    assert(file.subrange(12, game.archive_offset as int) =~= game.pre_archive_region);
    assert(file.skip(game.archive_offset as int) =~= image);
}

/// A well-formed save file that is encoded and decoded again has the
/// marker, the stated offset and the region that it had.
pub proof fn lemma_opaque_spans_preserved<P: SaveData, S: SaveData>(
    first: Me1SaveGameView<P::V, S::V>,
    file: Seq<u8>,
    second: Me1SaveGameView<P::V, S::V>,
)
    requires
        first.wf(),
        Me1SaveGame::<P, S>::spec_serialize(first) == Ok::<Seq<u8>, EncodeError>(file),
        Me1SaveGame::<P, S>::spec_deserialize(file) matches Ok((value, _)) && value == second,
    ensures
        second.leading_marker == first.leading_marker,
        second.archive_offset == first.archive_offset,
        second.pre_archive_region == first.pre_archive_region,
        second.header_bytes() == first.header_bytes(),
        second.wf(),
{
    let image = spec_archive::<P, S>(first)->Ok_0;
    lemma_header_reads_back(first, image);
}

/// Encode a well-formed save file, decode the bytes and encode again: the
/// same bytes come out, with the same world record. This is proved for save
/// files whose two required records are themselves stable and whose archive
/// shows a reader the records that were written into it.
pub proof fn lemma_stable_if_archive_reads_back<P: SaveData, S: SaveData>(
    first: Me1SaveGameView<P::V, S::V>,
    file: Seq<u8>,
    second: Me1SaveGameView<P::V, S::V>,
)
    requires
        first.wf(),
        stable::<P>(first.player),
        stable::<S>(first.state),
        reads_back(written_entries::<P, S>(first)),
        Me1SaveGame::<P, S>::spec_serialize(first) == Ok::<Seq<u8>, EncodeError>(file),
        Me1SaveGame::<P, S>::spec_deserialize(file) matches Ok((value, _)) && value == second,
    ensures
        Me1SaveGame::<P, S>::spec_serialize(second) == Ok::<Seq<u8>, EncodeError>(file),
        second.world_package == first.world_package,
        stable::<Me1SaveGame<P, S>>(first),
{
    let image = spec_archive::<P, S>(first)->Ok_0;
    let player = P::spec_serialize(first.player)->Ok_0;
    let state = S::spec_serialize(first.state)->Ok_0;
    let entries = archive_entries(player, state, first.world_package);
    lemma_header_reads_back(first, image);
    lemma_opaque_spans_preserved::<P, S>(first, file, second);
    let contents = spec_open(image)->Some_0;
    lemma_entry_names_distinct(EntryName::Player, EntryName::State);
    lemma_entry_names_distinct(EntryName::Player, EntryName::WorldSavePackage);
    lemma_entry_names_distinct(EntryName::State, EntryName::WorldSavePackage);
    assert(entries[0] == (EntryName::Player.name(), player));
    assert(entries[1] == (EntryName::State.name(), state));
    assert(contents.contains_key(entries[0].0));
    assert(contents.contains_key(entries[1].0));
    match first.world_package {
        Some(world) => {
            assert(entries[2] == (EntryName::WorldSavePackage.name(), world));
            assert(contents.contains_key(entries[2].0));
        },
        None => {
            assert(!contents.contains_key(EntryName::WorldSavePackage.name()));
        },
    }
}

/// A decoded save file has a world record exactly if its archive lists one,
/// and then holds the bytes of that record.
pub proof fn lemma_world_package_as_listed<P: SaveData, S: SaveData>(
    input: Seq<u8>,
    game: Me1SaveGameView<P::V, S::V>,
)
    requires
        Me1SaveGame::<P, S>::spec_deserialize(input) matches Ok((value, _)) && value == game,
    ensures
        spec_open(input.skip(game.archive_offset as int)) matches Some(contents) && (
        if contents.contains_key(EntryName::WorldSavePackage.name()) {
            contents[EntryName::WorldSavePackage.name()] == game.world_package
                && game.world_package is Some
        } else {
            game.world_package is None
        }),
{
}

/// The archive of a save file without a world record is made of the player
/// record and the state record, in this order, and of nothing else.
pub proof fn lemma_absent_world_package_not_written<P: SaveData, S: SaveData>(
    game: Me1SaveGameView<P::V, S::V>,
    file: Seq<u8>,
)
    requires
        game.world_package is None,
        Me1SaveGame::<P, S>::spec_serialize(game) == Ok::<Seq<u8>, EncodeError>(file),
    ensures
        written_entries::<P, S>(game).len() == 2,
        written_entries::<P, S>(game)[0].0 == EntryName::Player.name(),
        written_entries::<P, S>(game)[1].0 == EntryName::State.name(),
        packed(written_entries::<P, S>(game)) matches Some(image) && file == game.header_bytes()
            + image,
{
}

/// The archive of a save file with a world record holds that record third,
/// behind the player record and the state record.
pub proof fn lemma_present_world_package_written_last<P: SaveData, S: SaveData>(
    game: Me1SaveGameView<P::V, S::V>,
    file: Seq<u8>,
)
    requires
        game.world_package is Some,
        Me1SaveGame::<P, S>::spec_serialize(game) == Ok::<Seq<u8>, EncodeError>(file),
    ensures
        written_entries::<P, S>(game).len() == 3,
        written_entries::<P, S>(game)[0].0 == EntryName::Player.name(),
        written_entries::<P, S>(game)[1].0 == EntryName::State.name(),
        written_entries::<P, S>(game)[2] == (
            EntryName::WorldSavePackage.name(),
            game.world_package->Some_0,
        ),
        packed(written_entries::<P, S>(game)) matches Some(image) && file == game.header_bytes()
            + image,
{
}

/// An archive that does not list the player record, or lists it but not
/// the state record, is refused with the name of the first record that is
/// missing, whatever else it holds.
pub proof fn lemma_required_entries_enforced<P: SaveData, S: SaveData>(contents: Contents)
    ensures
        !contents.contains_key(EntryName::Player.name()) ==> spec_records::<P, S>(contents) == Err::<
            (P::V, S::V, Option<Seq<u8>>),
            DecodeError,
        >(DecodeError::MissingRequiredEntry(EntryName::Player)),
        contents.contains_key(EntryName::Player.name()) && !contents.contains_key(
            EntryName::State.name(),
        ) ==> spec_records::<P, S>(contents) == Err::<
            (P::V, S::V, Option<Seq<u8>>),
            DecodeError,
        >(DecodeError::MissingRequiredEntry(EntryName::State)),
{
}

/// Where the header of a file is sound and its archive opens but lacks a
/// required record, decoding fails with `MissingRequiredEntry`.
pub proof fn lemma_missing_entry_fails_decoding<P: SaveData, S: SaveData>(input: Seq<u8>)
    ensures
        match spec_header(input) {
            Ok((_, offset, _)) => match spec_open(input.skip(offset as int)) {
                Some(contents) => !contents.contains_key(EntryName::Player.name())
                    || !contents.contains_key(EntryName::State.name()) ==> Me1SaveGame::<
                    P,
                    S,
                >::spec_deserialize(input) matches Err(DecodeError::MissingRequiredEntry(_)),
                None => true,
            },
            Err(_) => true,
        },
{
}

/// A buffer that ends before its twelve header bytes, or before the offset
/// that these state for the archive, is refused as truncated.
pub proof fn lemma_truncated_input<P: SaveData, S: SaveData>(input: Seq<u8>)
    requires
        input.len() < 12 || input.len() < spec_u32_from_le(input.subrange(8, 12)),
    ensures
        Me1SaveGame::<P, S>::spec_deserialize(input) == Err::<
            (Me1SaveGameView<P::V, S::V>, nat),
            DecodeError,
        >(DecodeError::TruncatedInput),
{
}

/// An offset that points into the header is refused as invalid.
pub proof fn lemma_invalid_offset<P: SaveData, S: SaveData>(input: Seq<u8>)
    requires
        input.len() >= 12,
        spec_u32_from_le(input.subrange(8, 12)) < 12,
    ensures
        Me1SaveGame::<P, S>::spec_deserialize(input) == Err::<
            (Me1SaveGameView<P::V, S::V>, nat),
            DecodeError,
        >(DecodeError::InvalidOffset),
{
}

} // verus!
