use vstd::prelude::*;

verus! {

/// The three records that the embedded archive of a save file can hold.
#[derive(Clone, Copy, Debug, PartialEq, Eq, Structural)]
pub enum EntryName {
    Player,
    State,
    WorldSavePackage,
}

impl EntryName {
    /// The name under which the record is stored in the archive.
    pub open spec fn name(self) -> Seq<char> {
        match self {
            EntryName::Player => "player.sav"@,
            EntryName::State => "state.sav"@,
            EntryName::WorldSavePackage => "WorldSavePackage.sav"@,
        }
    }

    pub fn as_str(&self) -> (s: &'static str)
        ensures
            s@ == self.name(),
    {
        match self {
            EntryName::Player => "player.sav",
            EntryName::State => "state.sav",
            EntryName::WorldSavePackage => "WorldSavePackage.sav",
        }
    }
}

/// The three archive names are pairwise different.
pub proof fn lemma_entry_names_distinct(a: EntryName, b: EntryName)
    ensures
        a.name() == b.name() <==> a == b,
{
    reveal_strlit("player.sav");
    reveal_strlit("state.sav");
    reveal_strlit("WorldSavePackage.sav");
    if a != b {
        assert(a.name().len() != b.name().len());
    }
}

/// Why a buffer could not be decoded.
#[derive(Debug, PartialEq, Eq)]
pub enum DecodeError {
    /// A read asked for more bytes than the cursor has left.
    TruncatedInput,
    /// The stored archive offset lies inside the twelve header bytes.
    InvalidOffset,
    /// The bytes behind the header are no readable archive.
    CorruptArchive,
    /// The archive lacks a record that every save file must hold.
    MissingRequiredEntry(EntryName),
    /// A record was found but its own decoder refused its bytes.
    NestedDecodeError(EntryName, Box<DecodeError>),
}

/// Why a value could not be encoded.
#[derive(Debug, PartialEq, Eq)]
pub enum EncodeError {
    /// The archive writer refused a record or could not finish the archive.
    ArchiveWrite,
    /// A record's own encoder failed.
    NestedEncodeError(EntryName, Box<EncodeError>),
}

} // verus!
