//! The canonical metadata vocabulary and its per-format key mapping.

use vstd::prelude::*;

verus! {

/// The concrete tag formats the library understands.
#[derive(Clone, Copy, Debug, PartialEq, Eq, Structural)]
pub enum TagType {
    /// APE tag items.
    Ape,
    /// ID3v2 frames.
    Id3v2,
    /// MP4 ilst atoms.
    Mp4,
    /// Opus comment headers.
    Opus,
    /// OGG Vorbis comments.
    Vorbis,
    /// FLAC VORBISCOMMENT blocks.
    Flac,
    /// RIFF INFO chunks.
    RiffInfo,
    /// AIFF text chunks.
    AiffText,
}

/// A canonical, format-independent metadata field.
#[derive(Clone, Copy, Debug, PartialEq, Eq, Structural)]
pub enum ItemKey {
    Title,
    Artist,
    Album,
    AlbumArtist,
    Year,
    TrackNumber,
    TrackTotal,
    DiscNumber,
    DiscTotal,
}

/// The native key a canonical field maps to in one format, or `None`
/// where the format has no representation for the field.
pub open spec fn native_key(key: ItemKey, tag_type: TagType) -> Option<Seq<char>> {
    match tag_type {
        TagType::Opus | TagType::Vorbis | TagType::Flac => match key {
            ItemKey::Title => Some("TITLE"@),
            ItemKey::Artist => Some("ARTIST"@),
            ItemKey::Album => Some("ALBUM"@),
            ItemKey::AlbumArtist => Some("ALBUMARTIST"@),
            ItemKey::Year => Some("DATE"@),
            ItemKey::TrackNumber => Some("TRACKNUMBER"@),
            ItemKey::TrackTotal => Some("TOTALTRACKS"@),
            ItemKey::DiscNumber => Some("DISCNUMBER"@),
            ItemKey::DiscTotal => Some("TOTALDISCS"@),
        },
        TagType::Ape => match key {
            ItemKey::Title => Some("Title"@),
            ItemKey::Artist => Some("Artist"@),
            ItemKey::Album => Some("Album"@),
            ItemKey::AlbumArtist => Some("Album Artist"@),
            ItemKey::Year => Some("Year"@),
            ItemKey::TrackNumber => Some("Track"@),
            ItemKey::TrackTotal => None,
            ItemKey::DiscNumber => Some("Disc"@),
            ItemKey::DiscTotal => None,
        },
        TagType::Id3v2 => match key {
            ItemKey::Title => Some("TIT2"@),
            ItemKey::Artist => Some("TPE1"@),
            ItemKey::Album => Some("TALB"@),
            ItemKey::AlbumArtist => Some("TPE2"@),
            ItemKey::Year => Some("TYER"@),
            ItemKey::TrackNumber => Some("TRCK"@),
            ItemKey::TrackTotal => None,
            ItemKey::DiscNumber => Some("TPOS"@),
            ItemKey::DiscTotal => None,
        },
        TagType::Mp4 => match key {
            ItemKey::Title => Some("\u{a9}nam"@),
            ItemKey::Artist => Some("\u{a9}ART"@),
            ItemKey::Album => Some("\u{a9}alb"@),
            ItemKey::AlbumArtist => Some("aART"@),
            ItemKey::Year => Some("\u{a9}day"@),
            ItemKey::TrackNumber => Some("trkn"@),
            ItemKey::TrackTotal => None,
            ItemKey::DiscNumber => Some("disk"@),
            ItemKey::DiscTotal => None,
        },
        TagType::RiffInfo => match key {
            ItemKey::Title => Some("INAM"@),
            ItemKey::Artist => Some("IART"@),
            ItemKey::Album => Some("IPRD"@),
            ItemKey::AlbumArtist => None,
            ItemKey::Year => Some("ICRD"@),
            ItemKey::TrackNumber => Some("ITRK"@),
            ItemKey::TrackTotal => None,
            ItemKey::DiscNumber => None,
            ItemKey::DiscTotal => None,
        },
        TagType::AiffText => match key {
            ItemKey::Title => Some("NAME"@),
            ItemKey::Artist => Some("AUTH"@),
            ItemKey::Album => None,
            ItemKey::AlbumArtist => None,
            ItemKey::Year => None,
            ItemKey::TrackNumber => None,
            ItemKey::TrackTotal => None,
            ItemKey::DiscNumber => None,
            ItemKey::DiscTotal => None,
        },
    }
}

/// The field has a native representation in the format.
pub open spec fn mapping_defined(key: ItemKey, tag_type: TagType) -> bool {
    native_key(key, tag_type) is Some
}

/// Within one format, no two canonical fields map to the same native key:
/// a canonical write can never silently collide with another field.
#[verifier::rlimit(50)]
pub proof fn lemma_native_keys_unique(k1: ItemKey, k2: ItemKey, tag_type: TagType)
    requires
        k1 != k2,
        mapping_defined(k1, tag_type),
        mapping_defined(k2, tag_type),
    ensures
        native_key(k1, tag_type) != native_key(k2, tag_type),
{
    match tag_type {
        TagType::Opus | TagType::Vorbis | TagType::Flac => {
            reveal_strlit("TITLE");
            reveal_strlit("ARTIST");
            reveal_strlit("ALBUM");
            reveal_strlit("ALBUMARTIST");
            reveal_strlit("DATE");
            reveal_strlit("TRACKNUMBER");
            reveal_strlit("TOTALTRACKS");
            reveal_strlit("DISCNUMBER");
            reveal_strlit("TOTALDISCS");
            assert("TITLE"@.len() == 5 && "ARTIST"@.len() == 6 && "ALBUM"@.len() == 5
                && "ALBUMARTIST"@.len() == 11 && "DATE"@.len() == 4 && "TRACKNUMBER"@.len() == 11
                && "TOTALTRACKS"@.len() == 11 && "DISCNUMBER"@.len() == 10 && "TOTALDISCS"@.len()
                == 10);
            assert("TITLE"@[0] == 'T' && "ALBUM"@[0] == 'A' && "ALBUMARTIST"@[0] == 'A'
                && "TRACKNUMBER"@[0] == 'T' && "TOTALTRACKS"@[0] == 'T' && "DISCNUMBER"@[0] == 'D'
                && "TOTALDISCS"@[0] == 'T');
            assert("TRACKNUMBER"@[1] == 'R' && "TOTALTRACKS"@[1] == 'O' && "ALBUMARTIST"@[1]
                == 'L');
        },
        TagType::Ape => {
            reveal_strlit("Title");
            reveal_strlit("Artist");
            reveal_strlit("Album");
            reveal_strlit("Album Artist");
            reveal_strlit("Year");
            reveal_strlit("Track");
            reveal_strlit("Disc");
            assert("Title"@.len() == 5 && "Artist"@.len() == 6 && "Album"@.len() == 5
                && "Album Artist"@.len() == 12 && "Year"@.len() == 4 && "Track"@.len() == 5
                && "Disc"@.len() == 4);
            assert("Title"@[0] == 'T' && "Album"@[0] == 'A' && "Track"@[0] == 'T' && "Year"@[0]
                == 'Y' && "Disc"@[0] == 'D');
            assert("Title"@[1] == 'i' && "Track"@[1] == 'r');
        },
        TagType::Id3v2 => {
            reveal_strlit("TIT2");
            reveal_strlit("TPE1");
            reveal_strlit("TALB");
            reveal_strlit("TPE2");
            reveal_strlit("TYER");
            reveal_strlit("TRCK");
            reveal_strlit("TPOS");
            assert("TIT2"@[1] == 'I' && "TPE1"@[1] == 'P' && "TALB"@[1] == 'A' && "TPE2"@[1] == 'P'
                && "TYER"@[1] == 'Y' && "TRCK"@[1] == 'R' && "TPOS"@[1] == 'P');
            assert("TPE1"@[2] == 'E' && "TPE2"@[2] == 'E' && "TPOS"@[2] == 'O');
            assert("TPE1"@[3] == '1' && "TPE2"@[3] == '2');
        },
        TagType::Mp4 => {
            reveal_strlit("\u{a9}nam");
            reveal_strlit("\u{a9}ART");
            reveal_strlit("\u{a9}alb");
            reveal_strlit("aART");
            reveal_strlit("\u{a9}day");
            reveal_strlit("trkn");
            reveal_strlit("disk");
            assert("\u{a9}nam"@[0] == '\u{a9}' && "aART"@[0] == 'a' && "trkn"@[0] == 't'
                && "disk"@[0] == 'd');
            assert("\u{a9}nam"@[1] == 'n' && "\u{a9}ART"@[1] == 'A' && "\u{a9}alb"@[1] == 'a'
                && "\u{a9}day"@[1] == 'd');
        },
        TagType::RiffInfo => {
            reveal_strlit("INAM");
            reveal_strlit("IART");
            reveal_strlit("IPRD");
            reveal_strlit("ICRD");
            reveal_strlit("ITRK");
            assert("INAM"@[1] == 'N' && "IART"@[1] == 'A' && "IPRD"@[1] == 'P' && "ICRD"@[1] == 'C'
                && "ITRK"@[1] == 'T');
        },
        TagType::AiffText => {
            reveal_strlit("NAME");
            reveal_strlit("AUTH");
            assert("NAME"@[0] == 'N' && "AUTH"@[0] == 'A');
        },
    }
}

impl ItemKey {
    /// Maps this canonical field to its native key in `tag_type`;
    /// `None` means the format cannot represent the field.
    pub fn map_key(&self, tag_type: &TagType) -> (r: Option<&'static str>)
        ensures
            match r {
                Some(s) => native_key(*self, *tag_type) == Some(s@),
                None => native_key(*self, *tag_type) is None,
            },
    {
        match tag_type {
            TagType::Opus | TagType::Vorbis | TagType::Flac => match self {
                ItemKey::Title => Some("TITLE"),
                ItemKey::Artist => Some("ARTIST"),
                ItemKey::Album => Some("ALBUM"),
                ItemKey::AlbumArtist => Some("ALBUMARTIST"),
                ItemKey::Year => Some("DATE"),
                ItemKey::TrackNumber => Some("TRACKNUMBER"),
                ItemKey::TrackTotal => Some("TOTALTRACKS"),
                ItemKey::DiscNumber => Some("DISCNUMBER"),
                ItemKey::DiscTotal => Some("TOTALDISCS"),
            },
            TagType::Ape => match self {
                ItemKey::Title => Some("Title"),
                ItemKey::Artist => Some("Artist"),
                ItemKey::Album => Some("Album"),
                ItemKey::AlbumArtist => Some("Album Artist"),
                ItemKey::Year => Some("Year"),
                ItemKey::TrackNumber => Some("Track"),
                ItemKey::TrackTotal => None,
                ItemKey::DiscNumber => Some("Disc"),
                ItemKey::DiscTotal => None,
            },
            TagType::Id3v2 => match self {
                ItemKey::Title => Some("TIT2"),
                ItemKey::Artist => Some("TPE1"),
                ItemKey::Album => Some("TALB"),
                ItemKey::AlbumArtist => Some("TPE2"),
                ItemKey::Year => Some("TYER"),
                ItemKey::TrackNumber => Some("TRCK"),
                ItemKey::TrackTotal => None,
                ItemKey::DiscNumber => Some("TPOS"),
                ItemKey::DiscTotal => None,
            },
            TagType::Mp4 => match self {
                ItemKey::Title => Some("\u{a9}nam"),
                ItemKey::Artist => Some("\u{a9}ART"),
                ItemKey::Album => Some("\u{a9}alb"),
                ItemKey::AlbumArtist => Some("aART"),
                ItemKey::Year => Some("\u{a9}day"),
                ItemKey::TrackNumber => Some("trkn"),
                ItemKey::TrackTotal => None,
                ItemKey::DiscNumber => Some("disk"),
                ItemKey::DiscTotal => None,
            },
            TagType::RiffInfo => match self {
                ItemKey::Title => Some("INAM"),
                ItemKey::Artist => Some("IART"),
                ItemKey::Album => Some("IPRD"),
                ItemKey::AlbumArtist => None,
                ItemKey::Year => Some("ICRD"),
                ItemKey::TrackNumber => Some("ITRK"),
                ItemKey::TrackTotal => None,
                ItemKey::DiscNumber => None,
                ItemKey::DiscTotal => None,
            },
            TagType::AiffText => match self {
                ItemKey::Title => Some("NAME"),
                ItemKey::Artist => Some("AUTH"),
                ItemKey::Album => None,
                ItemKey::AlbumArtist => None,
                ItemKey::Year => None,
                ItemKey::TrackNumber => None,
                ItemKey::TrackTotal => None,
                ItemKey::DiscNumber => None,
                ItemKey::DiscTotal => None,
            },
        }
    }
}

} // verus!
