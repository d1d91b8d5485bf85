//! The format-independent pivot used to convert between tag formats.

use vstd::prelude::*;

use crate::num::{
    dec_digits, lemma_dec_digits_len, lemma_dec_digits_wf, lemma_parse_i32_of_digits,
    lemma_parse_u16_of_digits, pow10, trunc_u16, u16_trunc,
};
use crate::opus_tag::{
    album_artist_of, album_of, artist_of, disc_number_of, get_first_of, lookup, title_of,
    total_discs_of, total_tracks_of, track_number_of, year_of, Comment, OpusTag,
};
use crate::picture::Picture;

verus! {

/// The characters of an optional owned string.
pub open spec fn opt_string_view(o: Option<String>) -> Option<Seq<char>> {
    match o {
        Some(s) => Some(s@),
        None => None,
    }
}

/// The characters of each string in a list.
pub open spec fn string_views(v: Seq<String>) -> Seq<Seq<char>> {
    v.map_values(|s: String| s@)
}

/// The characters of an optional list of owned strings.
pub open spec fn opt_list_views(o: Option<Vec<String>>) -> Option<Seq<Seq<char>>> {
    match o {
        Some(v) => Some(string_views(v@)),
        None => None,
    }
}

/// The parts joined with `/` between them.
pub open spec fn join_slash(parts: Seq<Seq<char>>) -> Seq<char>
    decreases parts.len(),
{
    if parts.len() == 0 {
        Seq::empty()
    } else if parts.len() == 1 {
        parts[0]
    } else {
        parts[0] + "/"@ + join_slash(parts.drop_first())
    }
}

/// A fully materialized, format-independent snapshot of the common
/// metadata fields, the pivot of cross-format conversion. It is bound to
/// no format and carries no validity constraint; fields a source format
/// cannot produce stay absent, fields a destination format cannot store
/// are silently dropped.
#[derive(Debug)]
pub struct AnyTag {
    pub title: Option<String>,
    pub artists: Option<Vec<String>>,
    pub year: Option<i32>,
    pub album: Option<String>,
    pub album_artists: Option<Vec<String>>,
    pub cover: Option<Picture>,
    pub track_number: Option<u16>,
    pub total_tracks: Option<u16>,
    pub disc_number: Option<u16>,
    pub total_discs: Option<u16>,
}

impl Default for AnyTag {
    /// A snapshot with every field absent.
    fn default() -> (r: Self)
        ensures
            r.title is None,
            r.artists is None,
            r.year is None,
            r.album is None,
            r.album_artists is None,
            r.cover is None,
            r.track_number is None,
            r.total_tracks is None,
            r.disc_number is None,
            r.total_discs is None,
    {
        AnyTag {
            title: None,
            artists: None,
            year: None,
            album: None,
            album_artists: None,
            cover: None,
            track_number: None,
            total_tracks: None,
            disc_number: None,
            total_discs: None,
        }
    }
}

/// Joins the strings of `parts` from index `i` on with `/` between them.
fn join_from(parts: &Vec<String>, i: usize) -> (r: String)
    requires
        i < parts@.len(),
    ensures
        r@ == join_slash(string_views(parts@).subrange(i as int, parts@.len() as int)),
    decreases parts@.len() - i,
{
    let mut s: String = parts[i].clone();
    let ghost views = string_views(parts@);
    let ghost tail = views.subrange(i as int, views.len() as int);
    proof {
        assert(views[i as int] == parts@[i as int]@);
        assert(tail[0] == views[i as int]);
    }
    let last = parts.len() - 1;
    if i < last {
        s.append("/");
        let rest = join_from(parts, i + 1);
        s.append(rest.as_str());
        proof {
            assert(tail.drop_first() =~= views.subrange(i + 1, views.len() as int));
            assert(tail.len() >= 2);
            assert(join_slash(tail) == tail[0] + "/"@ + join_slash(tail.drop_first()));
        }
    } else {
        proof {
            assert(tail.len() == 1);
        }
    }
    s
}

impl AnyTag {
    /// The artist list joined into one string with `/` between entries.
    pub fn artists_as_string(&self) -> (r: Option<String>)
        ensures
            match self.artists {
                Some(v) => r matches Some(s) && s@ == join_slash(string_views(v@)),
                None => r is None,
            },
    {
        match &self.artists {
            Some(v) => {
                if v.len() == 0 {
                    proof {
                        assert(string_views(v@) =~= Seq::<Seq<char>>::empty());
                    }
                    Some(String::new())
                } else {
                    let joined = join_from(v, 0);
                    proof {
                        assert(string_views(v@).subrange(0, v@.len() as int) =~= string_views(v@));
                    }
                    Some(joined)
                }
            },
            None => None,
        }
    }

    /// The album-artist list joined into one string with `/` between
    /// entries.
    pub fn album_artists_as_string(&self) -> (r: Option<String>)
        ensures
            match self.album_artists {
                Some(v) => r matches Some(s) && s@ == join_slash(string_views(v@)),
                None => r is None,
            },
    {
        match &self.album_artists {
            Some(v) => {
                if v.len() == 0 {
                    proof {
                        assert(string_views(v@) =~= Seq::<Seq<char>>::empty());
                    }
                    Some(String::new())
                } else {
                    let joined = join_from(v, 0);
                    proof {
                        assert(string_views(v@).subrange(0, v@.len() as int) =~= string_views(v@));
                    }
                    Some(joined)
                }
            },
            None => None,
        }
    }
}

/// The snapshot `a` reads exactly the canonical fields of the comment
/// store `s`.
pub open spec fn represents(a: AnyTag, s: Seq<Comment>) -> bool {
    &&& opt_string_view(a.title) == title_of(s)
    &&& opt_list_views(a.artists) == match artist_of(s) {
        Some(x) => Some(seq![x]),
        None => None::<Seq<Seq<char>>>,
    }
    &&& a.year == match year_of(s) {
        Some(y) => Some(y as i32),
        None => None::<i32>,
    }
    &&& opt_string_view(a.album) == album_of(s)
    &&& opt_list_views(a.album_artists) == match album_artist_of(s) {
        Some(x) => Some(seq![x]),
        None => None::<Seq<Seq<char>>>,
    }
    &&& a.cover is None
    &&& a.track_number == track_number_of(s)
    &&& a.total_tracks == total_tracks_of(s)
    &&& a.disc_number == disc_number_of(s)
    &&& a.total_discs == total_discs_of(s)
}

/// The comment store `s` holds exactly what the canonical setters write
/// for each present field of the snapshot `a`, and nothing for the absent
/// ones.
pub open spec fn populated_from(s: Seq<Comment>, a: AnyTag) -> bool {
    &&& match a.title {
        Some(t) => lookup(s, "TITLE"@) == Some(t@),
        None => lookup(s, "TITLE"@) is None,
    }
    &&& match a.artists {
        Some(v) => lookup(s, "ARTIST"@) == Some(join_slash(string_views(v@))),
        None => lookup(s, "ARTIST"@) is None,
    }
    &&& match a.year {
        Some(y) => lookup(s, "DATE"@) == Some(dec_digits(u16_trunc(y as int) as nat)) && lookup(
            s,
            "YEAR"@,
        ) == Some(dec_digits(u16_trunc(y as int) as nat)),
        None => lookup(s, "DATE"@) is None && lookup(s, "YEAR"@) is None,
    }
    &&& match a.album {
        Some(t) => lookup(s, "ALBUM"@) == Some(t@),
        None => lookup(s, "ALBUM"@) is None,
    }
    &&& match a.album_artists {
        Some(v) => lookup(s, "ALBUMARTIST"@) == Some(join_slash(string_views(v@))),
        None => lookup(s, "ALBUMARTIST"@) is None,
    }
    &&& match a.track_number {
        Some(n) => lookup(s, "TRACKNUMBER"@) == Some(dec_digits(n as nat)),
        None => lookup(s, "TRACKNUMBER"@) is None,
    }
    &&& match a.total_tracks {
        Some(n) => lookup(s, "TOTALTRACKS"@) == Some(dec_digits(n as nat)),
        None => lookup(s, "TOTALTRACKS"@) is None,
    }
    &&& match a.disc_number {
        Some(n) => lookup(s, "DISCNUMBER"@) == Some(dec_digits(n as nat)),
        None => lookup(s, "DISCNUMBER"@) is None,
    }
    &&& match a.total_discs {
        Some(n) => lookup(s, "TOTALDISCS"@) == Some(dec_digits(n as nat)),
        None => lookup(s, "TOTALDISCS"@) is None,
    }
}

impl OpusTag {
    /// Reads every canonical field this format can produce into a fresh
    /// snapshot, leaving the adapter untouched.
    pub fn to_any(&self) -> (r: AnyTag)
        ensures
            represents(r, self.comments_seq()),
    {
        let title = match self.title() {
            Some(s) => Some(s.to_owned()),
            None => None,
        };
        let artists = match self.artist() {
            Some(s) => {
                let v = vec![s.to_owned()];
                proof {
                    assert(string_views(v@) =~= seq![s@]);
                }
                Some(v)
            },
            None => None,
        };
        let year = match self.year() {
            Some(y) => Some(y as i32),
            None => None,
        };
        let album = match self.album_title() {
            Some(s) => Some(s.to_owned()),
            None => None,
        };
        let album_artists = match self.album_artist() {
            Some(s) => {
                let v = vec![s.to_owned()];
                proof {
                    assert(string_views(v@) =~= seq![s@]);
                }
                Some(v)
            },
            None => None,
        };
        let track_number = self.track_number();
        let total_tracks = self.total_tracks();
        let disc_number = self.disc_number();
        let total_discs = self.total_discs();
        AnyTag {
            title,
            artists,
            year,
            album,
            album_artists,
            cover: None,
            track_number,
            total_tracks,
            disc_number,
            total_discs,
        }
    }

    /// Writes every present field of the snapshot into a fresh, empty
    /// adapter through the canonical setters; absent fields stay absent.
    pub fn from_any(any: &AnyTag) -> (r: Self)
        ensures
            r.inv(),
            populated_from(r.comments_seq(), *any),
    {
        let mut t = OpusTag::new();
        match &any.title {
            Some(v) => t.set_title(v.as_str()),
            None => {},
        }
        match any.artists_as_string() {
            Some(s) => t.set_artist(s.as_str()),
            None => {},
        }
        match any.year {
            Some(y) => t.set_year(trunc_u16(y)),
            None => {},
        }
        match &any.album {
            Some(v) => t.set_album_title(v.as_str()),
            None => {},
        }
        match any.album_artists_as_string() {
            Some(s) => t.set_album_artist(s.as_str()),
            None => {},
        }
        match any.track_number {
            Some(n) => t.set_track_number(n),
            None => {},
        }
        match any.total_tracks {
            Some(n) => t.set_total_tracks(n),
            None => {},
        }
        match any.disc_number {
            Some(n) => t.set_disc_number(n),
            None => {},
        }
        match any.total_discs {
            Some(n) => t.set_total_discs(n),
            None => {},
        }
        proof {
            lemma_field_keys_distinct();
        }
        t
    }
}

/// The native keys of the canonical fields are pairwise distinct.
proof fn lemma_field_keys_distinct()
    ensures
        "TITLE"@ != "ARTIST"@ && "TITLE"@ != "DATE"@ && "TITLE"@ != "YEAR"@ && "TITLE"@ != "ALBUM"@
            && "TITLE"@ != "ALBUMARTIST"@ && "TITLE"@ != "TRACKNUMBER"@ && "TITLE"@
            != "TOTALTRACKS"@ && "TITLE"@ != "DISCNUMBER"@ && "TITLE"@ != "TOTALDISCS"@,
        "ARTIST"@ != "DATE"@ && "ARTIST"@ != "YEAR"@ && "ARTIST"@ != "ALBUM"@ && "ARTIST"@
            != "ALBUMARTIST"@ && "ARTIST"@ != "TRACKNUMBER"@ && "ARTIST"@ != "TOTALTRACKS"@
            && "ARTIST"@ != "DISCNUMBER"@ && "ARTIST"@ != "TOTALDISCS"@,
        "DATE"@ != "YEAR"@ && "DATE"@ != "ALBUM"@ && "DATE"@ != "ALBUMARTIST"@ && "DATE"@
            != "TRACKNUMBER"@ && "DATE"@ != "TOTALTRACKS"@ && "DATE"@ != "DISCNUMBER"@ && "DATE"@
            != "TOTALDISCS"@,
        "YEAR"@ != "ALBUM"@ && "YEAR"@ != "ALBUMARTIST"@ && "YEAR"@ != "TRACKNUMBER"@ && "YEAR"@
            != "TOTALTRACKS"@ && "YEAR"@ != "DISCNUMBER"@ && "YEAR"@ != "TOTALDISCS"@,
        "ALBUM"@ != "ALBUMARTIST"@ && "ALBUM"@ != "TRACKNUMBER"@ && "ALBUM"@ != "TOTALTRACKS"@
            && "ALBUM"@ != "DISCNUMBER"@ && "ALBUM"@ != "TOTALDISCS"@,
        "ALBUMARTIST"@ != "TRACKNUMBER"@ && "ALBUMARTIST"@ != "TOTALTRACKS"@ && "ALBUMARTIST"@
            != "DISCNUMBER"@ && "ALBUMARTIST"@ != "TOTALDISCS"@,
        "TRACKNUMBER"@ != "TOTALTRACKS"@ && "TRACKNUMBER"@ != "DISCNUMBER"@ && "TRACKNUMBER"@
            != "TOTALDISCS"@,
        "TOTALTRACKS"@ != "DISCNUMBER"@ && "TOTALTRACKS"@ != "TOTALDISCS"@,
        "DISCNUMBER"@ != "TOTALDISCS"@,
{
    reveal_strlit("TITLE");
    reveal_strlit("ARTIST");
    reveal_strlit("DATE");
    reveal_strlit("YEAR");
    reveal_strlit("ALBUM");
    reveal_strlit("ALBUMARTIST");
    reveal_strlit("TRACKNUMBER");
    reveal_strlit("TOTALTRACKS");
    reveal_strlit("DISCNUMBER");
    reveal_strlit("TOTALDISCS");
    assert("TITLE"@[0] == 'T' && "ARTIST"@[0] == 'A' && "DATE"@[0] == 'D' && "YEAR"@[0] == 'Y'
        && "ALBUM"@[0] == 'A' && "ALBUMARTIST"@[0] == 'A' && "TRACKNUMBER"@[0] == 'T'
        && "TOTALTRACKS"@[0] == 'T' && "DISCNUMBER"@[0] == 'D' && "TOTALDISCS"@[0] == 'T');
    assert("TRACKNUMBER"@[1] == 'R' && "TOTALTRACKS"@[1] == 'O' && "TITLE"@[1] == 'I'
        && "ALBUM"@[1] == 'L' && "DISCNUMBER"@[1] == 'I' && "TOTALDISCS"@[1] == 'O');
    assert("TITLE"@.len() == 5 && "ARTIST"@.len() == 6 && "DATE"@.len() == 4 && "YEAR"@.len() == 4
        && "ALBUM"@.len() == 5 && "ALBUMARTIST"@.len() == 11 && "TRACKNUMBER"@.len() == 11
        && "TOTALTRACKS"@.len() == 11 && "DISCNUMBER"@.len() == 10 && "TOTALDISCS"@.len() == 10);
}

/// Round-trip idempotence: converting an Opus adapter to the pivot and
/// building a fresh Opus adapter back from that pivot reproduces every
/// canonical field the format carries. The year must not exceed four
/// digits: the date-like field stores it in full, but the canonical year
/// getter reads that field's first four characters only.
pub proof fn lemma_opus_round_trip(s: Seq<Comment>, a: AnyTag, s2: Seq<Comment>)
    requires
        represents(a, s),
        populated_from(s2, a),
        match year_of(s) {
            Some(y) => y <= 9999,
            None => true,
        },
    ensures
        title_of(s2) == title_of(s),
        artist_of(s2) == artist_of(s),
        year_of(s2) == year_of(s),
        album_of(s2) == album_of(s),
        album_artist_of(s2) == album_artist_of(s),
        track_number_of(s2) == track_number_of(s),
        total_tracks_of(s2) == total_tracks_of(s),
        disc_number_of(s2) == disc_number_of(s),
        total_discs_of(s2) == total_discs_of(s),
{
    match artist_of(s) {
        Some(x) => {
            let v = a.artists->Some_0;
            assert(string_views(v@) == seq![x]);
            assert(join_slash(string_views(v@)) == x);
        },
        None => {},
    }
    match album_artist_of(s) {
        Some(x) => {
            let v = a.album_artists->Some_0;
            assert(string_views(v@) == seq![x]);
            assert(join_slash(string_views(v@)) == x);
        },
        None => {},
    }
    match year_of(s) {
        Some(y) => {
            assert(a.year == Some(y as i32));
            assert(u16_trunc((y as i32) as int) == y);
            lemma_dec_digits_wf(y as nat);
            lemma_parse_i32_of_digits(y);
            reveal_with_fuel(pow10, 5);
            lemma_dec_digits_len(y as nat, 4);
            let d = dec_digits(y as nat);
            assert(get_first_of(s2, "DATE"@) == Some(d));
            assert(d.subrange(
                0,
                if d.len() < 4 {
                    d.len() as int
                } else {
                    4
                },
            ) =~= d);
            assert(year_of(s2) == Some(y));
        },
        None => {
            assert(get_first_of(s2, "DATE"@) is None);
            assert(get_first_of(s2, "YEAR"@) is None);
        },
    }
    match track_number_of(s) {
        Some(n) => {
            lemma_dec_digits_wf(n as nat);
            lemma_parse_u16_of_digits(n);
        },
        None => {},
    }
    match total_tracks_of(s) {
        Some(n) => {
            lemma_dec_digits_wf(n as nat);
            lemma_parse_u16_of_digits(n);
        },
        None => {},
    }
    match disc_number_of(s) {
        Some(n) => {
            lemma_dec_digits_wf(n as nat);
            lemma_parse_u16_of_digits(n);
        },
        None => {},
    }
    match total_discs_of(s) {
        Some(n) => {
            lemma_dec_digits_wf(n as nat);
            lemma_parse_u16_of_digits(n);
        },
        None => {},
    }
}

} // verus!
