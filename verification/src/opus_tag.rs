//! The Opus comment-header adapter.
//!
//! An Opus comment header stores metadata as a list of key/value text
//! entries plus a vendor string. The adapter keeps one entry per key and
//! exposes the canonical field vocabulary over that store.

use vstd::prelude::*;

use crate::num::{
    dec_digits, lemma_dec_digits_len, lemma_dec_digits_wf, lemma_parse_i32_of_digits,
    lemma_parse_u16_of_digits, parse_i32, parse_i32_spec, parse_u16, parse_u16_spec, pow10,
    trunc_u16, u16_to_string, u16_trunc,
};
use crate::picture::Picture;
use crate::search::{
    first_where, lemma_first_where_at, lemma_first_where_props, lemma_first_where_push,
    lemma_first_where_remove,
};

verus! {

/// One native comment entry: a key/value pair of text.
#[derive(Clone, Debug)]
pub struct Comment {
    pub key: String,
    pub value: String,
}

/// The comment entries carrying `key` as their key.
pub open spec fn comment_with_key(key: Seq<char>) -> spec_fn(Comment) -> bool {
    |c: Comment| c.key@ == key
}

/// The value stored under `key`, if any entry carries it.
pub open spec fn lookup(s: Seq<Comment>, key: Seq<char>) -> Option<Seq<char>> {
    match first_where(s, comment_with_key(key)) {
        Some(i) => Some(s[i].value@),
        None => None,
    }
}

/// The value a canonical getter sees under `key`: an entry whose stored
/// value is empty reads as absent.
pub open spec fn get_first_of(s: Seq<Comment>, key: Seq<char>) -> Option<Seq<char>> {
    match lookup(s, key) {
        Some(v) => if v.len() > 0 {
            Some(v)
        } else {
            None
        },
        None => None,
    }
}

/// An operation a format cannot perform at all, as opposed to a field
/// that is merely absent.
#[derive(Clone, Copy, Debug, PartialEq, Eq, Structural)]
pub enum Unsupported {
    /// Cover-art storage is not implemented for this format.
    CoverArt,
}

/// An Opus comment header: a vendor string plus key/value entries, at
/// most one entry per key.
#[derive(Debug)]
pub struct OpusTag {
    vendor: String,
    comments: Vec<Comment>,
}

impl OpusTag {
    /// The vendor string.
    pub closed spec fn vendor_view(&self) -> Seq<char> {
        self.vendor@
    }

    /// The comment entries, in storage order.
    pub closed spec fn comments_seq(&self) -> Seq<Comment> {
        self.comments@
    }

    /// Adapter invariant: no two entries share a key.
    pub open spec fn inv(&self) -> bool {
        forall|i: int, j: int|
            0 <= i < j < self.comments_seq().len() ==> (#[trigger] self.comments_seq()[i]).key@ != (
            #[trigger] self.comments_seq()[j]).key@
    }

    /// Creates an adapter over an empty comment header.
    pub fn new() -> (r: Self)
        ensures
            r.inv(),
            r.vendor_view() == Seq::<char>::empty(),
            r.comments_seq() == Seq::<Comment>::empty(),
    {
        Self { vendor: String::new(), comments: Vec::new() }
    }

    /// The vendor string.
    pub fn vendor(&self) -> (r: &str)
        ensures
            r@ == self.vendor_view(),
    {
        self.vendor.as_str()
    }

    /// The comment entries as a slice.
    pub fn comments(&self) -> (r: &[Comment])
        ensures
            r@ == self.comments_seq(),
    {
        self.comments.as_slice()
    }

    /// Returns the first non-empty value stored under `key`.
    pub fn get_first(&self, key: &str) -> (r: Option<&str>)
        ensures
            match r {
                Some(v) => get_first_of(self.comments_seq(), key@) == Some(v@),
                None => get_first_of(self.comments_seq(), key@) is None,
            },
    {
        let ghost pred = comment_with_key(key@);
        let n = self.comments.len();
        let mut i: usize = 0;
        while i < n
            invariant
                n == self.comments@.len(),
                0 <= i <= n,
                pred == comment_with_key(key@),
                forall|j: int| 0 <= j < i ==> !pred(#[trigger] self.comments@[j]),
            decreases n - i,
        {
            if str_eq(self.comments[i].key.as_str(), key) {
                proof {
                    assert(pred(self.comments@[i as int]));
                    lemma_first_where_at(self.comments@, pred, i as int);
                }
                let val = self.comments[i].value.as_str();
                if val.is_empty() {
                    return None;
                }
                return Some(val);
            }
            i += 1;
        }
        proof {
            lemma_first_where_at(self.comments@, pred, n as int);
        }
        None
    }

    /// Stores `val` under `key`: replaces the value of the entry carrying
    /// `key`, or appends a new entry where no entry carries it. Canonical
    /// setters rely on the entry being created when absent, so that
    /// setting a field of a freshly parsed or empty header takes effect.
    pub fn set_first(&mut self, key: &str, val: &str)
        requires
            old(self).inv(),
        ensures
            final (self).inv(),
            final (self).vendor_view() == old(self).vendor_view(),
            lookup(final (self).comments_seq(), key@) == Some(val@),
            forall|k2: Seq<char>|
                k2 != key@ ==> lookup(final (self).comments_seq(), k2) == lookup(
                    old(self).comments_seq(),
                    k2,
                ),
    {
        let ghost orig = self.comments@;
        let ghost pred = comment_with_key(key@);
        let n = self.comments.len();
        let mut i: usize = 0;
        while i < n
            invariant
                n == self.comments@.len(),
                0 <= i <= n,
                self == old(self),
                old(self).inv(),
                orig == old(self).comments@,
                pred == comment_with_key(key@),
                forall|j: int| 0 <= j < i ==> !pred(#[trigger] self.comments@[j]),
            decreases n - i,
        {
            if str_eq(self.comments[i].key.as_str(), key) {
                proof {
                    assert(pred(self.comments@[i as int]));
                    lemma_first_where_at(self.comments@, pred, i as int);
                }
                let entry = Comment { key: key.to_owned(), value: val.to_owned() };
                self.comments[i] = entry;
                proof {
                    lemma_comment_update(orig, entry, i as int);
                    let updated = self.comments@;
                    assert(updated == orig.update(i as int, entry));
                    assert forall|a: int, b: int|
                        0 <= a < b < updated.len() implies (#[trigger] updated[a]).key@ != (
                    #[trigger] updated[b]).key@ by {
                        assert(orig[a].key@ != orig[b].key@);
                        if a == i as int {
                            assert(orig[a].key@ == key@);
                            assert(updated[b] == orig[b]);
                        } else if b == i as int {
                            assert(orig[b].key@ == key@);
                            assert(updated[a] == orig[a]);
                        } else {
                            assert(updated[a] == orig[a] && updated[b] == orig[b]);
                        }
                    }
                }
                return ;
            }
            i += 1;
        }
        proof {
            lemma_first_where_at(self.comments@, pred, n as int);
        }
        let entry = Comment { key: key.to_owned(), value: val.to_owned() };
        self.comments.push(entry);
        proof {
            lemma_comment_push(orig, entry);
            assert forall|a: int, b: int|
                0 <= a < b < self.comments@.len() implies (#[trigger] self.comments@[a]).key@ != (
            #[trigger] self.comments@[b]).key@ by {
                if b < orig.len() {
                } else {
                    assert(self.comments@[b] == entry);
                    assert(!pred(orig[a]));
                }
            }
        }
    }

    /// Removes every entry stored under `key`.
    pub fn remove(&mut self, key: &str)
        requires
            old(self).inv(),
        ensures
            final (self).inv(),
            final (self).vendor_view() == old(self).vendor_view(),
            lookup(final (self).comments_seq(), key@) is None,
            forall|k2: Seq<char>|
                k2 != key@ ==> lookup(final (self).comments_seq(), k2) == lookup(
                    old(self).comments_seq(),
                    k2,
                ),
    {
        let ghost orig = self.comments@;
        let ghost pred = comment_with_key(key@);
        let n = self.comments.len();
        let mut i: usize = 0;
        while i < n
            invariant
                n == self.comments@.len(),
                0 <= i <= n,
                self == old(self),
                old(self).inv(),
                orig == old(self).comments@,
                pred == comment_with_key(key@),
                forall|j: int| 0 <= j < i ==> !pred(#[trigger] self.comments@[j]),
            decreases n - i,
        {
            if str_eq(self.comments[i].key.as_str(), key) {
                proof {
                    assert(pred(self.comments@[i as int]));
                    lemma_first_where_at(self.comments@, pred, i as int);
                }
                self.comments.remove(i);
                proof {
                    lemma_comment_remove_match(orig, key@, i as int);
                }
                return ;
            }
            i += 1;
        }
        proof {
            lemma_first_where_at(self.comments@, pred, n as int);
        }
    }
}

/// The title a canonical getter sees.
pub open spec fn title_of(s: Seq<Comment>) -> Option<Seq<char>> {
    get_first_of(s, "TITLE"@)
}

/// The artist a canonical getter sees.
pub open spec fn artist_of(s: Seq<Comment>) -> Option<Seq<char>> {
    get_first_of(s, "ARTIST"@)
}

/// The album title a canonical getter sees.
pub open spec fn album_of(s: Seq<Comment>) -> Option<Seq<char>> {
    get_first_of(s, "ALBUM"@)
}

/// The album artist a canonical getter sees.
pub open spec fn album_artist_of(s: Seq<Comment>) -> Option<Seq<char>> {
    get_first_of(s, "ALBUMARTIST"@)
}

/// A numeric field read from the value stored under `key`: absent when
/// the entry is absent, empty or not a decimal number in range.
pub open spec fn parsed_u16_field(s: Seq<Comment>, key: Seq<char>) -> Option<u16> {
    match get_first_of(s, key) {
        Some(v) => parse_u16_spec(v),
        None => None,
    }
}

/// The track number a canonical getter sees.
pub open spec fn track_number_of(s: Seq<Comment>) -> Option<u16> {
    parsed_u16_field(s, "TRACKNUMBER"@)
}

/// The track total a canonical getter sees. The key is a non-standard
/// extension: Opus comments have no standard field for it.
pub open spec fn total_tracks_of(s: Seq<Comment>) -> Option<u16> {
    parsed_u16_field(s, "TOTALTRACKS"@)
}

/// The disc number a canonical getter sees.
pub open spec fn disc_number_of(s: Seq<Comment>) -> Option<u16> {
    parsed_u16_field(s, "DISCNUMBER"@)
}

/// The disc total a canonical getter sees. The key is a non-standard
/// extension, like the track total's.
pub open spec fn total_discs_of(s: Seq<Comment>) -> Option<u16> {
    parsed_u16_field(s, "TOTALDISCS"@)
}

/// The year read from the dedicated year field alone.
pub open spec fn dedicated_year_of(s: Seq<Comment>) -> Option<u16> {
    match get_first_of(s, "YEAR"@) {
        Some(y) => match parse_i32_spec(y) {
            Some(v) => Some(u16_trunc(v as int)),
            None => None,
        },
        None => None,
    }
}

/// The year a canonical getter sees: the first four characters of the
/// date-like field parsed as a number, falling back to the dedicated year
/// field when the date-like field is absent or does not parse.
pub open spec fn year_of(s: Seq<Comment>) -> Option<u16> {
    match get_first_of(s, "DATE"@) {
        Some(d) => {
            let head = d.subrange(
                0,
                if d.len() < 4 {
                    d.len() as int
                } else {
                    4
                },
            );
            match parse_i32_spec(head) {
                Some(v) => Some(u16_trunc(v as int)),
                None => dedicated_year_of(s),
            }
        },
        None => dedicated_year_of(s),
    }
}

impl OpusTag {
    /// The title, if present and non-empty.
    pub fn title(&self) -> (r: Option<&str>)
        ensures
            match r {
                Some(v) => title_of(self.comments_seq()) == Some(v@),
                None => title_of(self.comments_seq()) is None,
            },
    {
        self.get_first("TITLE")
    }

    /// Sets the title.
    pub fn set_title(&mut self, title: &str)
        requires
            old(self).inv(),
        ensures
            final (self).inv(),
            final (self).vendor_view() == old(self).vendor_view(),
            lookup(final (self).comments_seq(), "TITLE"@) == Some(title@),
            forall|k2: Seq<char>|
                k2 != "TITLE"@ ==> lookup(final (self).comments_seq(), k2) == lookup(
                    old(self).comments_seq(),
                    k2,
                ),
    {
        self.set_first("TITLE", title);
    }

    /// Removes the title.
    pub fn remove_title(&mut self)
        requires
            old(self).inv(),
        ensures
            final (self).inv(),
            final (self).vendor_view() == old(self).vendor_view(),
            title_of(final (self).comments_seq()) is None,
            forall|k2: Seq<char>|
                k2 != "TITLE"@ ==> lookup(final (self).comments_seq(), k2) == lookup(
                    old(self).comments_seq(),
                    k2,
                ),
    {
        self.remove("TITLE");
    }

    /// The artist, if present and non-empty.
    pub fn artist(&self) -> (r: Option<&str>)
        ensures
            match r {
                Some(v) => artist_of(self.comments_seq()) == Some(v@),
                None => artist_of(self.comments_seq()) is None,
            },
    {
        self.get_first("ARTIST")
    }

    /// Sets the artist.
    pub fn set_artist(&mut self, artist: &str)
        requires
            old(self).inv(),
        ensures
            final (self).inv(),
            final (self).vendor_view() == old(self).vendor_view(),
            lookup(final (self).comments_seq(), "ARTIST"@) == Some(artist@),
            forall|k2: Seq<char>|
                k2 != "ARTIST"@ ==> lookup(final (self).comments_seq(), k2) == lookup(
                    old(self).comments_seq(),
                    k2,
                ),
    {
        self.set_first("ARTIST", artist);
    }

    /// Removes the artist.
    pub fn remove_artist(&mut self)
        requires
            old(self).inv(),
        ensures
            final (self).inv(),
            final (self).vendor_view() == old(self).vendor_view(),
            artist_of(final (self).comments_seq()) is None,
            forall|k2: Seq<char>|
                k2 != "ARTIST"@ ==> lookup(final (self).comments_seq(), k2) == lookup(
                    old(self).comments_seq(),
                    k2,
                ),
    {
        self.remove("ARTIST");
    }

    /// The album title, if present and non-empty.
    pub fn album_title(&self) -> (r: Option<&str>)
        ensures
            match r {
                Some(v) => album_of(self.comments_seq()) == Some(v@),
                None => album_of(self.comments_seq()) is None,
            },
    {
        self.get_first("ALBUM")
    }

    /// Sets the album title.
    pub fn set_album_title(&mut self, title: &str)
        requires
            old(self).inv(),
        ensures
            final (self).inv(),
            final (self).vendor_view() == old(self).vendor_view(),
            lookup(final (self).comments_seq(), "ALBUM"@) == Some(title@),
            forall|k2: Seq<char>|
                k2 != "ALBUM"@ ==> lookup(final (self).comments_seq(), k2) == lookup(
                    old(self).comments_seq(),
                    k2,
                ),
    {
        self.set_first("ALBUM", title);
    }

    /// Removes the album title.
    pub fn remove_album_title(&mut self)
        requires
            old(self).inv(),
        ensures
            final (self).inv(),
            final (self).vendor_view() == old(self).vendor_view(),
            album_of(final (self).comments_seq()) is None,
            forall|k2: Seq<char>|
                k2 != "ALBUM"@ ==> lookup(final (self).comments_seq(), k2) == lookup(
                    old(self).comments_seq(),
                    k2,
                ),
    {
        self.remove("ALBUM");
    }

    /// The album artist, if present and non-empty.
    pub fn album_artist(&self) -> (r: Option<&str>)
        ensures
            match r {
                Some(v) => album_artist_of(self.comments_seq()) == Some(v@),
                None => album_artist_of(self.comments_seq()) is None,
            },
    {
        self.get_first("ALBUMARTIST")
    }

    /// Sets the album artist.
    pub fn set_album_artist(&mut self, v: &str)
        requires
            old(self).inv(),
        ensures
            final (self).inv(),
            final (self).vendor_view() == old(self).vendor_view(),
            lookup(final (self).comments_seq(), "ALBUMARTIST"@) == Some(v@),
            forall|k2: Seq<char>|
                k2 != "ALBUMARTIST"@ ==> lookup(final (self).comments_seq(), k2) == lookup(
                    old(self).comments_seq(),
                    k2,
                ),
    {
        self.set_first("ALBUMARTIST", v);
    }

    /// Removes the album artist.
    pub fn remove_album_artist(&mut self)
        requires
            old(self).inv(),
        ensures
            final (self).inv(),
            final (self).vendor_view() == old(self).vendor_view(),
            album_artist_of(final (self).comments_seq()) is None,
            forall|k2: Seq<char>|
                k2 != "ALBUMARTIST"@ ==> lookup(final (self).comments_seq(), k2) == lookup(
                    old(self).comments_seq(),
                    k2,
                ),
    {
        self.remove("ALBUMARTIST");
    }

    /// The year read from the dedicated year field alone.
    fn year_from_dedicated(&self) -> (r: Option<u16>)
        ensures
            r == dedicated_year_of(self.comments_seq()),
    {
        match self.get_first("YEAR") {
            Some(y) => match parse_i32(y) {
                Some(v) => Some(trunc_u16(v)),
                None => None,
            },
            None => None,
        }
    }

    /// The year: the first four characters of the date-like field parsed
    /// as a number, falling back to the dedicated year field.
    pub fn year(&self) -> (r: Option<u16>)
        ensures
            r == year_of(self.comments_seq()),
    {
        match self.get_first("DATE") {
            Some(d) => {
                let dlen = d.unicode_len();
                let take: usize = if dlen < 4 {
                    dlen
                } else {
                    4
                };
                let head = d.substring_char(0, take);
                match parse_i32(head) {
                    Some(v) => Some(trunc_u16(v)),
                    None => self.year_from_dedicated(),
                }
            },
            None => self.year_from_dedicated(),
        }
    }

    /// Sets the year, populating both the date-like field and the
    /// dedicated year field so that readers of either convention see it.
    pub fn set_year(&mut self, year: u16)
        requires
            old(self).inv(),
        ensures
            final (self).inv(),
            final (self).vendor_view() == old(self).vendor_view(),
            lookup(final (self).comments_seq(), "DATE"@) == Some(dec_digits(year as nat)),
            lookup(final (self).comments_seq(), "YEAR"@) == Some(dec_digits(year as nat)),
            forall|k2: Seq<char>|
                k2 != "DATE"@ && k2 != "YEAR"@ ==> lookup(final (self).comments_seq(), k2)
                    == lookup(old(self).comments_seq(), k2),
            year <= 9999 ==> year_of(final (self).comments_seq()) == Some(year),
    {
        let rendered = u16_to_string(year);
        self.set_first("DATE", rendered.as_str());
        self.set_first("YEAR", rendered.as_str());
        proof {
            reveal_strlit("DATE");
            reveal_strlit("YEAR");
            assert("DATE"@[0] == 'D' && "YEAR"@[0] == 'Y');
            assert("DATE"@ != "YEAR"@);
            lemma_dec_digits_wf(year as nat);
            lemma_parse_i32_of_digits(year);
            if year <= 9999 {
                reveal_with_fuel(pow10, 5);
                lemma_dec_digits_len(year as nat, 4);
                let d = dec_digits(year as nat);
                assert(d.subrange(
                    0,
                    if d.len() < 4 {
                        d.len() as int
                    } else {
                        4
                    },
                ) =~= d);
                assert(u16_trunc(year as i32 as int) == year);
            }
        }
    }

    /// Removes the year from both fields that may carry it.
    pub fn remove_year(&mut self)
        requires
            old(self).inv(),
        ensures
            final (self).inv(),
            final (self).vendor_view() == old(self).vendor_view(),
            lookup(final (self).comments_seq(), "DATE"@) is None,
            lookup(final (self).comments_seq(), "YEAR"@) is None,
            year_of(final (self).comments_seq()) is None,
            forall|k2: Seq<char>|
                k2 != "DATE"@ && k2 != "YEAR"@ ==> lookup(final (self).comments_seq(), k2)
                    == lookup(old(self).comments_seq(), k2),
    {
        self.remove("YEAR");
        self.remove("DATE");
        proof {
            reveal_strlit("DATE");
            reveal_strlit("YEAR");
            assert("DATE"@[0] == 'D' && "YEAR"@[0] == 'Y');
            assert("DATE"@ != "YEAR"@);
        }
    }

    /// The track number, if present and numeric.
    pub fn track_number(&self) -> (r: Option<u16>)
        ensures
            r == track_number_of(self.comments_seq()),
    {
        match self.get_first("TRACKNUMBER") {
            Some(v) => parse_u16(v),
            None => None,
        }
    }

    /// Sets the track number, leaving the track total untouched.
    pub fn set_track_number(&mut self, v: u16)
        requires
            old(self).inv(),
        ensures
            final (self).inv(),
            final (self).vendor_view() == old(self).vendor_view(),
            lookup(final (self).comments_seq(), "TRACKNUMBER"@) == Some(dec_digits(v as nat)),
            track_number_of(final (self).comments_seq()) == Some(v),
            total_tracks_of(final (self).comments_seq()) == total_tracks_of(
                old(self).comments_seq(),
            ),
            forall|k2: Seq<char>|
                k2 != "TRACKNUMBER"@ ==> lookup(final (self).comments_seq(), k2) == lookup(
                    old(self).comments_seq(),
                    k2,
                ),
    {
        let rendered = u16_to_string(v);
        self.set_first("TRACKNUMBER", rendered.as_str());
        proof {
            reveal_strlit("TRACKNUMBER");
            reveal_strlit("TOTALTRACKS");
            assert("TRACKNUMBER"@[1] == 'R' && "TOTALTRACKS"@[1] == 'O');
            assert("TRACKNUMBER"@ != "TOTALTRACKS"@);
            lemma_dec_digits_wf(v as nat);
            lemma_parse_u16_of_digits(v);
        }
    }

    /// Removes the track number, leaving the track total untouched.
    pub fn remove_track_number(&mut self)
        requires
            old(self).inv(),
        ensures
            final (self).inv(),
            final (self).vendor_view() == old(self).vendor_view(),
            track_number_of(final (self).comments_seq()) is None,
            total_tracks_of(final (self).comments_seq()) == total_tracks_of(
                old(self).comments_seq(),
            ),
            forall|k2: Seq<char>|
                k2 != "TRACKNUMBER"@ ==> lookup(final (self).comments_seq(), k2) == lookup(
                    old(self).comments_seq(),
                    k2,
                ),
    {
        self.remove("TRACKNUMBER");
        proof {
            reveal_strlit("TRACKNUMBER");
            reveal_strlit("TOTALTRACKS");
            assert("TRACKNUMBER"@[1] == 'R' && "TOTALTRACKS"@[1] == 'O');
            assert("TRACKNUMBER"@ != "TOTALTRACKS"@);
        }
    }

    /// The track total, if present and numeric.
    pub fn total_tracks(&self) -> (r: Option<u16>)
        ensures
            r == total_tracks_of(self.comments_seq()),
    {
        match self.get_first("TOTALTRACKS") {
            Some(v) => parse_u16(v),
            None => None,
        }
    }

    /// Sets the track total, leaving the track number untouched.
    pub fn set_total_tracks(&mut self, v: u16)
        requires
            old(self).inv(),
        ensures
            final (self).inv(),
            final (self).vendor_view() == old(self).vendor_view(),
            lookup(final (self).comments_seq(), "TOTALTRACKS"@) == Some(dec_digits(v as nat)),
            total_tracks_of(final (self).comments_seq()) == Some(v),
            track_number_of(final (self).comments_seq()) == track_number_of(
                old(self).comments_seq(),
            ),
            forall|k2: Seq<char>|
                k2 != "TOTALTRACKS"@ ==> lookup(final (self).comments_seq(), k2) == lookup(
                    old(self).comments_seq(),
                    k2,
                ),
    {
        let rendered = u16_to_string(v);
        self.set_first("TOTALTRACKS", rendered.as_str());
        proof {
            reveal_strlit("TRACKNUMBER");
            reveal_strlit("TOTALTRACKS");
            assert("TRACKNUMBER"@[1] == 'R' && "TOTALTRACKS"@[1] == 'O');
            assert("TRACKNUMBER"@ != "TOTALTRACKS"@);
            lemma_dec_digits_wf(v as nat);
            lemma_parse_u16_of_digits(v);
        }
    }

    /// Removes the track total, leaving the track number untouched.
    pub fn remove_total_tracks(&mut self)
        requires
            old(self).inv(),
        ensures
            final (self).inv(),
            final (self).vendor_view() == old(self).vendor_view(),
            total_tracks_of(final (self).comments_seq()) is None,
            track_number_of(final (self).comments_seq()) == track_number_of(
                old(self).comments_seq(),
            ),
            forall|k2: Seq<char>|
                k2 != "TOTALTRACKS"@ ==> lookup(final (self).comments_seq(), k2) == lookup(
                    old(self).comments_seq(),
                    k2,
                ),
    {
        self.remove("TOTALTRACKS");
        proof {
            reveal_strlit("TRACKNUMBER");
            reveal_strlit("TOTALTRACKS");
            assert("TRACKNUMBER"@[1] == 'R' && "TOTALTRACKS"@[1] == 'O');
            assert("TRACKNUMBER"@ != "TOTALTRACKS"@);
        }
    }

    /// The disc number, if present and numeric.
    pub fn disc_number(&self) -> (r: Option<u16>)
        ensures
            r == disc_number_of(self.comments_seq()),
    {
        match self.get_first("DISCNUMBER") {
            Some(v) => parse_u16(v),
            None => None,
        }
    }

    /// Sets the disc number, leaving the disc total untouched.
    pub fn set_disc_number(&mut self, v: u16)
        requires
            old(self).inv(),
        ensures
            final (self).inv(),
            final (self).vendor_view() == old(self).vendor_view(),
            lookup(final (self).comments_seq(), "DISCNUMBER"@) == Some(dec_digits(v as nat)),
            disc_number_of(final (self).comments_seq()) == Some(v),
            total_discs_of(final (self).comments_seq()) == total_discs_of(
                old(self).comments_seq(),
            ),
            forall|k2: Seq<char>|
                k2 != "DISCNUMBER"@ ==> lookup(final (self).comments_seq(), k2) == lookup(
                    old(self).comments_seq(),
                    k2,
                ),
    {
        let rendered = u16_to_string(v);
        self.set_first("DISCNUMBER", rendered.as_str());
        proof {
            reveal_strlit("DISCNUMBER");
            reveal_strlit("TOTALDISCS");
            assert("DISCNUMBER"@[0] == 'D' && "TOTALDISCS"@[0] == 'T');
            assert("DISCNUMBER"@ != "TOTALDISCS"@);
            lemma_dec_digits_wf(v as nat);
            lemma_parse_u16_of_digits(v);
        }
    }

    /// Removes the disc number, leaving the disc total untouched.
    pub fn remove_disc_number(&mut self)
        requires
            old(self).inv(),
        ensures
            final (self).inv(),
            final (self).vendor_view() == old(self).vendor_view(),
            disc_number_of(final (self).comments_seq()) is None,
            total_discs_of(final (self).comments_seq()) == total_discs_of(
                old(self).comments_seq(),
            ),
            forall|k2: Seq<char>|
                k2 != "DISCNUMBER"@ ==> lookup(final (self).comments_seq(), k2) == lookup(
                    old(self).comments_seq(),
                    k2,
                ),
    {
        self.remove("DISCNUMBER");
        proof {
            reveal_strlit("DISCNUMBER");
            reveal_strlit("TOTALDISCS");
            assert("DISCNUMBER"@[0] == 'D' && "TOTALDISCS"@[0] == 'T');
            assert("DISCNUMBER"@ != "TOTALDISCS"@);
        }
    }

    /// The disc total, if present and numeric.
    pub fn total_discs(&self) -> (r: Option<u16>)
        ensures
            r == total_discs_of(self.comments_seq()),
    {
        match self.get_first("TOTALDISCS") {
            Some(v) => parse_u16(v),
            None => None,
        }
    }

    /// Sets the disc total, leaving the disc number untouched.
    pub fn set_total_discs(&mut self, v: u16)
        requires
            old(self).inv(),
        ensures
            final (self).inv(),
            final (self).vendor_view() == old(self).vendor_view(),
            lookup(final (self).comments_seq(), "TOTALDISCS"@) == Some(dec_digits(v as nat)),
            total_discs_of(final (self).comments_seq()) == Some(v),
            disc_number_of(final (self).comments_seq()) == disc_number_of(
                old(self).comments_seq(),
            ),
            forall|k2: Seq<char>|
                k2 != "TOTALDISCS"@ ==> lookup(final (self).comments_seq(), k2) == lookup(
                    old(self).comments_seq(),
                    k2,
                ),
    {
        let rendered = u16_to_string(v);
        self.set_first("TOTALDISCS", rendered.as_str());
        proof {
            reveal_strlit("DISCNUMBER");
            reveal_strlit("TOTALDISCS");
            assert("DISCNUMBER"@[0] == 'D' && "TOTALDISCS"@[0] == 'T');
            assert("DISCNUMBER"@ != "TOTALDISCS"@);
            lemma_dec_digits_wf(v as nat);
            lemma_parse_u16_of_digits(v);
        }
    }

    /// Removes the disc total, leaving the disc number untouched.
    pub fn remove_total_discs(&mut self)
        requires
            old(self).inv(),
        ensures
            final (self).inv(),
            final (self).vendor_view() == old(self).vendor_view(),
            total_discs_of(final (self).comments_seq()) is None,
            disc_number_of(final (self).comments_seq()) == disc_number_of(
                old(self).comments_seq(),
            ),
            forall|k2: Seq<char>|
                k2 != "TOTALDISCS"@ ==> lookup(final (self).comments_seq(), k2) == lookup(
                    old(self).comments_seq(),
                    k2,
                ),
    {
        self.remove("TOTALDISCS");
        proof {
            reveal_strlit("DISCNUMBER");
            reveal_strlit("TOTALDISCS");
            assert("DISCNUMBER"@[0] == 'D' && "TOTALDISCS"@[0] == 'T');
            assert("DISCNUMBER"@ != "TOTALDISCS"@);
        }
    }

    /// The cover picture. Cover storage is not implemented for this
    /// format, which is reported as such rather than as an absent cover.
    pub fn album_cover(&self) -> (r: Result<Option<Picture>, Unsupported>)
        ensures
            r == Err::<Option<Picture>, Unsupported>(Unsupported::CoverArt),
    {
        Err(Unsupported::CoverArt)
    }

    /// Sets the cover picture. Not implemented for this format; the
    /// header is left unchanged.
    pub fn set_album_cover(&mut self, cover: Picture) -> (r: Result<(), Unsupported>)
        ensures
            *final (self) == *old(self),
            r == Err::<(), Unsupported>(Unsupported::CoverArt),
    {
        let _ = cover;
        Err(Unsupported::CoverArt)
    }

    /// Removes the cover picture. Not implemented for this format; the
    /// header is left unchanged.
    pub fn remove_album_cover(&mut self) -> (r: Result<(), Unsupported>)
        ensures
            *final (self) == *old(self),
            r == Err::<(), Unsupported>(Unsupported::CoverArt),
    {
        Err(Unsupported::CoverArt)
    }
}

impl Default for OpusTag {
    /// An adapter over an empty comment header.
    fn default() -> (r: Self)
        ensures
            r.inv(),
            r.vendor_view() == Seq::<char>::empty(),
            r.comments_seq() == Seq::<Comment>::empty(),
    {
        Self::new()
    }
}

/// The value the last entry of `s` carrying `key` binds it to, if any.
pub open spec fn last_binding(s: Seq<Comment>, key: Seq<char>) -> Option<Seq<char>>
    decreases s.len(),
{
    if s.len() == 0 {
        None
    } else if s.last().key@ == key {
        Some(s.last().value@)
    } else {
        last_binding(s.drop_last(), key)
    }
}

impl OpusTag {
    /// Builds an adapter from a parsed header's vendor string and comment
    /// entries, keeping the last entry of each repeated key.
    pub fn from_entries(vendor: String, entries: &Vec<Comment>) -> (r: Self)
        ensures
            r.inv(),
            r.vendor_view() == vendor@,
            forall|k: Seq<char>| lookup(r.comments_seq(), k) == last_binding(entries@, k),
    {
        let ghost vv = vendor@;
        let mut t = Self { vendor, comments: Vec::new() };
        let n = entries.len();
        let mut i: usize = 0;
        proof {
            assert forall|k: Seq<char>| lookup(t.comments_seq(), k) == last_binding(
                entries@.subrange(0, 0),
                k,
            ) by {
                assert(entries@.subrange(0, 0).len() == 0);
            }
        }
        while i < n
            invariant
                n == entries@.len(),
                0 <= i <= n,
                t.inv(),
                t.vendor_view() == vv,
                forall|k: Seq<char>|
                    lookup(t.comments_seq(), k) == last_binding(
                        entries@.subrange(0, i as int),
                        k,
                    ),
            decreases n - i,
        {
            let entry = &entries[i];
            t.set_first(entry.key.as_str(), entry.value.as_str());
            proof {
                let prefix = entries@.subrange(0, i + 1);
                assert(prefix.drop_last() =~= entries@.subrange(0, i as int));
                assert(prefix.last() == entries@[i as int]);
                assert forall|k: Seq<char>| lookup(t.comments_seq(), k) == last_binding(
                    prefix,
                    k,
                ) by {
                    if k == entries@[i as int].key@ {
                        assert(last_binding(prefix, k) == Some(entries@[i as int].value@));
                    } else {
                        assert(last_binding(prefix, k) == last_binding(prefix.drop_last(), k));
                    }
                }
            }
            i += 1;
        }
        proof {
            assert(entries@.subrange(0, n as int) =~= entries@);
        }
        t
    }
}

/// The year falls back to the dedicated year field: where the date-like
/// field is absent and the dedicated field holds a rendered year, the
/// canonical getter still sees that year.
pub proof fn lemma_year_fallback(s: Seq<Comment>, y: u16)
    requires
        get_first_of(s, "DATE"@) is None,
        get_first_of(s, "YEAR"@) == Some(dec_digits(y as nat)),
    ensures
        year_of(s) == Some(y),
{
    lemma_parse_i32_of_digits(y);
    assert(u16_trunc(y as i32 as int) == y);
}

/// Where neither field that may carry a year is readable, the year is
/// absent.
pub proof fn lemma_year_absent(s: Seq<Comment>)
    requires
        get_first_of(s, "DATE"@) is None,
        get_first_of(s, "YEAR"@) is None,
    ensures
        year_of(s) is None,
{
}

/// Comparison of two text slices by their characters.
fn str_eq(a: &str, b: &str) -> (r: bool)
    ensures
        r == (a@ == b@),
{
    let sa: String = a.to_owned();
    let sb: String = b.to_owned();
    sa == sb
}

/// Appending an entry whose key is absent binds its key to its value and
/// leaves every other key's binding as it was.
proof fn lemma_comment_push(s: Seq<Comment>, entry: Comment)
    requires
        first_where(s, comment_with_key(entry.key@)) is None,
    ensures
        lookup(s.push(entry), entry.key@) == Some(entry.value@),
        forall|k2: Seq<char>| k2 != entry.key@ ==> lookup(s.push(entry), k2) == lookup(s, k2),
{
    lemma_first_where_push(s, comment_with_key(entry.key@), entry);
    assert(s.push(entry)[s.len() as int] == entry);
    assert forall|k2: Seq<char>| k2 != entry.key@ implies lookup(s.push(entry), k2) == lookup(
        s,
        k2,
    ) by {
        let pred2 = comment_with_key(k2);
        lemma_first_where_push(s, pred2, entry);
        lemma_first_where_props(s, pred2);
        match first_where(s, pred2) {
            Some(m) => {
                assert(s.push(entry)[m] == s[m]);
            },
            None => {
                assert(!pred2(entry));
            },
        }
    }
}

/// Replacing the first entry of a key with an entry of the same key
/// rebinds that key and leaves every other key's binding as it was.
proof fn lemma_comment_update(s: Seq<Comment>, entry: Comment, i: int)
    requires
        first_where(s, comment_with_key(entry.key@)) == Some(i),
        0 <= i < s.len(),
    ensures
        lookup(s.update(i, entry), entry.key@) == Some(entry.value@),
        forall|k2: Seq<char>| k2 != entry.key@ ==> lookup(s.update(i, entry), k2) == lookup(s, k2),
{
    let key = entry.key@;
    let pred = comment_with_key(key);
    let updated = s.update(i, entry);
    lemma_first_where_props(s, pred);
    assert forall|j: int| 0 <= j < i implies !pred(#[trigger] updated[j]) by {
        assert(updated[j] == s[j]);
    }
    assert(updated[i] == entry);
    lemma_first_where_at(updated, pred, i);
    assert forall|k2: Seq<char>| k2 != key implies lookup(updated, k2) == lookup(s, k2) by {
        let pred2 = comment_with_key(k2);
        assert forall|j: int| 0 <= j < s.len() implies pred2(#[trigger] s[j]) == pred2(
            #[trigger] updated[j],
        ) by {
            if j == i {
                assert(s[i].key@ == key);
                assert(updated[i].key@ == key);
            }
        }
        crate::search::lemma_first_where_agree(s, updated, pred2);
        lemma_first_where_props(s, pred2);
        match first_where(s, pred2) {
            Some(m) => {
                assert(s[m].key@ == k2);
                assert(m != i);
                assert(updated[m] == s[m]);
            },
            None => {},
        }
    }
}

/// Removing the one entry of a key, in a store whose keys are unique,
/// unbinds that key and leaves every other key's binding as it was.
proof fn lemma_comment_remove_match(s: Seq<Comment>, key: Seq<char>, i: int)
    requires
        0 <= i < s.len(),
        s[i].key@ == key,
        forall|a: int, b: int|
            0 <= a < b < s.len() ==> (#[trigger] s[a]).key@ != (#[trigger] s[b]).key@,
    ensures
        lookup(s.remove(i), key) is None,
        forall|k2: Seq<char>| k2 != key ==> lookup(s.remove(i), k2) == lookup(s, k2),
        forall|a: int, b: int|
            0 <= a < b < s.remove(i).len() ==> (#[trigger] s.remove(i)[a]).key@ != (
            #[trigger] s.remove(i)[b]).key@,
{
    let pred = comment_with_key(key);
    let t = s.remove(i);
    assert forall|j: int| 0 <= j < t.len() implies !pred(#[trigger] t[j]) by {
        if j < i {
            assert(t[j] == s[j]);
        } else {
            assert(t[j] == s[j + 1]);
        }
    }
    lemma_first_where_at(t, pred, t.len() as int);
    assert forall|k2: Seq<char>| k2 != key implies lookup(t, k2) == lookup(s, k2) by {
        let pred2 = comment_with_key(k2);
        assert(!pred2(s[i]));
        lemma_first_where_remove(s, pred2, i);
        lemma_first_where_props(s, pred2);
        match first_where(s, pred2) {
            Some(m) => {
                if m < i {
                    assert(t[m] == s[m]);
                } else {
                    assert(m != i);
                    assert(t[m - 1] == s[m]);
                }
            },
            None => {},
        }
    }
    assert forall|a: int, b: int|
        0 <= a < b < t.len() implies (#[trigger] t[a]).key@ != (#[trigger] t[b]).key@ by {
        let a2 = if a < i {
            a
        } else {
            a + 1
        };
        let b2 = if b < i {
            b
        } else {
            b + 1
        };
        assert(t[a] == s[a2]);
        assert(t[b] == s[b2]);
        assert(s[a2].key@ != s[b2].key@);
    }
}

} // verus!
