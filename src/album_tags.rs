//! The album as the configuration describes it, and its expansion into one
//! record per track.

use vstd::prelude::*;

use crate::config::ConfigError;
use crate::fs_utils::join_path;
use crate::text::opt_view;
use crate::toml_helpers::{
    first_fitting, get_i64_array, get_i64_value, get_single_or_array_string, get_string_array,
    get_string_value, integers_of, key_views, lemma_single_key, string_views, strings_of, Shape,
};
use crate::track_tags::TrackTags;
use crate::value::Table;

verus! {

/// One album, as resolved from its configuration.
#[derive(Debug, Clone)]
pub struct AlbumTags {
    pub album_name: Option<String>,
    pub artist_name: Option<String>,
    pub year: Option<u32>,
    pub genre: Vec<String>,
    pub picture_path: Option<String>,
    pub tracks: Vec<String>,
    pub disc_total: Option<u32>,
    pub tracks_per_disc: Option<Vec<u32>>,
}

/// The string that `t` holds under `key`, if it holds a string there.
pub open spec fn string_at(t: Table, key: Seq<char>) -> Option<Seq<char>> {
    match first_fitting(t, seq![key], Shape::Str) {
        Some(v) => Some(v->String_0@),
        None => None,
    }
}

/// The strings that `t` holds under `key`, if it holds an array of strings
/// there.
pub open spec fn strings_at(t: Table, key: Seq<char>) -> Option<Seq<Seq<char>>> {
    match first_fitting(t, seq![key], Shape::StrArray) {
        Some(v) => Some(strings_of(v)),
        None => None,
    }
}

/// The genres under `key`: a string or an array of strings; none for any
/// other value.
pub open spec fn genres_at(t: Table, key: Seq<char>) -> Seq<Seq<char>> {
    match first_fitting(t, seq![key], Shape::StrOrStrArray) {
        Some(v) => strings_of(v),
        None => Seq::empty(),
    }
}

/// Whether `n` can be held by a `u32`.
pub open spec fn fits_u32(n: int) -> bool {
    0 <= n <= u32::MAX
}

/// The count under `key`: an integer that fits in a `u32`.
pub open spec fn count_at(t: Table, key: Seq<char>) -> Option<u32> {
    match first_fitting(t, seq![key], Shape::Int) {
        Some(v) => if fits_u32(v->Integer_0 as int) {
            Some(v->Integer_0 as u32)
        } else {
            None
        },
        None => None,
    }
}

/// The counts under `key`: an array of integers that all fit in a `u32`.
pub open spec fn counts_at(t: Table, key: Seq<char>) -> Option<Seq<u32>> {
    match first_fitting(t, seq![key], Shape::IntArray) {
        Some(v) => {
            let ns = integers_of(v);
            if forall|i: int| 0 <= i < ns.len() ==> fits_u32(#[trigger] ns[i] as int) {
                Some(ns.map_values(|n: i64| n as u32))
            } else {
                None
            }
        },
        None => None,
    }
}

/// Whether `t` lists at least one track under `tracks`.
pub open spec fn has_tracks(t: Table) -> bool {
    strings_at(t, "tracks"@) matches Some(ts) && ts.len() > 0
}

impl AlbumTags {
    /// A resolved album has at least one track.
    pub open spec fn wf(&self) -> bool {
        self.tracks@.len() >= 1
    }

    /// Whether `self` is what `t` describes, with pictures resolved against
    /// `working_dir`.
    pub open spec fn describes(&self, t: Table, working_dir: Option<Seq<char>>) -> bool {
        &&& opt_view(self.album_name) == string_at(t, "album"@)
        &&& opt_view(self.artist_name) == string_at(t, "artist"@)
        &&& self.year == count_at(t, "year"@)
        &&& string_views(self.genre@) == genres_at(t, "genre"@)
        &&& (self.picture_path is Some <==> string_at(t, "picture"@) is Some && working_dir is Some)
        &&& strings_at(t, "tracks"@) == Some(string_views(self.tracks@))
        &&& self.disc_total == count_at(t, "disc_total"@)
        &&& match self.tracks_per_disc {
            Some(c) => counts_at(t, "tracks_per_disc"@) == Some(c@),
            None => counts_at(t, "tracks_per_disc"@) is None,
        }
    }

    /// Resolves an album from its configuration document.
    ///
    /// `tracks` must be a non-empty array of strings; every other field is
    /// optional and is left empty when it is missing or has the wrong shape.
    /// A picture path is resolved against `working_dir`; without one the
    /// album has no picture.
    pub fn from_toml(table: Table, working_dir: Option<String>) -> (r: Result<AlbumTags, ConfigError>)
        ensures
            has_tracks(table) ==> (r matches Ok(a) && a.wf() && a.describes(table, opt_view(working_dir))),
            !has_tracks(table) ==> (r matches Err(ConfigError::MissingKey(k)) && k@ == "tracks"@),
    {
        let tracks = match strings_under(&table, "tracks") {
            Some(ts) if ts.len() > 0 => ts,
            _ => {
                return Err(ConfigError::MissingKey(String::from_str("tracks")));
            },
        };
        let picture_path = match (string_under(&table, "picture"), &working_dir) {
            (Some(relative), Some(dir)) => Some(join_path(dir.as_str(), relative.as_str())),
            _ => None,
        };
        let tracks_per_disc = counts_under(&table, "tracks_per_disc");
        Ok(AlbumTags {
            album_name: string_under(&table, "album"),
            artist_name: string_under(&table, "artist"),
            year: count_under(&table, "year"),
            genre: genres_under(&table, "genre"),
            picture_path,
            tracks,
            disc_total: count_under(&table, "disc_total"),
            tracks_per_disc,
        })
    }
}

fn string_under(table: &Table, key: &str) -> (r: Option<String>)
    ensures
        opt_view(r) == string_at(*table, key@),
{
    let keys: &[&str] = &[key];
    assert(key_views(keys@) =~= seq![key@]);
    match get_string_value(table, keys) {
        Ok(s) => Some(s),
        Err(_) => None,
    }
}

fn strings_under(table: &Table, key: &str) -> (r: Option<Vec<String>>)
    ensures
        match r {
            Some(ts) => strings_at(*table, key@) == Some(string_views(ts@)),
            None => strings_at(*table, key@) is None,
        },
{
    let keys: &[&str] = &[key];
    assert(key_views(keys@) =~= seq![key@]);
    match get_string_array(table, keys) {
        Ok(ts) => Some(ts),
        Err(_) => None,
    }
}

fn genres_under(table: &Table, key: &str) -> (r: Vec<String>)
    ensures
        string_views(r@) == genres_at(*table, key@),
{
    let keys: &[&str] = &[key];
    assert(key_views(keys@) =~= seq![key@]);
    match get_single_or_array_string(table, keys) {
        Ok(gs) => gs,
        Err(_) => {
            let none: Vec<String> = Vec::new();
            assert(string_views(none@) =~= Seq::empty());
            none
        },
    }
}

fn count_under(table: &Table, key: &str) -> (r: Option<u32>)
    ensures
        r == count_at(*table, key@),
{
    let keys: &[&str] = &[key];
    assert(key_views(keys@) =~= seq![key@]);
    match get_i64_value(table, keys) {
        Ok(n) => if 0 <= n && n <= u32::MAX as i64 {
            Some(n as u32)
        } else {
            None
        },
        Err(_) => None,
    }
}

fn counts_under(table: &Table, key: &str) -> (r: Option<Vec<u32>>)
    ensures
        match r {
            Some(c) => counts_at(*table, key@) == Some(c@),
            None => counts_at(*table, key@) is None,
        },
{
    let keys: &[&str] = &[key];
    assert(key_views(keys@) =~= seq![key@]);
    let ns = match get_i64_array(table, keys) {
        Ok(ns) => ns,
        Err(_) => {
            return None;
        },
    };
    let ghost found = first_fitting(*table, seq![key@], Shape::IntArray);
    assert(found is Some && integers_of(found->0) == ns@);
    let mut counts: Vec<u32> = Vec::new();
    let mut i: usize = 0;
    while i < ns.len()
        invariant
            i <= ns@.len(),
            found == first_fitting(*table, seq![key@], Shape::IntArray),
            found is Some && integers_of(found->0) == ns@,
            counts@.len() == i,
            forall|j: int| 0 <= j < i ==> fits_u32(#[trigger] ns@[j] as int),
            forall|j: int| 0 <= j < i ==> #[trigger] counts@[j] == ns@[j] as u32,
        decreases ns@.len() - i,
    {
        let n = ns[i];
        if n < 0 || n > u32::MAX as i64 {
            assert(!fits_u32(ns@[i as int] as int));
            return None;
        }
        counts.push(n as u32);
        i = i + 1;
    }
    assert(counts@ =~= ns@.map_values(|n: i64| n as u32));
    Some(counts)
}

/// The 1-based disc on which the track at zero-based index `i` lies, when the
/// discs hold `counts[0]`, `counts[1]`, ... tracks in turn: the first disc
/// whose running total of tracks exceeds `i`. Past the last disc it is the
/// number of discs.
pub open spec fn disc_number_of(counts: Seq<u32>, i: int) -> nat
    decreases counts.len(),
{
    if counts.len() == 0 {
        0
    } else if i < counts[0] {
        1
    } else {
        1 + disc_number_of(counts.drop_first(), i - counts[0])
    }
}

/// How many tracks the first `k` discs hold together.
pub open spec fn tracks_on_first(counts: Seq<u32>, k: int) -> int
    decreases counts.len(),
{
    if k <= 0 || counts.len() == 0 {
        0
    } else {
        counts[0] + tracks_on_first(counts.drop_first(), k - 1)
    }
}

/// A track that the discs have room for lies on a disc that is not empty:
/// the discs before it hold at most `i` tracks, and with it more than `i`.
pub proof fn lemma_track_lies_on_nonempty_disc(counts: Seq<u32>, i: int)
    requires
        0 <= i < tracks_on_first(counts, counts.len() as int),
    ensures
        1 <= disc_number_of(counts, i) <= counts.len(),
        counts[disc_number_of(counts, i) - 1] > 0,
        tracks_on_first(counts, disc_number_of(counts, i) - 1) <= i,
        i < tracks_on_first(counts, disc_number_of(counts, i) as int),
    decreases counts.len(),
{
    if i >= counts[0] {
        let rest = counts.drop_first();
        assert(tracks_on_first(counts, counts.len() as int) == counts[0] + tracks_on_first(rest, rest.len() as int));
        lemma_track_lies_on_nonempty_disc(rest, i - counts[0]);
        let d = disc_number_of(rest, i - counts[0]);
        assert(counts[d as int] == rest[d - 1]);
    } else {
        assert(tracks_on_first(counts.drop_first(), 0) == 0);
    }
}

proof fn lemma_tracks_on_first_nonnegative(counts: Seq<u32>, k: int)
    ensures
        tracks_on_first(counts, k) >= 0,
    decreases counts.len(),
{
    if k > 0 && counts.len() > 0 {
        lemma_tracks_on_first_nonnegative(counts.drop_first(), k - 1);
    }
}

/// A track past what the discs hold is given the number of discs.
pub proof fn lemma_track_past_last_disc(counts: Seq<u32>, i: int)
    requires
        i >= tracks_on_first(counts, counts.len() as int),
    ensures
        disc_number_of(counts, i) == counts.len(),
    decreases counts.len(),
{
    if counts.len() > 0 {
        let rest = counts.drop_first();
        assert(tracks_on_first(counts, counts.len() as int) == counts[0] + tracks_on_first(rest, rest.len() as int));
        lemma_tracks_on_first_nonnegative(rest, rest.len() as int);
        lemma_track_past_last_disc(rest, i - counts[0]);
    }
}

/// The disc number of the track at zero-based index `track_num`, for discs
/// holding `tracks_per_disc[0]`, `tracks_per_disc[1]`, ... tracks in turn.
pub fn get_disc_number(tracks_per_disc: &Vec<u32>, track_num: u32) -> (r: u32)
    requires
        tracks_per_disc@.len() <= u32::MAX,
    ensures
        r == disc_number_of(tracks_per_disc@, track_num as int),
{
    let ghost c = tracks_per_disc@;
    let ghost t = track_num as int;
    let mut x: u64 = 0;
    let mut i: usize = 0;
    assert(c.subrange(0, c.len() as int) =~= c);
    while x <= track_num as u64 && i < tracks_per_disc.len()
        invariant
            c == tracks_per_disc@,
            t == track_num as int,
            c.len() <= u32::MAX,
            i <= c.len(),
            x <= t + u32::MAX,
            x <= t ==> disc_number_of(c, t) == i + disc_number_of(c.subrange(i as int, c.len() as int), t - x),
            x > t ==> disc_number_of(c, t) == i,
        decreases c.len() - i,
    {
        let ghost s = c.subrange(i as int, c.len() as int);
        assert(s[0] == c[i as int]);
        assert(s.drop_first() =~= c.subrange(i + 1, c.len() as int));
        x = x + tracks_per_disc[i] as u64;
        i = i + 1;
    }
    if x <= track_num as u64 {
        assert(c.subrange(i as int, c.len() as int).len() == 0);
    }
    i as u32
}

/// The single genre value a track carries: the album's genres joined by
/// `"; "`, or none when the album names no genre.
pub open spec fn genre_tag(genres: Seq<Seq<char>>) -> Option<Seq<char>> {
    if genres.len() == 0 {
        None
    } else {
        Some(joined_genres(genres))
    }
}

pub open spec fn joined_genres(genres: Seq<Seq<char>>) -> Seq<char>
    decreases genres.len(),
{
    if genres.len() <= 1 {
        genres[0]
    } else {
        joined_genres(genres.drop_last()) + "; "@ + genres.last()
    }
}

fn genre_of(genres: &Vec<String>) -> (r: Option<String>)
    ensures
        opt_view(r) == genre_tag(string_views(genres@)),
{
    if genres.len() == 0 {
        return None;
    }
    let ghost gs = string_views(genres@);
    let mut joined = genres[0].clone();
    let mut i: usize = 1;
    assert(gs.subrange(0, 1).drop_last() =~= Seq::<Seq<char>>::empty());
    while i < genres.len()
        invariant
            gs == string_views(genres@),
            1 <= i <= genres@.len(),
            joined@ == joined_genres(gs.subrange(0, i as int)),
        decreases genres@.len() - i,
    {
        assert(gs.subrange(0, i + 1).drop_last() =~= gs.subrange(0, i as int));
        joined.append("; ");
        joined.append(genres[i].as_str());
        i = i + 1;
    }
    assert(gs.subrange(0, i as int) =~= gs);
    Some(joined)
}

impl AlbumTags {
    /// The disc number that the track at zero-based index `i` is given.
    pub open spec fn disc_of(&self, i: int) -> Option<u32> {
        match self.tracks_per_disc {
            Some(c) => Some(disc_number_of(c@, i) as u32),
            None => None,
        }
    }

    /// Whether `t` is the record of the track at zero-based index `i`.
    pub open spec fn track_record(&self, i: int, t: TrackTags) -> bool {
        &&& opt_view(t.album_name) == opt_view(self.album_name)
        &&& opt_view(t.artist_name) == opt_view(self.artist_name)
        &&& t.year == self.year
        &&& t.track_name@ == self.tracks@[i]@
        &&& opt_view(t.genre) == genre_tag(string_views(self.genre@))
        &&& opt_view(t.picture_path) == opt_view(self.picture_path)
        &&& t.track_number == Some((i + 1) as u32)
        &&& t.track_total == Some(self.tracks@.len() as u32)
        &&& t.disc_number == self.disc_of(i)
        &&& t.disc_total == self.disc_total
    }

    /// Whether `ts` is the expansion of this album: one record per track, in
    /// album order.
    pub open spec fn expands_to(&self, ts: Seq<TrackTags>) -> bool {
        &&& ts.len() == self.tracks@.len()
        &&& forall|i: int| 0 <= i < ts.len() ==> #[trigger] self.track_record(i, ts[i])
    }
}

/// Expands an album into one record per track, numbering tracks from 1 and
/// placing each on its disc when the album says how many tracks each disc
/// holds.
pub fn to_track_tags(album: AlbumTags) -> (r: Vec<TrackTags>)
    requires
        album.tracks@.len() <= u32::MAX,
        album.tracks_per_disc matches Some(c) ==> c@.len() <= u32::MAX,
    ensures
        album.expands_to(r@),
{
    let mut tags: Vec<TrackTags> = Vec::new();
    let genre = genre_of(&album.genre);
    let track_total = album.tracks.len();
    let mut index: usize = 0;
    while index < track_total
        invariant
            track_total == album.tracks@.len(),
            track_total <= u32::MAX,
            album.tracks_per_disc matches Some(c) ==> c@.len() <= u32::MAX,
            opt_view(genre) == genre_tag(string_views(album.genre@)),
            index <= track_total,
            tags@.len() == index,
            forall|i: int| 0 <= i < index ==> #[trigger] album.track_record(i, tags@[i]),
        decreases track_total - index,
    {
        let disc_number = match &album.tracks_per_disc {
            Some(tpd) => Some(get_disc_number(tpd, index as u32)),
            None => None,
        };
        tags.push(TrackTags {
            album_name: album.album_name.clone(),
            artist_name: album.artist_name.clone(),
            year: album.year,
            track_name: album.tracks[index].clone(),
            genre: genre.clone(),
            picture_path: album.picture_path.clone(),
            track_number: Some((index + 1) as u32),
            track_total: Some(track_total as u32),
            disc_number,
            disc_total: album.disc_total,
        });
        index = index + 1;
    }
    tags
}

/// A document without `tracks` has no track list to resolve, so resolving it
/// fails with a missing `tracks` key.
pub proof fn lemma_missing_tracks_is_fatal(t: Table)
    requires
        !t.has_key("tracks"@),
    ensures
        !has_tracks(t),
{
    lemma_single_key(t, "tracks"@, Shape::StrArray);
}

/// Optional fields that a document leaves out resolve as absent: no year,
/// no genre, no disc total.
pub proof fn lemma_missing_fields_resolve_empty(
    t: Table,
    a: AlbumTags,
    working_dir: Option<Seq<char>>,
)
    requires
        a.describes(t, working_dir),
    ensures
        !t.has_key("year"@) ==> a.year is None,
        !t.has_key("genre"@) ==> a.genre@.len() == 0,
        !t.has_key("disc_total"@) ==> a.disc_total is None,
{
    lemma_single_key(t, "year"@, Shape::Int);
    lemma_single_key(t, "genre"@, Shape::StrOrStrArray);
    lemma_single_key(t, "disc_total"@, Shape::Int);
}

/// Without disc information, expanding an album gives one record per track,
/// in album order, numbered from 1, and none carries a disc number.
pub proof fn lemma_expansion_without_discs(album: AlbumTags, ts: Seq<TrackTags>)
    requires
        album.tracks_per_disc is None,
        album.expands_to(ts),
    ensures
        ts.len() == album.tracks@.len(),
        forall|i: int|
            0 <= i < ts.len() ==> {
                &&& #[trigger] ts[i].track_name@ == album.tracks@[i]@
                &&& ts[i].track_number == Some((i + 1) as u32)
                &&& ts[i].disc_number is None
            },
{
    assert forall|i: int| 0 <= i < ts.len() implies #[trigger] ts[i].track_name@ == album.tracks@[i]@
        && ts[i].track_number == Some((i + 1) as u32) && ts[i].disc_number is None by {
        assert(album.track_record(i, ts[i]));
    }
}

/// Expanding an album of `n` tracks gives `n` records, each with `n` as its
/// track total, numbered 1 to `n` in strictly increasing order.
pub proof fn lemma_expansion_numbers_tracks(album: AlbumTags, ts: Seq<TrackTags>)
    requires
        album.tracks@.len() <= u32::MAX,
        album.expands_to(ts),
    ensures
        ts.len() == album.tracks@.len(),
        forall|i: int| 0 <= i < ts.len() ==> #[trigger] ts[i].track_total == Some(ts.len() as u32),
        ts.len() > 0 ==> ts[0].track_number == Some(1u32),
        ts.len() > 0 ==> ts[ts.len() - 1].track_number == Some(ts.len() as u32),
        forall|i: int, j: int|
            0 <= i < j < ts.len() ==> (#[trigger] ts[i].track_number)->0 < (#[trigger] ts[j].track_number)->0,
{
    assert forall|i: int| 0 <= i < ts.len() implies #[trigger] ts[i].track_total == Some(ts.len() as u32) by {
        assert(album.track_record(i, ts[i]));
    }
    if ts.len() > 0 {
        assert(album.track_record(0, ts[0]));
        assert(album.track_record(ts.len() - 1, ts[ts.len() - 1]));
    }
    assert forall|i: int, j: int| 0 <= i < j < ts.len() implies (#[trigger] ts[i].track_number)->0
        < (#[trigger] ts[j].track_number)->0 by {
        assert(album.track_record(i, ts[i]));
        assert(album.track_record(j, ts[j]));
    }
}

} // verus!
