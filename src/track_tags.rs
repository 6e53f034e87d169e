//! The metadata of one track, and how it is written into a FLAC file's
//! Vorbis comments.

use vstd::prelude::*;

use crate::text::{decimal, decimal_string, opt_view};

verus! {

/// The fully resolved metadata of one track.
#[derive(Debug, Clone)]
pub struct TrackTags {
    pub album_name: Option<String>,
    pub artist_name: Option<String>,
    pub year: Option<u32>,
    pub track_name: String,
    pub genre: Option<String>,
    pub picture_path: Option<String>,
    pub track_number: Option<u32>,
    pub track_total: Option<u32>,
    pub disc_number: Option<u32>,
    pub disc_total: Option<u32>,
}

/// A Vorbis comment field for `value`, when there is one.
pub open spec fn text_field(key: Seq<char>, value: Option<Seq<char>>) -> Seq<(Seq<char>, Seq<char>)> {
    match value {
        Some(v) => seq![(key, v)],
        None => Seq::empty(),
    }
}

/// A Vorbis comment field for the number `n` written in decimal, when there
/// is one.
pub open spec fn number_field(key: Seq<char>, n: Option<u32>) -> Seq<(Seq<char>, Seq<char>)> {
    match n {
        Some(n) => seq![(key, decimal(n as nat))],
        None => Seq::empty(),
    }
}

/// The Vorbis comment fields that a track's metadata is written as, in the
/// order they are written; absent fields are left out.
pub open spec fn vorbis_fields_of(t: TrackTags) -> Seq<(Seq<char>, Seq<char>)> {
    text_field("ALBUM"@, opt_view(t.album_name))
        + text_field("ARTIST"@, opt_view(t.artist_name))
        + seq![("TITLE"@, t.track_name@)]
        + number_field("TRACKNUMBER"@, t.track_number)
        + number_field("TRACKTOTAL"@, t.track_total)
        + number_field("DATE"@, t.year)
        + text_field("GENRE"@, opt_view(t.genre))
        + number_field("DISCNUMBER"@, t.disc_number)
        + number_field("TOTALDISCS"@, t.disc_total)
}

/// The characters of each key and value.
pub open spec fn field_views(fields: Seq<(String, String)>) -> Seq<(Seq<char>, Seq<char>)> {
    fields.map_values(|f: (String, String)| (f.0@, f.1@))
}

fn push_text_field(fields: &mut Vec<(String, String)>, key: &str, value: &Option<String>)
    ensures
        field_views(final(fields)@) == field_views(old(fields)@) + text_field(key@, opt_view(*value)),
{
    match value {
        Some(v) => {
            fields.push((key.to_owned(), v.clone()));
            assert(field_views(fields@) =~= field_views(old(fields)@) + seq![(key@, v@)]);
        },
        None => {
            assert(field_views(fields@) =~= field_views(old(fields)@) + Seq::empty());
        },
    }
}

fn push_number_field(fields: &mut Vec<(String, String)>, key: &str, n: Option<u32>)
    ensures
        field_views(final(fields)@) == field_views(old(fields)@) + number_field(key@, n),
{
    match n {
        Some(n) => {
            fields.push((key.to_owned(), decimal_string(n)));
            assert(field_views(fields@) =~= field_views(old(fields)@) + seq![(key@, decimal(n as nat))]);
        },
        None => {
            assert(field_views(fields@) =~= field_views(old(fields)@) + Seq::empty());
        },
    }
}

/// The Vorbis comment fields that `tags` is written as: album, artist,
/// title, track number and total, date, genre, disc number and total, each
/// when present, with numbers in decimal.
pub fn vorbis_fields(tags: &TrackTags) -> (r: Vec<(String, String)>)
    ensures
        field_views(r@) == vorbis_fields_of(*tags),
{
    let mut fields: Vec<(String, String)> = Vec::new();
    assert(field_views(fields@) =~= Seq::empty());
    push_text_field(&mut fields, "ALBUM", &tags.album_name);
    push_text_field(&mut fields, "ARTIST", &tags.artist_name);
    let title = Some(tags.track_name.clone());
    push_text_field(&mut fields, "TITLE", &title);
    push_number_field(&mut fields, "TRACKNUMBER", tags.track_number);
    push_number_field(&mut fields, "TRACKTOTAL", tags.track_total);
    push_number_field(&mut fields, "DATE", tags.year);
    push_text_field(&mut fields, "GENRE", &tags.genre);
    push_number_field(&mut fields, "DISCNUMBER", tags.disc_number);
    push_number_field(&mut fields, "TOTALDISCS", tags.disc_total);
    assert(field_views(fields@) =~= vorbis_fields_of(*tags));
    fields
}

#[verifier::external_type_specification]
#[verifier::external_body]
pub struct ExTag(metaflac::Tag);

/// What the first Vorbis comment block of `tag` holds: each key with its
/// values. A tag without such a block holds none.
pub uninterp spec fn vorbis_comments_of(tag: metaflac::Tag) -> Map<Seq<char>, Seq<Seq<char>>>;

/// The front-cover pictures of `tag` in block order, each as its MIME type
/// and its data.
pub uninterp spec fn front_covers_of(tag: metaflac::Tag) -> Seq<(Seq<char>, Seq<u8>)>;

/// `c`, made upper-case when it is an ASCII lower-case letter.
pub open spec fn upper_char(c: char) -> char {
    if 'a' <= c && c <= 'z' {
        ((c as u32) - 32) as char
    } else {
        c
    }
}

/// `s` with ASCII lower-case letters made upper-case.
pub open spec fn ascii_upper(s: Seq<char>) -> Seq<char> {
    s.map_values(|c: char| upper_char(c))
}

/// Relies on `metaflac::Tag::set_vorbis`: the first Vorbis comment block,
/// added when there is none, afterwards holds exactly `value` under the
/// upper-cased `key`, and every other key keeps its values; pictures are
/// not touched.
#[verifier::external_body]
fn set_vorbis(tag: &mut metaflac::Tag, key: &str, value: &str)
    ensures
        vorbis_comments_of(*final(tag)) == vorbis_comments_of(*old(tag)).insert(
            ascii_upper(key@),
            seq![value@],
        ),
        front_covers_of(*final(tag)) == front_covers_of(*old(tag)),
{
    tag.set_vorbis(key, vec![value])
}

/// Relies on `metaflac::Tag::add_picture` with `PictureType::CoverFront`:
/// every front-cover picture is replaced by one JPEG picture holding `data`;
/// the Vorbis comments are not touched.
#[verifier::external_body]
fn add_front_cover(tag: &mut metaflac::Tag, data: Vec<u8>)
    ensures
        front_covers_of(*final(tag)) == seq![("image/jpeg"@, data@)],
        vorbis_comments_of(*final(tag)) == vorbis_comments_of(*old(tag)),
{
    tag.add_picture("image/jpeg", metaflac::block::PictureType::CoverFront, data)
}

/// `comments` after setting each field of `fields` in turn, under its
/// upper-cased key.
pub open spec fn with_fields(
    comments: Map<Seq<char>, Seq<Seq<char>>>,
    fields: Seq<(Seq<char>, Seq<char>)>,
) -> Map<Seq<char>, Seq<Seq<char>>>
    decreases fields.len(),
{
    if fields.len() == 0 {
        comments
    } else {
        with_fields(comments, fields.drop_last()).insert(
            ascii_upper(fields.last().0),
            seq![fields.last().1],
        )
    }
}

/// Writes `tags` into `tag`: each field of `vorbis_fields` as a Vorbis
/// comment, and `cover`, when given, as the front cover.
pub fn write_tags(tag: &mut metaflac::Tag, tags: &TrackTags, cover: Option<Vec<u8>>)
    ensures
        vorbis_comments_of(*final(tag)) == with_fields(
            vorbis_comments_of(*old(tag)),
            vorbis_fields_of(*tags),
        ),
        match cover {
            Some(data) => front_covers_of(*final(tag)) == seq![("image/jpeg"@, data@)],
            None => front_covers_of(*final(tag)) == front_covers_of(*old(tag)),
        },
{
    let fields = vorbis_fields(tags);
    let ghost fs = field_views(fields@);
    let ghost start = vorbis_comments_of(*tag);
    let ghost covers = front_covers_of(*tag);
    let mut i: usize = 0;
    assert(fs.subrange(0, 0) =~= Seq::empty());
    while i < fields.len()
        invariant
            fs == field_views(fields@),
            i <= fields@.len(),
            vorbis_comments_of(*tag) == with_fields(start, fs.subrange(0, i as int)),
            front_covers_of(*tag) == covers,
        decreases fields@.len() - i,
    {
        assert(fs.subrange(0, i + 1).drop_last() =~= fs.subrange(0, i as int));
        set_vorbis(tag, fields[i].0.as_str(), fields[i].1.as_str());
        i = i + 1;
    }
    assert(fs.subrange(0, i as int) =~= fs);
    match cover {
        Some(data) => add_front_cover(tag, data),
        None => {},
    }
}

} // verus!
