//! File names: the characters a track title may not bring into a file name,
//! the name a track's file is given, and which files count as audio.

use vstd::prelude::*;

use crate::text::{decimal, push_char, push_decimal};

verus! {

/// Whether `c` may not appear in a file name: quote marks, slashes, angle
/// brackets, colon, pipe, asterisk and question mark.
pub open spec fn disallowed(c: char) -> bool {
    c == '\'' || c == '"' || c == '/' || c == '\\' || c == '>' || c == '<' || c == ':' || c == '|'
        || c == '*' || c == '?'
}

/// `s` with every disallowed character removed and all others kept in order.
pub open spec fn normalized(s: Seq<char>) -> Seq<char> {
    s.filter(|c: char| !disallowed(c))
}

/// Whether `c` may not appear in a file name.
pub fn is_disallowed(c: char) -> (r: bool)
    ensures
        r == disallowed(c),
{
    c == '\'' || c == '"' || c == '/' || c == '\\' || c == '>' || c == '<' || c == ':' || c == '|'
        || c == '*' || c == '?'
}

/// Removes from `s` every character that may not appear in a file name.
pub fn normalize(s: &str) -> (r: String)
    ensures
        r@ == normalized(s@),
{
    let mut out = String::new();
    let n = s.unicode_len();
    let mut i: usize = 0;
    while i < n
        invariant
            n == s@.len(),
            i <= n,
            out@ == normalized(s@.subrange(0, i as int)),
        decreases n - i,
    {
        let c = s.get_char(i);
        proof {
            reveal(Seq::filter);
            assert(s@.subrange(0, i + 1).drop_last() =~= s@.subrange(0, i as int));
            assert(s@.subrange(0, i + 1).last() == c);
        }
        if !is_disallowed(c) {
            push_char(&mut out, c);
        }
        i = i + 1;
    }
    assert(s@.subrange(0, n as int) =~= s@);
    out
}

/// The track number that leads a renamed file's name: zero-padded to at
/// least two digits.
pub open spec fn padded_number(n: nat) -> Seq<char> {
    if n < 10 {
        seq!['0'] + decimal(n)
    } else {
        decimal(n)
    }
}

/// The name a track's file is given: `"<number> - <title><extension>"`, with
/// the title normalized and the extension of the old name kept, or
/// `.unknown` when the old name had none.
pub open spec fn renamed(track_number: nat, title: Seq<char>, extension: Option<Seq<char>>) -> Seq<char> {
    padded_number(track_number) + " - "@ + normalized(title) + match extension {
        Some(e) => "."@ + e,
        None => ".unknown"@,
    }
}

/// The name a track's file is given, from its track number, its title and
/// the extension (without the dot) of the file's current name.
pub fn file_name_for(track_number: u32, track_name: &str, extension: Option<&str>) -> (r: String)
    ensures
        r@ == renamed(
            track_number as nat,
            track_name@,
            match extension {
                Some(e) => Some(e@),
                None => None,
            },
        ),
{
    let mut name = String::new();
    if track_number < 10 {
        push_char(&mut name, '0');
    }
    push_decimal(&mut name, track_number);
    name.append(" - ");
    let title = normalize(track_name);
    name.append(title.as_str());
    match extension {
        Some(e) => {
            name.append(".");
            name.append(e);
            assert(name@ =~= renamed(track_number as nat, track_name@, Some(e@)));
        },
        None => {
            name.append(".unknown");
            assert(name@ =~= renamed(track_number as nat, track_name@, None));
        },
    }
    name
}

/// Whether a file with the extension `e` (without the dot) is an audio file.
pub open spec fn audio_extension(e: Seq<char>) -> bool {
    e == "mp3"@ || e == "ogg"@ || e == "flac"@ || e == "asf"@
}

/// Whether a file with the extension `ext` (without the dot) is an audio
/// file: `mp3`, `ogg`, `flac` or `asf`.
pub fn is_audio_extension(ext: &str) -> (r: bool)
    ensures
        r == audio_extension(ext@),
{
    let e = ext.to_owned();
    e == String::from_str("mp3") || e == String::from_str("ogg") || e == String::from_str("flac")
        || e == String::from_str("asf")
}

/// Relies on `std::path::Path::join`: `relative` resolved against `base`.
/// The separator and the handling of absolute paths depend on the platform,
/// so nothing is stated of the result.
#[verifier::external_body]
pub(crate) fn join_path(base: &str, relative: &str) -> String {
    std::path::Path::new(base).join(relative).to_string_lossy().into_owned()
}

} // verus!
