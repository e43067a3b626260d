//! Paths as text: the parts of a path that the browser reads, and the rules
//! that tell audio files and hidden entries from the rest.
//!
//! A path is kept as the string it is spelled with. Two spellings of one file
//! are two paths.

use std::path::Path;
use vstd::prelude::*;
use vstd::string::*;
use vstd::utf8::{decode_utf8, valid_utf8};

verus! {

/// The directory that holds `path`, as `std::path::Path::parent` gives it.
pub uninterp spec fn path_parent(path: Seq<char>) -> Option<Seq<char>>;

/// The extension of the file name of `path`, without its dot, as
/// `std::path::Path::extension` gives it.
pub uninterp spec fn path_extension(path: Seq<char>) -> Option<Seq<char>>;

/// The file name of `path` without its extension, as
/// `std::path::Path::file_stem` gives it.
pub uninterp spec fn path_file_stem(path: Seq<char>) -> Option<Seq<char>>;

/// The text that `String::from_utf8_lossy` reads from `bytes`.
pub uninterp spec fn lossy_text(bytes: Seq<u8>) -> Seq<char>;

/// The characters of an optional string.
pub open spec fn text_of(text: Option<String>) -> Option<Seq<char>> {
    match text {
        Some(s) => Some(s@),
        None => None,
    }
}

/// Calls `std::path::Path::parent` on the path spelled `path`. Trusted: the
/// result is the one that `path_parent` names.
#[verifier::external_body]
pub(crate) fn parent_of(path: &str) -> (parent: Option<String>)
    ensures
        text_of(parent) == path_parent(path@),
{
    Path::new(path).parent().map(|dir| dir.to_string_lossy().into_owned())
}

/// Calls `std::path::Path::extension` on the path spelled `path`. Trusted:
/// the result is the one that `path_extension` names.
#[verifier::external_body]
pub(crate) fn extension_of(path: &str) -> (extension: Option<String>)
    ensures
        text_of(extension) == path_extension(path@),
{
    Path::new(path).extension().map(|ext| ext.to_string_lossy().into_owned())
}

/// Calls `std::path::Path::file_stem` on the path spelled `path`. Trusted:
/// the result is the one that `path_file_stem` names.
#[verifier::external_body]
pub(crate) fn file_stem_of(path: &str) -> (stem: Option<String>)
    ensures
        text_of(stem) == path_file_stem(path@),
{
    Path::new(path).file_stem().map(|stem| stem.to_string_lossy().into_owned())
}

/// Calls `String::from_utf8_lossy` on `bytes`. Trusted: the result is the one
/// that `lossy_text` names, and bytes that are valid UTF-8 read as the text
/// they encode.
#[verifier::external_body]
pub(crate) fn text_from_bytes(bytes: &[u8]) -> (text: String)
    ensures
        text@ == lossy_text(bytes@),
        valid_utf8(bytes@) ==> text@ == decode_utf8(bytes@),
{
    String::from_utf8_lossy(bytes).into_owned()
}

/// An upper-case ASCII letter as its lower-case letter, any other character
/// as itself.
pub open spec fn ascii_lower(c: char) -> char {
    if 'A' <= c && c <= 'Z' {
        ((c as u8) + 32) as char
    } else {
        c
    }
}

/// `text` with its ASCII letters in lower case.
pub open spec fn ascii_lowercase(text: Seq<char>) -> Seq<char> {
    text.map_values(|c: char| ascii_lower(c))
}

/// Whether `extension`, whatever the case of its letters, is one of the audio
/// formats that the browser lists: mp3, wav, flac, ogg, m4a, aac.
pub open spec fn audio_extension(extension: Seq<char>) -> bool {
    let lower = ascii_lowercase(extension);
    ||| lower == seq!['m', 'p', '3']
    ||| lower == seq!['w', 'a', 'v']
    ||| lower == seq!['f', 'l', 'a', 'c']
    ||| lower == seq!['o', 'g', 'g']
    ||| lower == seq!['m', '4', 'a']
    ||| lower == seq!['a', 'a', 'c']
}

/// Whether the path spelled `path` names an audio file: it has an extension
/// and the extension is an audio format.
pub open spec fn audio_path(path: Seq<char>) -> bool {
    match path_extension(path) {
        Some(extension) => audio_extension(extension),
        None => false,
    }
}

/// Whether a file name marks a hidden entry: it starts with a dot.
pub open spec fn hidden_name(name: Seq<char>) -> bool {
    name.len() > 0 && name[0] == '.'
}

fn lower_char(c: char) -> (lower: char)
    ensures
        lower == ascii_lower(c),
{
    if 'A' <= c && c <= 'Z' {
        ((c as u8) + 32) as char
    } else {
        c
    }
}

fn is_three(text: &Vec<char>, a: char, b: char, c: char) -> (same: bool)
    ensures
        same == (text@ == seq![a, b, c]),
{
    let same = text.len() == 3 && text[0] == a && text[1] == b && text[2] == c;
    assert(same == (text@ =~= seq![a, b, c]));
    same
}

fn is_four(text: &Vec<char>, a: char, b: char, c: char, d: char) -> (same: bool)
    ensures
        same == (text@ == seq![a, b, c, d]),
{
    let same = text.len() == 4 && text[0] == a && text[1] == b && text[2] == c && text[3] == d;
    assert(same == (text@ =~= seq![a, b, c, d]));
    same
}

/// Whether `extension` is one of the audio formats, in any case of letters.
pub fn is_audio_extension(extension: &str) -> (audio: bool)
    ensures
        audio == audio_extension(extension@),
{
    let count: usize = extension.unicode_len();
    let mut lower: Vec<char> = Vec::new();
    let mut i: usize = 0;
    while i < count
        invariant
            count == extension@.len(),
            i <= count,
            lower@ == ascii_lowercase(extension@.subrange(0, i as int)),
        decreases count - i,
    {
        let c: char = extension.get_char(i);
        lower.push(lower_char(c));
        i = i + 1;
        assert(lower@ =~= ascii_lowercase(extension@.subrange(0, i as int)));
    }
    assert(extension@.subrange(0, count as int) =~= extension@);
    is_three(&lower, 'm', 'p', '3') || is_three(&lower, 'w', 'a', 'v') || is_four(
        &lower,
        'f',
        'l',
        'a',
        'c',
    ) || is_three(&lower, 'o', 'g', 'g') || is_three(&lower, 'm', '4', 'a') || is_three(
        &lower,
        'a',
        'a',
        'c',
    )
}

/// Whether the path spelled `path` names an audio file.
pub fn is_audio_file(path: &str) -> (audio: bool)
    ensures
        audio == audio_path(path@),
{
    match extension_of(path) {
        Some(extension) => is_audio_extension(extension.as_str()),
        None => false,
    }
}

/// Whether the entry named `name` is hidden.
pub fn is_hidden(name: &str) -> (hidden: bool)
    ensures
        hidden == hidden_name(name@),
{
    if name.unicode_len() == 0 {
        false
    } else {
        name.get_char(0) == '.'
    }
}

} // verus!
