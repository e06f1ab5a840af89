//! Paths and link targets.
//!
//! A path is a string here. What a path means (its components, its parent,
//! its extension) is decided by the standard library, and the way from one
//! path to another by the `pathdiff` crate; their answers are named. The
//! percent-encoding of a link target is spelled out and verified.

use vstd::prelude::*;
use vstd::string::{StringExecFns, StringSliceAdditionalSpecFns};
use crate::text::push_char;

verus! {

/// Whether the components of `path` end with those of `suffix`, as
/// `Path::ends_with` decides it.
pub uninterp spec fn ends_with_path(path: Seq<char>, suffix: Seq<char>) -> bool;

/// The extension of the file that `path` names, as `Path::extension` gives
/// it.
pub uninterp spec fn extension_of(path: Seq<char>) -> Option<Seq<char>>;

/// The directory that holds `path`, as `Path::parent` gives it.
pub uninterp spec fn parent_of(path: Seq<char>) -> Option<Seq<char>>;

/// The way from the directory `base` to `path`, as `pathdiff::diff_paths`
/// gives it.
pub uninterp spec fn relative_path(path: Seq<char>, base: Seq<char>) -> Option<Seq<char>>;

/// `base` with `path` joined to it, as `Path::join` gives it.
pub uninterp spec fn joined_path(base: Seq<char>, path: Seq<char>) -> Seq<char>;

/// What is left of `path` behind the components of `base`, as
/// `Path::strip_prefix` gives it; `None` where `path` does not start with
/// `base`.
pub uninterp spec fn stripped_prefix(path: Seq<char>, base: Seq<char>) -> Option<Seq<char>>;

/// The last component of `path`, as `Path::file_name` gives it.
pub uninterp spec fn file_name_of(path: Seq<char>) -> Option<Seq<char>>;

/// Wraps `Path::join`. Trusted: the result is a function of the two paths.
#[verifier::external_body]
pub(crate) fn path_join(base: &str, path: &str) -> (joined: String)
    ensures
        joined@ == joined_path(base@, path@),
{
    std::path::Path::new(base).join(path).to_string_lossy().into_owned()
}

/// Wraps `Path::strip_prefix`. Trusted: the result is a function of the two
/// paths.
#[verifier::external_body]
pub(crate) fn path_strip_prefix(path: &str, base: &str) -> (rest: Option<String>)
    ensures
        crate::references::text_of(rest) == stripped_prefix(path@, base@),
{
    std::path::Path::new(path).strip_prefix(base).ok().map(|p| p.to_string_lossy().into_owned())
}

/// Wraps `Path::file_name`. Trusted: the result is a function of the path.
#[verifier::external_body]
pub(crate) fn path_file_name(path: &str) -> (name: Option<String>)
    ensures
        crate::references::text_of(name) == file_name_of(path@),
{
    std::path::Path::new(path).file_name().map(|n| n.to_string_lossy().into_owned())
}

/// Wraps `Path::ends_with`. Trusted: the answer is a function of the two
/// paths, read as the target platform reads paths.
#[verifier::external_body]
pub(crate) fn path_ends_with(path: &str, suffix: &str) -> (b: bool)
    ensures
        b == ends_with_path(path@, suffix@),
{
    std::path::Path::new(path).ends_with(suffix)
}

/// Wraps `Path::extension`. Trusted: the result is a function of the path.
#[verifier::external_body]
pub(crate) fn path_extension(path: &str) -> (extension: Option<String>)
    ensures
        crate::references::text_of(extension) == extension_of(path@),
{
    std::path::Path::new(path).extension().map(|e| e.to_string_lossy().into_owned())
}

/// Wraps `Path::parent`. Trusted: the result is a function of the path.
#[verifier::external_body]
pub(crate) fn path_parent(path: &str) -> (parent: Option<String>)
    ensures
        crate::references::text_of(parent) == parent_of(path@),
{
    std::path::Path::new(path).parent().map(|p| p.to_string_lossy().into_owned())
}

/// Wraps `pathdiff::diff_paths`. Trusted: the result is a function of the two
/// paths.
#[verifier::external_body]
pub(crate) fn diff_paths(path: &str, base: &str) -> (relative: Option<String>)
    ensures
        crate::references::text_of(relative) == relative_path(path@, base@),
{
    pathdiff::diff_paths(path, base).map(|p| p.to_string_lossy().into_owned())
}

/// The digit that stands for `n` in upper-case hexadecimal.
pub open spec fn hex_digit(n: int) -> char {
    if n < 10 {
        ((48 + n) as u8) as char
    } else {
        ((55 + n) as u8) as char
    }
}

/// A byte written as `%` and two hexadecimal digits.
pub open spec fn escaped_byte(byte: u8) -> Seq<char> {
    seq!['%', hex_digit(byte as int / 16), hex_digit(byte as int % 16)]
}

/// Wraps `percent_encoding::percent_encode_byte`. Trusted: the result is `%`
/// followed by the byte's two upper-case hexadecimal digits, as the crate's
/// table spells them.
#[verifier::external_body]
pub(crate) fn percent_encode_byte(byte: u8) -> (escaped: &'static str)
    ensures
        escaped@ == escaped_byte(byte),
{
    percent_encoding::percent_encode_byte(byte)
}

/// The bytes that a link target cannot hold as they are: everything outside
/// ASCII, the control characters, and space, `(`, `)`, `%` and `?`.
pub open spec fn must_escape(byte: u8) -> bool {
    byte >= 0x80 || byte < 0x20 || byte == 0x7f || byte == 0x20 || byte == 0x28 || byte == 0x29
        || byte == 0x25 || byte == 0x3f
}

/// One byte of a link target: escaped where it must be, else the ASCII
/// character that it is.
pub open spec fn encoded_byte(byte: u8) -> Seq<char> {
    if must_escape(byte) {
        escaped_byte(byte)
    } else {
        seq![byte as char]
    }
}

/// The percent-encoding of a sequence of bytes.
pub open spec fn percent_encoded(bytes: Seq<u8>) -> Seq<char>
    decreases bytes.len(),
{
    if bytes.len() == 0 {
        Seq::empty()
    } else {
        encoded_byte(bytes[0]) + percent_encoded(bytes.drop_first())
    }
}

/// The value of a hexadecimal digit, if `c` is one.
pub open spec fn hex_value(c: char) -> Option<int> {
    if '0' <= c <= '9' {
        Some(c as int - 48)
    } else if 'A' <= c <= 'F' {
        Some(c as int - 55)
    } else if 'a' <= c <= 'f' {
        Some(c as int - 87)
    } else {
        None
    }
}

/// The bytes that a percent-encoded ASCII text stands for: `%` and two
/// hexadecimal digits give one byte, every other character is its own byte.
pub open spec fn percent_decoded(text: Seq<char>) -> Seq<u8>
    decreases text.len(),
{
    if text.len() == 0 {
        Seq::empty()
    } else if text[0] == '%' && text.len() >= 3 && hex_value(text[1]) is Some && hex_value(
        text[2],
    ) is Some {
        seq![(hex_value(text[1])->0 * 16 + hex_value(text[2])->0) as u8] + percent_decoded(
            text.skip(3),
        )
    } else {
        seq![text[0] as u8] + percent_decoded(text.skip(1))
    }
}

/// Encoding byte by byte: a byte added at the end adds its encoding at the
/// end.
pub proof fn lemma_percent_encoded_push(bytes: Seq<u8>, byte: u8)
    ensures
        percent_encoded(bytes.push(byte)) == percent_encoded(bytes) + encoded_byte(byte),
    decreases bytes.len(),
{
    if bytes.len() == 0 {
        reveal_with_fuel(percent_encoded, 2);
        assert(bytes.push(byte).drop_first() =~= Seq::<u8>::empty());
        assert(percent_encoded(bytes.push(byte)) =~= percent_encoded(bytes) + encoded_byte(byte));
    } else {
        lemma_percent_encoded_push(bytes.drop_first(), byte);
        assert(bytes.push(byte).drop_first() =~= bytes.drop_first().push(byte));
        assert(percent_encoded(bytes.push(byte)) =~= percent_encoded(bytes) + encoded_byte(byte));
    }
}

/// The two hexadecimal digits of a byte give the byte back.
pub proof fn lemma_hex_digits(byte: u8)
    ensures
        hex_value(hex_digit(byte as int / 16)) == Some(byte as int / 16),
        hex_value(hex_digit(byte as int % 16)) == Some(byte as int % 16),
{
}

/// Decoding undoes encoding: no byte of a link target is lost or changed by
/// the percent-encoding.
pub proof fn lemma_percent_decode_encode(bytes: Seq<u8>)
    ensures
        percent_decoded(percent_encoded(bytes)) == bytes,
    decreases bytes.len(),
{
    if bytes.len() > 0 {
        let b = bytes[0];
        let rest = bytes.drop_first();
        lemma_percent_decode_encode(rest);
        let tail = percent_encoded(rest);
        let text = percent_encoded(bytes);
        if must_escape(b) {
            lemma_hex_digits(b);
            assert(text.skip(3) =~= tail);
            assert(b as int / 16 * 16 + b as int % 16 == b);
        } else {
            assert(text[0] == b as char);
            assert(text.skip(1) =~= tail);
        }
        assert(seq![b] + rest =~= bytes);
    }
}

/// Percent-encodes a link target: each byte of its UTF-8 form that
/// `must_escape` names is written as `%XX`, every other byte stays.
pub fn percent_encode(target: &str) -> (encoded: String)
    ensures
        encoded@ == percent_encoded(target.spec_bytes()),
{
    let bytes = target.as_bytes();
    let mut encoded = String::new();
    let mut i: usize = 0;
    while i < bytes.len()
        invariant
            i <= bytes.len(),
            bytes@ == target.spec_bytes(),
            encoded@ == percent_encoded(bytes@.take(i as int)),
        decreases bytes.len() - i,
    {
        let b = bytes[i];
        proof {
            lemma_percent_encoded_push(bytes@.take(i as int), b);
            assert(bytes@.take(i as int).push(b) =~= bytes@.take(i as int + 1));
        }
        if b >= 0x80 || b < 0x20 || b == 0x7f || b == 0x20 || b == 0x28 || b == 0x29 || b == 0x25
            || b == 0x3f {
            encoded.append(percent_encode_byte(b));
        } else {
            push_char(&mut encoded, b as char);
        }
        i = i + 1;
    }
    proof {
        assert(bytes@.take(bytes@.len() as int) =~= bytes@);
    }
    encoded
}

} // verus!
