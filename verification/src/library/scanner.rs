//! Which files count as audio.

use vstd::prelude::*;

verus! {

/// Scanner for audio files in a directory tree.
pub struct DirectoryScanner;

/// The text of `text` in lower case, as the Unicode tables of the standard
/// library give it.
pub uninterp spec fn lowercase_of(text: Seq<char>) -> Seq<char>;

/// Whether `lower` is one of the extensions of audio files that are taken
/// into the library.
pub open spec fn supported_extension(lower: Seq<char>) -> bool {
    ||| lower == "mp3"@
    ||| lower == "flac"@
    ||| lower == "ogg"@
    ||| lower == "wav"@
    ||| lower == "m4a"@
    ||| lower == "aac"@
    ||| lower == "opus"@
    ||| lower == "wma"@
}

/// Whether `extension` stands in `path` directly behind a dot, at a place
/// where a file name's extension can stand, and holds no dot itself.
pub open spec fn extension_in(path: Seq<char>, extension: Seq<char>) -> bool {
    &&& !extension.contains('.')
    &&& exists|at: int|
        1 < at && at + extension.len() <= path.len() && path[at - 1] == '.' && #[trigger] path.subrange(
            at,
            at + extension.len(),
        ) == extension
}

/// Whether `path` is a bare file name: it is not empty and holds none of the
/// characters by which a platform parts a path into components.
pub open spec fn is_bare_name(path: Seq<char>) -> bool {
    path.len() > 0 && !path.contains('/') && !path.contains('\\') && !path.contains(':')
}

/// Index of the last dot in `name`; `-1` where it holds none.
pub open spec fn last_dot(name: Seq<char>) -> int
    decreases name.len(),
{
    if name.len() == 0 {
        -1
    } else if name.last() == '.' {
        name.len() - 1
    } else {
        last_dot(name.drop_last())
    }
}

/// Extension of a bare file name: what follows its last dot, unless that dot
/// begins the name or the name is `..`.
pub open spec fn bare_extension(name: Seq<char>) -> Option<Seq<char>> {
    let dot = last_dot(name);
    if dot < 1 || name == ".."@ {
        None
    } else {
        Some(name.subrange(dot + 1, name.len() as int))
    }
}

/// `Path::extension`: the part of the path's file name behind its last dot.
/// There is none where the path holds no dot, and none where the only dot
/// begins the file name.  Which part of a path is its file name depends on the
/// platform's separators: for a bare file name the contract gives the
/// extension, for other paths it says only where an extension can come from.
#[verifier::external_body]
fn path_extension(path: &str) -> (extension: Option<String>)
    ensures
        !path@.contains('.') ==> extension is None,
        extension matches Some(text) ==> extension_in(path@, text@),
        is_bare_name(path@) ==> (extension is Some <==> bare_extension(path@) is Some),
        is_bare_name(path@) && extension is Some ==> bare_extension(path@) == Some(
            extension->Some_0@,
        ),
{
    std::path::Path::new(path).extension().map(|e| e.to_string_lossy().into_owned())
}

/// `str::to_lowercase`.
#[verifier::external_body]
pub(crate) fn lowercase(text: &str) -> (lower: String)
    ensures
        lower@ == lowercase_of(text@),
{
    text.to_lowercase()
}

/// Whether two strings hold the same text.
fn same_text(a: &str, b: &str) -> (same: bool)
    ensures
        same == (a@ == b@),
{
    let left: String = a.to_owned();
    let right: String = b.to_owned();
    left == right
}

impl DirectoryScanner {
    /// Whether `lower`, an extension already in lower case, is that of a
    /// supported audio format.
    pub fn is_known_format(lower: &str) -> (known: bool)
        ensures
            known == supported_extension(lower@),
    {
        same_text(lower, "mp3") || same_text(lower, "flac") || same_text(lower, "ogg") || same_text(
            lower,
            "wav",
        ) || same_text(lower, "m4a") || same_text(lower, "aac") || same_text(lower, "opus")
            || same_text(lower, "wma")
    }

    /// Whether a file with this extension is audio, whatever the case of its letters.
    pub fn is_supported_extension(extension: &str) -> (supported: bool)
        ensures
            supported == supported_extension(lowercase_of(extension@)),
    {
        let lower = lowercase(extension);
        Self::is_known_format(lower.as_str())
    }

    /// Whether the file at `path` is audio, going by its extension.
    pub fn is_supported_audio_file(path: &str) -> (supported: bool)
        ensures
            supported ==> exists|extension: Seq<char>| #[trigger]
                extension_in(path@, extension) && supported_extension(lowercase_of(extension)),
            !path@.contains('.') ==> !supported,
            is_bare_name(path@) ==> supported == (bare_extension(path@) is Some
                && supported_extension(lowercase_of(bare_extension(path@)->Some_0))),
    {
        match path_extension(path) {
            Some(extension) => Self::is_supported_extension(extension.as_str()),
            None => false,
        }
    }
}

} // verus!
