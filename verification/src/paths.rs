//! Path operations of `std::path`, on paths held as their text.
//!
//! How a path text splits into components depends on the platform (`\` is a
//! separator and `C:` or a leading `//` a prefix on Windows only). These
//! contracts state what holds on every platform, and name the results on the
//! texts that every platform reads alike.
use vstd::prelude::*;

use crate::text::{contains_seq, opt_text};

verus! {

/// Whether every platform reads the path text alike: it holds no `\` (a
/// separator on Windows only), no `:` (which makes a drive prefix on Windows),
/// and does not start with `//` (a UNC prefix on Windows). Such a text splits
/// into components at its `/` characters alone, with no prefix.
pub open spec fn platform_neutral_path(p: Seq<char>) -> bool {
    &&& !p.contains('\\')
    &&& !p.contains(':')
    &&& !(p.len() >= 2 && p[0] == '/' && p[1] == '/')
}

/// Whether a path text starts at the root: its first character is `/`.
pub open spec fn starts_with_root(p: Seq<char>) -> bool {
    p.len() > 0 && p[0] == '/'
}

/// The text of `Path::parent` of a path text (`None` when it has no parent).
pub uninterp spec fn std_path_parent(path: Seq<char>) -> Option<Seq<char>>;

/// `Path::extension` of a path text (`None` when it has none).
pub uninterp spec fn std_path_extension(path: Seq<char>) -> Option<Seq<char>>;

/// `Path::is_absolute` on a path text.
///
/// Trusted: std documents that an absolute path is one that does not depend on
/// the current directory; an empty path does, so it is never absolute. It also
/// documents that on Unix a path is absolute when it starts with the root, and
/// on Windows when it has a prefix and starts with the root; so a text that every
/// platform reads alike (it has no prefix) and does not start with `/` is
/// absolute nowhere. Whether a text that starts with `/` is absolute depends on
/// the platform and is left unsaid.
#[verifier::external_body]
pub(crate) fn path_is_absolute(path: &str) -> (res: bool)
    ensures
        res ==> path@.len() > 0,
        platform_neutral_path(path@) && !starts_with_root(path@) ==> !res,
{
    std::path::Path::new(path).is_absolute()
}

/// `Path::parent` on a path text, displayed as text.
///
/// Trusted: std documents `None` for the empty path. On a text that every
/// platform reads alike the result is a function of the text, named
/// [`std_path_parent`]; elsewhere it depends on the platform's separators and
/// prefixes and is left unsaid.
#[verifier::external_body]
pub(crate) fn path_parent(path: &str) -> (res: Option<String>)
    ensures
        path@.len() == 0 ==> res is None,
        platform_neutral_path(path@) ==> opt_text(res) == std_path_parent(path@),
{
    std::path::Path::new(path).parent().map(|p| p.display().to_string())
}

/// `Path::join` of two path texts, displayed as text.
///
/// Trusted: std documents (`Path::join`, `PathBuf::push`) that a path that
/// starts at the root replaces the base: as an absolute path on Unix, and on
/// Windows as a path with a root but no prefix, which keeps only the base's
/// prefix, and a text that every platform reads alike has none. A relative path
/// extends the base: after the base, a separator, then the path. The separator
/// is the platform's (`/`, or `\` on Windows). Stated here for texts that every
/// platform reads alike, and for a relative path only where the base is not
/// empty and does not already end with `/`; the rest (Windows prefixes and
/// verbatim paths, a base that ends with a separator) is left unsaid.
#[verifier::external_body]
pub(crate) fn path_join(base: &str, rel: &str) -> (res: String)
    ensures
        platform_neutral_path(base@) && platform_neutral_path(rel@) && starts_with_root(rel@)
            ==> res@ == rel@,
        platform_neutral_path(base@) && platform_neutral_path(rel@) && !starts_with_root(rel@)
            && base@.len() > 0 && base@.last() != '/' ==> (res@ == base@ + seq!['/'] + rel@
            || res@ == base@ + seq!['\\'] + rel@),
{
    std::path::Path::new(base).join(rel).display().to_string()
}

/// `Path::extension` on a path text.
///
/// Trusted: std documents the extension as the part of the file name after
/// its last `.`, so a text without a `.` has none, and an extension, when there
/// is one, occurs in the text right after a `.`. On a text that every platform
/// reads alike the result is a function of the text, named
/// [`std_path_extension`]; elsewhere which part is the file name depends on
/// the platform and is left unsaid.
#[verifier::external_body]
pub(crate) fn path_extension(path: &str) -> (res: Option<String>)
    ensures
        !path@.contains('.') ==> res is None,
        res matches Some(e) ==> contains_seq(path@, seq!['.'] + e@),
        platform_neutral_path(path@) ==> opt_text(res) == std_path_extension(path@),
{
    std::path::Path::new(path).extension().map(|e| e.to_string_lossy().into_owned())
}

} // verus!
