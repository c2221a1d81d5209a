//! Glob matching of resource types and actions, done by the `glob` crate.
use vstd::prelude::*;

verus! {

/// Whether `glob::Pattern::new` accepts `pattern` as a glob pattern.
pub uninterp spec fn glob_pattern_accepted(pattern: Seq<char>) -> bool;

/// Whether the pattern compiled from `pattern` by `glob::Pattern::new`
/// matches `value` under `glob::Pattern::matches` (default match options).
pub uninterp spec fn glob_pattern_matches(pattern: Seq<char>, value: Seq<char>) -> bool;

/// Whether the text holds a `'\\'`, the one character that some platforms
/// (and only some) treat as a path separator in glob matching.
pub open spec fn has_backslash(s: Seq<char>) -> bool {
    exists|i: int| 0 <= i < s.len() && s[i] == '\\'
}

/// Whether a pattern holds no glob metacharacter (`*`, `?`, `[`) and no `'\\'`:
/// it is then read as plain characters.
pub open spec fn is_literal_pattern(p: Seq<char>) -> bool {
    forall|i: int|
        0 <= i < p.len() ==> p[i] != '*' && p[i] != '?' && p[i] != '[' && p[i] != '\\'
}

/// Compiles `pattern` with `glob::Pattern::new` and, when that succeeds,
/// matches `value` against it with `glob::Pattern::matches`.
///
/// Trusted. It returns `None` when the pattern does not compile. Without a
/// `'\\'` in the text involved, whether the pattern compiles and whether it
/// matches do not depend on the platform: the contract ties them to the names
/// [`glob_pattern_accepted`] and [`glob_pattern_matches`] in that case. The
/// source also shows that a pattern made of plain characters always compiles
/// into a sequence of literal tokens, each of which matches exactly that
/// character. What the crate decides where a `'\\'` occurs (a separator on
/// Windows, a plain character elsewhere) is left unsaid.
#[verifier::external_body]
pub(crate) fn glob_match(pattern: &str, value: &str) -> (res: Option<bool>)
    ensures
        !has_backslash(pattern@) ==> (res is Some <==> glob_pattern_accepted(pattern@)),
        !has_backslash(pattern@) && !has_backslash(value@) ==> (res matches Some(b) ==> b
            == glob_pattern_matches(pattern@, value@)),
        is_literal_pattern(pattern@) && !has_backslash(value@) ==> res == Some(pattern@ == value@),
{
    match glob::Pattern::new(pattern) {
        Ok(compiled) => Some(compiled.matches(value)),
        Err(_) => None,
    }
}

} // verus!
