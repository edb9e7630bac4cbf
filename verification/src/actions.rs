//! Free-standing action helpers: URL validation, the fallback URL offered
//! when an application cannot be opened, the character allowlist applied to
//! names before they reach a shell-invoking code path, and the
//! classification of spawn failures.

use vstd::prelude::*;
use vstd::string::StrSliceExecFns;
use vstd::string::StringExecFns;

use crate::text::contains_seq;
use crate::text::contains_str;
use crate::text::is_ascii_alnum;
use crate::text::lower_seq;
use crate::text::starts_with_str;
use crate::text::str_eq;
use crate::text::to_lowercase_str;
use crate::text::trim_spec;
use crate::text::trim_str;

verus! {

/// A URL is accepted only when, after trimming, it starts with `http://` or
/// `https://`.
pub open spec fn valid_url_spec(url: Seq<char>) -> bool {
    "https://"@.is_prefix_of(trim_spec(url)) || "http://"@.is_prefix_of(trim_spec(url))
}

/// Whether the value is a well-formed web URL for the dispatcher's purposes.
pub fn is_valid_url(url: &str) -> (r: bool)
    ensures
        r == valid_url_spec(url@),
{
    let trimmed = trim_str(url);
    starts_with_str(trimmed, "https://") || starts_with_str(trimmed, "http://")
}

/// The URL offered as a fallback action for a value: the value trimmed and
/// lower-cased, wrapped as `https://www.<value>.com`, with the literal
/// `youtube` mapped to `https://www.youtube.com`.
pub open spec fn fallback_url_spec(value: Seq<char>) -> Seq<char> {
    let normalized = lower_seq(trim_spec(value));
    if normalized == "youtube"@ {
        "https://www.youtube.com"@
    } else {
        "https://www."@ + normalized + ".com"@
    }
}

/// Builds the fallback URL for a value that could not be opened as an
/// application.
pub fn build_fallback_url(value: &str) -> (r: String)
    ensures
        r@ == fallback_url_spec(value@),
{
    let trimmed = trim_str(value);
    let normalized = to_lowercase_str(trimmed);
    if str_eq(normalized.as_str(), "youtube") {
        String::from_str("https://www.youtube.com")
    } else {
        let mut r = String::from_str("https://www.");
        r.append(normalized.as_str());
        r.append(".com");
        r
    }
}

/// A name may reach the OS shell only when, after trimming, it is non-empty
/// and holds nothing but ASCII letters, digits and spaces.  This rejects the
/// shell metacharacters `& | > < ; " '` along with every other symbol.
pub open spec fn shell_safe_name(t: Seq<char>) -> bool {
    t.len() > 0 && forall|i: int| 0 <= i < t.len() ==> is_ascii_alnum(#[trigger] t[i]) || t[i]
        == ' '
}

/// Validates a free-text application name before OS-native resolution.
/// Returns the trimmed name, or the error reported for an empty or unsafe one.
pub fn sanitize_windows_app_name(app_name: &str) -> (r: Result<String, String>)
    ensures
        ({
            let t = trim_spec(app_name@);
            match r {
                Ok(s) => s@ == t && shell_safe_name(t),
                Err(e) => (t.len() == 0 && e@ == "Empty app name"@) || (t.len() > 0
                    && !shell_safe_name(t) && e@ == "Invalid characters in app name"@),
            }
        }),
{
    let trimmed = trim_str(app_name);
    let tlen = trimmed.unicode_len();
    if tlen == 0 {
        return Err(String::from_str("Empty app name"));
    }
    let mut i: usize = 0;
    while i < tlen
        invariant
            0 <= i <= tlen,
            tlen == trimmed@.len(),
            trimmed@ == trim_spec(app_name@),
            forall|k: int| 0 <= k < i ==> is_ascii_alnum(#[trigger] trimmed@[k]) || trimmed@[k]
                == ' ',
        decreases tlen - i,
    {
        let c = trimmed.get_char(i);
        let allowed = ('a' <= c && c <= 'z') || ('A' <= c && c <= 'Z') || ('0' <= c && c <= '9')
            || c == ' ';
        if !allowed {
            proof {
                assert(!(is_ascii_alnum(trimmed@[i as int]) || trimmed@[i as int] == ' '));
            }
            return Err(String::from_str("Invalid characters in app name"));
        }
        i = i + 1;
    }
    Ok(String::from_str(trimmed))
}

/// The error reported when an application name resolves nowhere.
pub fn unknown_app_error(value: &str) -> (r: String)
    ensures
        r@ == "Unknown app: "@ + value@,
{
    let mut r = String::from_str("Unknown app: ");
    r.append(value);
    r
}

/// A spawn failure whose error text carries the OS elevation signal (the
/// error code 740, or the word `elevation`).
pub open spec fn is_elevation_error(err: Seq<char>) -> bool {
    contains_seq(err, "740"@) || contains_seq(err, "elevation"@)
}

/// Classifies a spawn failure: elevation-required failures are reported as a
/// demand for admin rights on the executable, all others verbatim.
pub fn classify_spawn_error(exe_path: &str, err: &str) -> (r: String)
    ensures
        is_elevation_error(err@) ==> r@ == "App requires admin rights: "@ + exe_path@,
        !is_elevation_error(err@) ==> r@ == "Spawn failed: "@ + err@,
{
    if contains_str(err, "740") || contains_str(err, "elevation") {
        let mut r = String::from_str("App requires admin rights: ");
        r.append(exe_path);
        r
    } else {
        let mut r = String::from_str("Spawn failed: ");
        r.append(err);
        r
    }
}

} // verus!
