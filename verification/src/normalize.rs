//! Name normalization: the lowercase, ASCII-alphanumeric-only projection of a
//! display or application name, used as the registry's lookup key.

use vstd::prelude::*;
use vstd::string::StrSliceExecFns;
use vstd::string::StringExecFns;

use crate::text::is_ascii_alnum;
use crate::text::is_ascii_upper;
use crate::text::lower_alnum_str;
use crate::text::lower_char;
use crate::text::to_lower_char;

verus! {

/// The normalized form of a name: each character folded to ASCII lower case,
/// and every character that is not an ASCII letter or digit dropped.
pub open spec fn normalize_chars(s: Seq<char>) -> Seq<char>
    decreases s.len(),
{
    if s.len() == 0 {
        Seq::empty()
    } else {
        let rest = normalize_chars(s.drop_last());
        let c = lower_char(s.last());
        if is_ascii_alnum(c) {
            rest.push(c)
        } else {
            rest
        }
    }
}

/// Every character of a normalized name is a lower-case ASCII letter or digit.
pub proof fn lemma_normalize_chars_lower_alnum(s: Seq<char>)
    ensures
        forall|i: int|
            0 <= i < normalize_chars(s).len() ==> is_ascii_alnum(#[trigger] normalize_chars(s)[i])
                && lower_char(normalize_chars(s)[i]) == normalize_chars(s)[i],
    decreases s.len(),
{
    if s.len() > 0 {
        lemma_normalize_chars_lower_alnum(s.drop_last());
        let rest = normalize_chars(s.drop_last());
        let c = lower_char(s.last());
        if is_ascii_alnum(c) {
            assert(normalize_chars(s) == rest.push(c));
            assert(!is_ascii_upper(c));
            assert forall|i: int| 0 <= i < normalize_chars(s).len() implies is_ascii_alnum(
                #[trigger] normalize_chars(s)[i],
            ) && lower_char(normalize_chars(s)[i]) == normalize_chars(s)[i] by {
                if i < rest.len() {
                    assert(normalize_chars(s)[i] == rest[i]);
                } else {
                    assert(normalize_chars(s)[i] == c);
                }
            }
        } else {
            assert(normalize_chars(s) == rest);
        }
    }
}

/// Normalization leaves a string of lower-case ASCII letters and digits as it is.
proof fn lemma_normalize_chars_fixed(s: Seq<char>)
    requires
        forall|i: int|
            0 <= i < s.len() ==> is_ascii_alnum(#[trigger] s[i]) && lower_char(s[i]) == s[i],
    ensures
        normalize_chars(s) == s,
    decreases s.len(),
{
    if s.len() > 0 {
        assert(is_ascii_alnum(s.last()) && lower_char(s.last()) == s.last());
        lemma_normalize_chars_fixed(s.drop_last());
        assert(normalize_chars(s.drop_last()).push(lower_char(s.last())) =~= s);
    } else {
        assert(normalize_chars(s) =~= s);
    }
}

/// Normalization is idempotent: normalizing a normalized name changes nothing.
pub proof fn lemma_normalize_idempotent(s: Seq<char>)
    ensures
        normalize_chars(normalize_chars(s)) == normalize_chars(s),
{
    lemma_normalize_chars_lower_alnum(s);
    lemma_normalize_chars_fixed(normalize_chars(s));
}

/// Normalizes a name to its registry key: lower case, ASCII letters and
/// digits only, all other characters stripped.
pub fn normalize_app_name(name: &str) -> (r: String)
    ensures
        r@ == normalize_chars(name@),
{
    let slen = name.unicode_len();
    let mut r = String::new();
    let mut i: usize = 0;
    while i < slen
        invariant
            0 <= i <= slen,
            slen == name@.len(),
            r@ =~= normalize_chars(name@.take(i as int)),
        decreases slen - i,
    {
        let c = to_lower_char(name.get_char(i));
        proof {
            assert(name@.take(i + 1).drop_last() =~= name@.take(i as int));
            assert(name@.take(i + 1).last() == name@[i as int]);
            assert(!is_ascii_upper(lower_char(name@[i as int])));
        }
        if ('a' <= c && c <= 'z') || ('0' <= c && c <= '9') {
            r.append(lower_alnum_str(c));
        }
        i = i + 1;
    }
    proof {
        assert(name@.take(slen as int) =~= name@);
    }
    r
}

} // verus!
