//! Character- and string-level primitives shared by the whole library.
//!
//! Name matching throughout the launcher is ASCII-case-insensitive: only the
//! letters `A`..`Z` are folded to lower case, every other character is kept
//! as it is.  Trimming removes the ASCII whitespace characters space, tab,
//! line feed and carriage return.

use vstd::prelude::*;
use vstd::string::StrSliceExecFns;
use vstd::string::StringExecFns;

verus! {

/// True for the ASCII uppercase letters `A`..`Z`.
pub open spec fn is_ascii_upper(c: char) -> bool {
    'A' <= c && c <= 'Z'
}

/// ASCII lower-case projection of a character: `A`..`Z` are folded to
/// `a`..`z`, everything else is unchanged.
pub open spec fn lower_char(c: char) -> char {
    if is_ascii_upper(c) {
        ((c as u8) + 32) as char
    } else {
        c
    }
}

/// A sequence of characters, each folded by [`lower_char`].
pub open spec fn lower_seq(s: Seq<char>) -> Seq<char> {
    s.map_values(|c: char| lower_char(c))
}

/// True for ASCII letters `a`..`z` and `A`..`Z` and digits `0`..`9`.
pub open spec fn is_ascii_alnum(c: char) -> bool {
    ('a' <= c && c <= 'z') || ('A' <= c && c <= 'Z') || ('0' <= c && c <= '9')
}

/// ASCII whitespace trimmed from the ends of values before they are used.
pub open spec fn is_space(c: char) -> bool {
    c == ' ' || c == '\t' || c == '\n' || c == '\r'
}

/// `s` with leading ASCII whitespace removed.
pub open spec fn trim_start_spec(s: Seq<char>) -> Seq<char>
    decreases s.len(),
{
    if s.len() > 0 && is_space(s[0]) {
        trim_start_spec(s.drop_first())
    } else {
        s
    }
}

/// `s` with trailing ASCII whitespace removed.
pub open spec fn trim_end_spec(s: Seq<char>) -> Seq<char>
    decreases s.len(),
{
    if s.len() > 0 && is_space(s.last()) {
        trim_end_spec(s.drop_last())
    } else {
        s
    }
}

/// `s` with leading and trailing ASCII whitespace removed.
pub open spec fn trim_spec(s: Seq<char>) -> Seq<char> {
    trim_end_spec(trim_start_spec(s))
}

/// The needle occurs somewhere in the haystack.
pub open spec fn contains_seq(hay: Seq<char>, needle: Seq<char>) -> bool {
    exists|i: int|
        0 <= i && i + needle.len() <= hay.len() && #[trigger] hay.subrange(i, i + needle.len())
            == needle
}

/// Folds one character to ASCII lower case.
pub fn to_lower_char(c: char) -> (r: char)
    ensures
        r == lower_char(c),
{
    if 'A' <= c && c <= 'Z' {
        let u: u8 = c as u8;
        (u + 32) as char
    } else {
        c
    }
}

/// Whether two string slices hold the same characters.
pub fn str_eq(a: &str, b: &str) -> (r: bool)
    ensures
        r == (a@ == b@),
{
    let alen = a.unicode_len();
    let blen = b.unicode_len();
    if alen != blen {
        return false;
    }
    let mut i: usize = 0;
    while i < alen
        invariant
            0 <= i <= alen,
            alen == a@.len(),
            alen == b@.len(),
            forall|k: int| 0 <= k < i ==> a@[k] == b@[k],
        decreases alen - i,
    {
        if a.get_char(i) != b.get_char(i) {
            return false;
        }
        i = i + 1;
    }
    proof {
        assert(a@ =~= b@);
    }
    true
}

/// Whether two string slices hold the same characters up to ASCII case.
pub fn str_eq_ignore_case(a: &str, b: &str) -> (r: bool)
    ensures
        r == (lower_seq(a@) == lower_seq(b@)),
{
    let alen = a.unicode_len();
    let blen = b.unicode_len();
    if alen != blen {
        proof {
            assert(lower_seq(a@).len() == a@.len());
            assert(lower_seq(b@).len() == b@.len());
        }
        return false;
    }
    let mut i: usize = 0;
    while i < alen
        invariant
            0 <= i <= alen,
            alen == a@.len(),
            alen == b@.len(),
            forall|k: int| 0 <= k < i ==> lower_char(a@[k]) == lower_char(b@[k]),
        decreases alen - i,
    {
        if to_lower_char(a.get_char(i)) != to_lower_char(b.get_char(i)) {
            proof {
                assert(lower_seq(a@)[i as int] != lower_seq(b@)[i as int]);
            }
            return false;
        }
        i = i + 1;
    }
    proof {
        assert(lower_seq(a@) =~= lower_seq(b@));
    }
    true
}

/// Whether `s` begins with `prefix`.
pub fn starts_with_str(s: &str, prefix: &str) -> (r: bool)
    ensures
        r == prefix@.is_prefix_of(s@),
{
    let slen = s.unicode_len();
    let plen = prefix.unicode_len();
    if plen > slen {
        return false;
    }
    let mut i: usize = 0;
    while i < plen
        invariant
            0 <= i <= plen <= slen,
            slen == s@.len(),
            plen == prefix@.len(),
            forall|k: int| 0 <= k < i ==> s@[k] == prefix@[k],
        decreases plen - i,
    {
        if s.get_char(i) != prefix.get_char(i) {
            proof {
                assert(s@.subrange(0, plen as int)[i as int] != prefix@[i as int]);
            }
            return false;
        }
        i = i + 1;
    }
    proof {
        assert(s@.subrange(0, plen as int) =~= prefix@);
    }
    true
}

/// Whether `s` ends with `suffix`.
pub fn ends_with_str(s: &str, suffix: &str) -> (r: bool)
    ensures
        r == suffix@.is_suffix_of(s@),
{
    let slen = s.unicode_len();
    let xlen = suffix.unicode_len();
    if xlen > slen {
        return false;
    }
    let off = slen - xlen;
    let mut i: usize = 0;
    while i < xlen
        invariant
            0 <= i <= xlen <= slen,
            off == slen - xlen,
            slen == s@.len(),
            xlen == suffix@.len(),
            forall|k: int| 0 <= k < i ==> s@[off + k] == suffix@[k],
        decreases xlen - i,
    {
        if s.get_char(off + i) != suffix.get_char(i) {
            proof {
                assert(s@.subrange(off as int, slen as int)[i as int] != suffix@[i as int]);
            }
            return false;
        }
        i = i + 1;
    }
    proof {
        assert(s@.subrange(off as int, slen as int) =~= suffix@);
    }
    true
}

/// Whether the characters of `s` from position `at` on match `needle`.
fn matches_at(s: &str, needle: &str, at: usize) -> (r: bool)
    requires
        at + needle@.len() <= s@.len(),
    ensures
        r == (s@.subrange(at as int, at + needle@.len()) == needle@),
{
    let slen = s.unicode_len();
    let nlen = needle.unicode_len();
    let mut i: usize = 0;
    while i < nlen
        invariant
            0 <= i <= nlen,
            slen == s@.len(),
            at + nlen <= slen,
            nlen == needle@.len(),
            forall|k: int| 0 <= k < i ==> s@[at + k] == needle@[k],
        decreases nlen - i,
    {
        if s.get_char(at + i) != needle.get_char(i) {
            proof {
                assert(s@.subrange(at as int, at + needle@.len())[i as int] != needle@[i as int]);
            }
            return false;
        }
        i = i + 1;
    }
    proof {
        assert(s@.subrange(at as int, at + needle@.len()) =~= needle@);
    }
    true
}

/// Whether `needle` occurs somewhere in `s`.
pub fn contains_str(s: &str, needle: &str) -> (r: bool)
    ensures
        r == contains_seq(s@, needle@),
{
    let slen = s.unicode_len();
    let nlen = needle.unicode_len();
    if nlen > slen {
        return false;
    }
    if nlen == 0 {
        proof {
            assert(s@.subrange(0, 0 + needle@.len() as int) =~= needle@);
        }
        return true;
    }
    let last = slen - nlen;
    let mut i: usize = 0;
    while i <= last
        invariant
            0 <= i <= last + 1,
            1 <= nlen,
            last == slen - nlen,
            slen == s@.len(),
            nlen == needle@.len(),
            forall|k: int| 0 <= k < i ==> #[trigger] s@.subrange(k, k + needle@.len()) != needle@,
        decreases last + 1 - i,
    {
        if matches_at(s, needle, i) {
            return true;
        }
        i = i + 1;
    }
    proof {
        assert forall|k: int| 0 <= k && k + needle@.len() <= s@.len() implies #[trigger] s@
            .subrange(k, k + needle@.len()) != needle@ by {
            assert(0 <= k < i);
        }
    }
    false
}

/// The single-character string slice for a lower-case ASCII letter or digit.
pub fn lower_alnum_str(c: char) -> (r: &'static str)
    requires
        ('a' <= c && c <= 'z') || ('0' <= c && c <= '9'),
    ensures
        r@ == seq![c],
{
    let r: &'static str = match c {
        'a' => { proof { reveal_strlit("a"); } "a" },
        'b' => { proof { reveal_strlit("b"); } "b" },
        'c' => { proof { reveal_strlit("c"); } "c" },
        'd' => { proof { reveal_strlit("d"); } "d" },
        'e' => { proof { reveal_strlit("e"); } "e" },
        'f' => { proof { reveal_strlit("f"); } "f" },
        'g' => { proof { reveal_strlit("g"); } "g" },
        'h' => { proof { reveal_strlit("h"); } "h" },
        'i' => { proof { reveal_strlit("i"); } "i" },
        'j' => { proof { reveal_strlit("j"); } "j" },
        'k' => { proof { reveal_strlit("k"); } "k" },
        'l' => { proof { reveal_strlit("l"); } "l" },
        'm' => { proof { reveal_strlit("m"); } "m" },
        'n' => { proof { reveal_strlit("n"); } "n" },
        'o' => { proof { reveal_strlit("o"); } "o" },
        'p' => { proof { reveal_strlit("p"); } "p" },
        'q' => { proof { reveal_strlit("q"); } "q" },
        'r' => { proof { reveal_strlit("r"); } "r" },
        's' => { proof { reveal_strlit("s"); } "s" },
        't' => { proof { reveal_strlit("t"); } "t" },
        'u' => { proof { reveal_strlit("u"); } "u" },
        'v' => { proof { reveal_strlit("v"); } "v" },
        'w' => { proof { reveal_strlit("w"); } "w" },
        'x' => { proof { reveal_strlit("x"); } "x" },
        'y' => { proof { reveal_strlit("y"); } "y" },
        'z' => { proof { reveal_strlit("z"); } "z" },
        '0' => { proof { reveal_strlit("0"); } "0" },
        '1' => { proof { reveal_strlit("1"); } "1" },
        '2' => { proof { reveal_strlit("2"); } "2" },
        '3' => { proof { reveal_strlit("3"); } "3" },
        '4' => { proof { reveal_strlit("4"); } "4" },
        '5' => { proof { reveal_strlit("5"); } "5" },
        '6' => { proof { reveal_strlit("6"); } "6" },
        '7' => { proof { reveal_strlit("7"); } "7" },
        '8' => { proof { reveal_strlit("8"); } "8" },
        _ => { proof { reveal_strlit("9"); } "9" },
    };
    proof {
        assert(r@ =~= seq![c]);
    }
    r
}

/// `s` folded to ASCII lower case, character by character.
pub fn to_lowercase_str(s: &str) -> (r: String)
    ensures
        r@ == lower_seq(s@),
{
    let slen = s.unicode_len();
    let mut r = String::new();
    let mut i: usize = 0;
    while i < slen
        invariant
            0 <= i <= slen,
            slen == s@.len(),
            r@ =~= lower_seq(s@.take(i as int)),
        decreases slen - i,
    {
        let c = s.get_char(i);
        if 'A' <= c && c <= 'Z' {
            r.append(lower_alnum_str(to_lower_char(c)));
        } else {
            let piece = s.substring_char(i, i + 1);
            r.append(piece);
        }
        proof {
            assert(s@.take(i + 1).drop_last() =~= s@.take(i as int));
            assert(lower_seq(s@.take(i + 1)) =~= lower_seq(s@.take(i as int)).push(
                lower_char(s@[i as int]),
            ));
        }
        i = i + 1;
    }
    proof {
        assert(s@.take(slen as int) =~= s@);
    }
    r
}

/// The start of the first run of non-whitespace characters, as an index pair:
/// proves that trimming equals taking the subrange between them.
proof fn lemma_trim_start_subrange(s: Seq<char>, i: int)
    requires
        0 <= i <= s.len(),
        forall|k: int| 0 <= k < i ==> is_space(s[k]),
        i < s.len() ==> !is_space(s[i]),
    ensures
        trim_start_spec(s) == s.subrange(i, s.len() as int),
    decreases i,
{
    if i == 0 {
        if s.len() > 0 && is_space(s[0]) {
            assert(false);
        }
        assert(s.subrange(0, s.len() as int) =~= s);
    } else {
        assert(is_space(s[0]));
        lemma_trim_start_subrange(s.drop_first(), i - 1);
        assert(s.drop_first().subrange(i - 1, s.drop_first().len() as int) =~= s.subrange(
            i,
            s.len() as int,
        ));
    }
}

proof fn lemma_trim_end_subrange(s: Seq<char>, j: int)
    requires
        0 <= j <= s.len(),
        forall|k: int| j <= k < s.len() ==> is_space(s[k]),
        j > 0 ==> !is_space(s[j - 1]),
    ensures
        trim_end_spec(s) == s.subrange(0, j),
    decreases s.len() - j,
{
    if j == s.len() {
        if s.len() > 0 && is_space(s.last()) {
            assert(false);
        }
        assert(s.subrange(0, s.len() as int) =~= s);
    } else {
        assert(is_space(s.last()));
        lemma_trim_end_subrange(s.drop_last(), j);
        assert(s.drop_last().subrange(0, j) =~= s.subrange(0, j));
    }
}

/// `s` with leading and trailing ASCII whitespace removed.
pub fn trim_str<'a>(s: &'a str) -> (r: &'a str)
    ensures
        r@ == trim_spec(s@),
{
    let slen = s.unicode_len();
    let mut start: usize = 0;
    while start < slen && is_space_char(s.get_char(start))
        invariant
            0 <= start <= slen,
            slen == s@.len(),
            forall|k: int| 0 <= k < start ==> is_space(s@[k]),
        decreases slen - start,
    {
        start = start + 1;
    }
    let mut end: usize = slen;
    while end > start && is_space_char(s.get_char(end - 1))
        invariant
            start <= end <= slen,
            slen == s@.len(),
            forall|k: int| 0 <= k < start ==> is_space(s@[k]),
            start < slen ==> !is_space(s@[start as int]),
            forall|k: int| end <= k < slen ==> is_space(s@[k]),
        decreases end,
    {
        end = end - 1;
    }
    let r = s.substring_char(start, end);
    proof {
        lemma_trim_start_subrange(s@, start as int);
        let t = s@.subrange(start as int, slen as int);
        if end > start {
            lemma_trim_end_subrange(t, end - start);
        } else {
            lemma_trim_end_subrange(t, 0);
        }
        assert(t.subrange(0, end - start) =~= s@.subrange(start as int, end as int));
    }
    r
}

/// Whether the character is ASCII whitespace.
pub fn is_space_char(c: char) -> (r: bool)
    ensures
        r == is_space(c),
{
    c == ' ' || c == '\t' || c == '\n' || c == '\r'
}

/// `s` with every trailing repetition of `suf` removed.
pub open spec fn strip_suffix_all(s: Seq<char>, suf: Seq<char>) -> Seq<char>
    decreases s.len(),
{
    if suf.len() > 0 && suf.is_suffix_of(s) {
        strip_suffix_all(s.subrange(0, s.len() - suf.len()), suf)
    } else {
        s
    }
}

/// Removes every trailing repetition of `suf` from `s`.
pub fn strip_suffix_all_str<'a>(s: &'a str, suf: &str) -> (r: &'a str)
    ensures
        r@ == strip_suffix_all(s@, suf@),
{
    let suf_len = suf.unicode_len();
    let mut cur: &'a str = s;
    loop
        invariant
            suf_len == suf@.len(),
            strip_suffix_all(s@, suf@) == strip_suffix_all(cur@, suf@),
        decreases cur@.len(),
    {
        if suf_len == 0 {
            return cur;
        }
        if !ends_with_str(cur, suf) {
            return cur;
        }
        let cur_len = cur.unicode_len();
        cur = cur.substring_char(0, cur_len - suf_len);
    }
}

/// The first line of `s`: the characters before the first line feed.
pub open spec fn first_line_spec(s: Seq<char>) -> Seq<char>
    decreases s.len(),
{
    if s.len() == 0 {
        s
    } else if s[0] == '\n' {
        Seq::empty()
    } else {
        seq![s[0]] + first_line_spec(s.drop_first())
    }
}

/// A line with one trailing carriage return removed, as `str::lines` yields it.
pub open spec fn strip_cr(l: Seq<char>) -> Seq<char> {
    if l.len() > 0 && l.last() == '\r' {
        l.drop_last()
    } else {
        l
    }
}

proof fn lemma_first_line_subrange(s: Seq<char>, i: int)
    requires
        0 <= i <= s.len(),
        forall|k: int| 0 <= k < i ==> s[k] != '\n',
        i < s.len() ==> s[i] == '\n',
    ensures
        first_line_spec(s) == s.subrange(0, i),
    decreases i,
{
    if s.len() == 0 {
        assert(s.subrange(0, 0) =~= s);
    } else if i == 0 {
        assert(s.subrange(0, 0) =~= Seq::<char>::empty());
    } else {
        lemma_first_line_subrange(s.drop_first(), i - 1);
        assert(s.drop_first().subrange(0, i - 1) =~= s.subrange(1, i));
        assert(seq![s[0]] + s.subrange(1, i) =~= s.subrange(0, i));
    }
}

/// The characters of `s` before the first occurrence of `stop` (all of `s`
/// when `stop` does not occur).
pub open spec fn take_until_spec(s: Seq<char>, stop: char) -> Seq<char>
    decreases s.len(),
{
    if s.len() == 0 {
        s
    } else if s[0] == stop {
        Seq::empty()
    } else {
        seq![s[0]] + take_until_spec(s.drop_first(), stop)
    }
}

proof fn lemma_take_until_subrange(s: Seq<char>, stop: char, i: int)
    requires
        0 <= i <= s.len(),
        forall|k: int| 0 <= k < i ==> s[k] != stop,
        i < s.len() ==> s[i] == stop,
    ensures
        take_until_spec(s, stop) == s.subrange(0, i),
    decreases i,
{
    if s.len() == 0 {
        assert(s.subrange(0, 0) =~= s);
    } else if i == 0 {
        assert(s.subrange(0, 0) =~= Seq::<char>::empty());
    } else {
        lemma_take_until_subrange(s.drop_first(), stop, i - 1);
        assert(s.drop_first().subrange(0, i - 1) =~= s.subrange(1, i));
        assert(seq![s[0]] + s.subrange(1, i) =~= s.subrange(0, i));
    }
}

/// The prefix of `s` before the first occurrence of `stop`.
pub fn take_until_str<'a>(s: &'a str, stop: char) -> (r: &'a str)
    ensures
        r@ == take_until_spec(s@, stop),
{
    let slen = s.unicode_len();
    let mut i: usize = 0;
    while i < slen && s.get_char(i) != stop
        invariant
            0 <= i <= slen,
            slen == s@.len(),
            forall|k: int| 0 <= k < i ==> s@[k] != stop,
        decreases slen - i,
    {
        i = i + 1;
    }
    proof {
        lemma_take_until_subrange(s@, stop, i as int);
    }
    s.substring_char(0, i)
}

/// `s` with every leading occurrence of `c` removed.
pub open spec fn trim_char_start(s: Seq<char>, c: char) -> Seq<char>
    decreases s.len(),
{
    if s.len() > 0 && s[0] == c {
        trim_char_start(s.drop_first(), c)
    } else {
        s
    }
}

/// `s` with every trailing occurrence of `c` removed.
pub open spec fn trim_char_end(s: Seq<char>, c: char) -> Seq<char>
    decreases s.len(),
{
    if s.len() > 0 && s.last() == c {
        trim_char_end(s.drop_last(), c)
    } else {
        s
    }
}

proof fn lemma_trim_char_start_subrange(s: Seq<char>, c: char, i: int)
    requires
        0 <= i <= s.len(),
        forall|k: int| 0 <= k < i ==> s[k] == c,
        i < s.len() ==> s[i] != c,
    ensures
        trim_char_start(s, c) == s.subrange(i, s.len() as int),
    decreases i,
{
    if i == 0 {
        assert(s.subrange(0, s.len() as int) =~= s);
    } else {
        lemma_trim_char_start_subrange(s.drop_first(), c, i - 1);
        assert(s.drop_first().subrange(i - 1, s.drop_first().len() as int) =~= s.subrange(
            i,
            s.len() as int,
        ));
    }
}

proof fn lemma_trim_char_end_subrange(s: Seq<char>, c: char, j: int)
    requires
        0 <= j <= s.len(),
        forall|k: int| j <= k < s.len() ==> s[k] == c,
        j > 0 ==> s[j - 1] != c,
    ensures
        trim_char_end(s, c) == s.subrange(0, j),
    decreases s.len() - j,
{
    if j == s.len() {
        assert(s.subrange(0, s.len() as int) =~= s);
    } else {
        lemma_trim_char_end_subrange(s.drop_last(), c, j);
        assert(s.drop_last().subrange(0, j) =~= s.subrange(0, j));
    }
}

/// `s` with every leading and trailing occurrence of `c` removed.
pub fn trim_matching_char<'a>(s: &'a str, c: char) -> (r: &'a str)
    ensures
        r@ == trim_char_end(trim_char_start(s@, c), c),
{
    let slen = s.unicode_len();
    let mut start: usize = 0;
    while start < slen && s.get_char(start) == c
        invariant
            0 <= start <= slen,
            slen == s@.len(),
            forall|k: int| 0 <= k < start ==> s@[k] == c,
        decreases slen - start,
    {
        start = start + 1;
    }
    let mut end: usize = slen;
    while end > start && s.get_char(end - 1) == c
        invariant
            start <= end <= slen,
            slen == s@.len(),
            forall|k: int| 0 <= k < start ==> s@[k] == c,
            start < slen ==> s@[start as int] != c,
            forall|k: int| end <= k < slen ==> s@[k] == c,
        decreases end,
    {
        end = end - 1;
    }
    let r = s.substring_char(start, end);
    proof {
        lemma_trim_char_start_subrange(s@, c, start as int);
        let t = s@.subrange(start as int, slen as int);
        if end > start {
            lemma_trim_char_end_subrange(t, c, end - start);
        } else {
            lemma_trim_char_end_subrange(t, c, 0);
        }
        assert(t.subrange(0, end - start) =~= s@.subrange(start as int, end as int));
    }
    r
}

/// The first line of `s`, with a trailing carriage return removed.
pub fn first_line_str<'a>(s: &'a str) -> (r: &'a str)
    ensures
        r@ == strip_cr(first_line_spec(s@)),
{
    let slen = s.unicode_len();
    let mut i: usize = 0;
    while i < slen && s.get_char(i) != '\n'
        invariant
            0 <= i <= slen,
            slen == s@.len(),
            forall|k: int| 0 <= k < i ==> s@[k] != '\n',
        decreases slen - i,
    {
        i = i + 1;
    }
    proof {
        lemma_first_line_subrange(s@, i as int);
    }
    if i > 0 && s.get_char(i - 1) == '\r' {
        let r = s.substring_char(0, i - 1);
        proof {
            assert(s@.subrange(0, i as int).drop_last() =~= s@.subrange(0, i - 1));
        }
        r
    } else {
        s.substring_char(0, i)
    }
}

} // verus!
