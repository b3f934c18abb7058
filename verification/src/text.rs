//! Character- and string-level building blocks shared by the generators.
//!
//! Every operation is specified over the `Seq<char>` view of a string, so the
//! contracts of the generators can be read as statements about text.
use vstd::prelude::*;

verus! {

// ---------------------------------------------------------------------------
// Specifications
// ---------------------------------------------------------------------------

/// The Unicode `White_Space` characters (what `char::is_whitespace` accepts).
pub open spec fn is_ws(c: char) -> bool {
    ||| c == '\t'
    ||| c == '\n'
    ||| c == '\u{0B}'
    ||| c == '\u{0C}'
    ||| c == '\r'
    ||| c == ' '
    ||| c == '\u{85}'
    ||| c == '\u{A0}'
    ||| c == '\u{1680}'
    ||| ('\u{2000}' <= c && c <= '\u{200A}')
    ||| c == '\u{2028}'
    ||| c == '\u{2029}'
    ||| c == '\u{202F}'
    ||| c == '\u{205F}'
    ||| c == '\u{3000}'
}

/// `s` without its leading whitespace.
pub open spec fn trim_start(s: Seq<char>) -> Seq<char>
    decreases s.len(),
{
    if s.len() > 0 && is_ws(s[0]) {
        trim_start(s.drop_first())
    } else {
        s
    }
}

/// `s` without its trailing whitespace.
pub open spec fn trim_end(s: Seq<char>) -> Seq<char>
    decreases s.len(),
{
    if s.len() > 0 && is_ws(s.last()) {
        trim_end(s.drop_last())
    } else {
        s
    }
}

/// `s` without leading and trailing whitespace.
pub open spec fn trim(s: Seq<char>) -> Seq<char> {
    trim_end(trim_start(s))
}

/// The longest prefix of `s` that holds no whitespace.
pub open spec fn word_prefix(s: Seq<char>) -> Seq<char>
    decreases s.len(),
{
    if s.len() == 0 || is_ws(s[0]) {
        Seq::empty()
    } else {
        seq![s[0]] + word_prefix(s.drop_first())
    }
}

/// The first whitespace-separated word of `s`, if any
/// (what `split_whitespace().next()` yields).
pub open spec fn first_word(s: Seq<char>) -> Option<Seq<char>> {
    let t = trim_start(s);
    if t.len() == 0 {
        None
    } else {
        Some(word_prefix(t))
    }
}

/// `s` starts with the character `c`.
pub open spec fn starts_with_ch(s: Seq<char>, c: char) -> bool {
    s.len() > 0 && s[0] == c
}

/// `s` starts with `p`.
pub open spec fn starts_with(s: Seq<char>, p: Seq<char>) -> bool {
    p.len() <= s.len() && s.take(p.len() as int) == p
}

/// The parts joined with `sep` between each two of them.
pub open spec fn join(parts: Seq<Seq<char>>, sep: Seq<char>) -> Seq<char>
    decreases parts.len(),
{
    if parts.len() == 0 {
        Seq::empty()
    } else if parts.len() == 1 {
        parts[0]
    } else {
        join(parts.drop_last(), sep) + sep + parts.last()
    }
}

/// The views of a sequence of strings.
pub open spec fn views(v: Seq<String>) -> Seq<Seq<char>> {
    v.map_values(|s: String| s@)
}

/// `s` cut at every occurrence of `c` (the occurrences are dropped); always at
/// least one piece.
pub open spec fn split_at_char(s: Seq<char>, c: char) -> Seq<Seq<char>>
    decreases s.len(),
{
    if s.len() == 0 {
        seq![Seq::empty()]
    } else {
        let p = split_at_char(s.drop_last(), c);
        if s.last() == c {
            p.push(Seq::empty())
        } else {
            p.update(p.len() - 1, p.last().push(s.last()))
        }
    }
}

/// A line as `str::lines` yields it: without one trailing `'\r'` when the line
/// was ended by a `'\n'`.
pub open spec fn strip_cr(l: Seq<char>) -> Seq<char> {
    if l.len() > 0 && l.last() == '\r' {
        l.drop_last()
    } else {
        l
    }
}

/// The lines of `s` as `str::lines` yields them: pieces between `'\n'`s, each
/// ended line without a trailing `'\r'`, and no empty last piece.
pub open spec fn lines(s: Seq<char>) -> Seq<Seq<char>> {
    let pieces = split_at_char(s, '\n');
    let ended = pieces.drop_last().map_values(|l: Seq<char>| strip_cr(l));
    if pieces.last().len() == 0 {
        ended
    } else {
        ended.push(pieces.last())
    }
}

/// Every occurrence of `c` in `s` replaced by `r`.
pub open spec fn replace_char(s: Seq<char>, c: char, r: Seq<char>) -> Seq<char>
    decreases s.len(),
{
    if s.len() == 0 {
        Seq::empty()
    } else {
        replace_char(s.drop_last(), c, r) + (if s.last() == c {
            r
        } else {
            seq![s.last()]
        })
    }
}

/// The position of the first occurrence of `c` in `s`.
pub open spec fn find_char(s: Seq<char>, c: char) -> Option<int>
    decreases s.len(),
{
    if s.len() == 0 {
        None
    } else if s[0] == c {
        Some(0)
    } else {
        match find_char(s.drop_first(), c) {
            Some(k) => Some(k + 1),
            None => None,
        }
    }
}


/// The whitespace-separated words of `s` (what `split_whitespace` yields).
pub open spec fn words(s: Seq<char>) -> Seq<Seq<char>>
    decreases s.len(),
{
    if s.len() == 0 {
        Seq::empty()
    } else {
        let w = words(s.drop_last());
        let c = s.last();
        if is_ws(c) {
            w
        } else if s.len() >= 2 && !is_ws(s[s.len() - 2]) {
            w.update(w.len() - 1, w.last().push(c))
        } else {
            w.push(seq![c])
        }
    }
}

/// The position of the first `a` directly followed by `b` in `s`.
pub open spec fn find_pair(s: Seq<char>, a: char, b: char) -> Option<int>
    decreases s.len(),
{
    if s.len() < 2 {
        None
    } else if s[0] == a && s[1] == b {
        Some(0)
    } else {
        match find_pair(s.drop_first(), a, b) {
            Some(k) => Some(k + 1),
            None => None,
        }
    }
}

/// `s` without its trailing characters equal to `c`.
pub open spec fn trim_end_char(s: Seq<char>, c: char) -> Seq<char>
    decreases s.len(),
{
    if s.len() > 0 && s.last() == c {
        trim_end_char(s.drop_last(), c)
    } else {
        s
    }
}

/// ASCII punctuation (what `char::is_ascii_punctuation` accepts).
pub open spec fn is_ascii_punct(c: char) -> bool {
    ('!' <= c && c <= '/') || (':' <= c && c <= '@') || ('[' <= c && c <= '`') || ('{' <= c && c <= '~')
}

/// `s` without its trailing ASCII punctuation.
pub open spec fn trim_end_punct(s: Seq<char>) -> Seq<char>
    decreases s.len(),
{
    if s.len() > 0 && is_ascii_punct(s.last()) {
        trim_end_punct(s.drop_last())
    } else {
        s
    }
}

/// Whether `s` holds a whitespace character.
pub open spec fn has_ws(s: Seq<char>) -> bool {
    exists|i: int| 0 <= i < s.len() && is_ws(#[trigger] s[i])
}

// ---------------------------------------------------------------------------
// Lemmas
// ---------------------------------------------------------------------------

/// Skipping `k` whitespace characters that end at a non-whitespace one (or at
/// the end) is what `trim_start` does.
pub proof fn lemma_trim_start_at(s: Seq<char>, k: int)
    requires
        0 <= k <= s.len(),
        forall|j: int| 0 <= j < k ==> is_ws(#[trigger] s[j]),
        k == s.len() || !is_ws(s[k]),
    ensures
        trim_start(s) == s.subrange(k, s.len() as int),
    decreases k,
{
    if k == 0 {
        assert(s.subrange(0, s.len() as int) =~= s);
    } else {
        let t = s.drop_first();
        assert forall|j: int| 0 <= j < k - 1 implies is_ws(#[trigger] t[j]) by {
            assert(t[j] == s[j + 1]);
        }
        lemma_trim_start_at(t, k - 1);
        assert(t.subrange(k - 1, t.len() as int) =~= s.subrange(k, s.len() as int));
    }
}

/// Dropping trailing whitespace down to length `k` is what `trim_end` does.
pub proof fn lemma_trim_end_at(s: Seq<char>, k: int)
    requires
        0 <= k <= s.len(),
        forall|j: int| k <= j < s.len() ==> is_ws(#[trigger] s[j]),
        k == 0 || !is_ws(s[k - 1]),
    ensures
        trim_end(s) == s.subrange(0, k),
    decreases s.len() - k,
{
    if k == s.len() {
        assert(s.subrange(0, k) =~= s);
    } else {
        let t = s.drop_last();
        assert(is_ws(s[s.len() - 1]));
        assert forall|j: int| k <= j < t.len() implies is_ws(#[trigger] t[j]) by {
            assert(t[j] == s[j]);
        }
        lemma_trim_end_at(t, k);
        assert(t.subrange(0, k) =~= s.subrange(0, k));
    }
}

/// The word at the start of `s` ends at the first whitespace (or at the end).
pub proof fn lemma_word_prefix_at(s: Seq<char>, k: int)
    requires
        0 <= k <= s.len(),
        forall|j: int| 0 <= j < k ==> !is_ws(#[trigger] s[j]),
        k == s.len() || is_ws(s[k]),
    ensures
        word_prefix(s) == s.take(k),
    decreases k,
{
    if k == 0 {
        assert(s.take(0) =~= Seq::<char>::empty());
    } else {
        let t = s.drop_first();
        assert forall|j: int| 0 <= j < k - 1 implies !is_ws(#[trigger] t[j]) by {
            assert(t[j] == s[j + 1]);
        }
        lemma_word_prefix_at(t, k - 1);
        assert(seq![s[0]] + t.take(k - 1) =~= s.take(k));
    }
}

/// `find_char` finds the first occurrence.
pub proof fn lemma_find_char_at(s: Seq<char>, k: int, c: char)
    requires
        0 <= k <= s.len(),
        forall|j: int| 0 <= j < k ==> #[trigger] s[j] != c,
    ensures
        k < s.len() && s[k] == c ==> find_char(s, c) == Some(k),
        k == s.len() ==> find_char(s, c) is None,
    decreases k,
{
    if k > 0 {
        let t = s.drop_first();
        assert forall|j: int| 0 <= j < k - 1 implies #[trigger] t[j] != c by {
            assert(t[j] == s[j + 1]);
        }
        lemma_find_char_at(t, k - 1, c);
    } else if s.len() > 0 && s[0] != c {
    }
}

/// `find_pair` finds the first occurrence.
pub proof fn lemma_find_pair_at(s: Seq<char>, k: int, a: char, b: char)
    requires
        0 <= k,
        k + 1 <= s.len(),
        forall|j: int| 0 <= j < k ==> !(#[trigger] s[j] == a && s[j + 1] == b),
    ensures
        k + 1 < s.len() && s[k] == a && s[k + 1] == b ==> find_pair(s, a, b) == Some(k),
        k + 1 == s.len() ==> find_pair(s, a, b) is None,
    decreases k,
{
    if k > 0 {
        let t = s.drop_first();
        assert forall|j: int| 0 <= j < k - 1 implies !(#[trigger] t[j] == a && t[j + 1] == b) by {
            assert(t[j] == s[j + 1]);
            assert(t[j + 1] == s[j + 2]);
        }
        lemma_find_pair_at(t, k - 1, a, b);
    }
}

/// Dropping trailing `c`s down to length `k` is what `trim_end_char` does.
pub proof fn lemma_trim_end_char_at(s: Seq<char>, k: int, c: char)
    requires
        0 <= k <= s.len(),
        forall|j: int| k <= j < s.len() ==> #[trigger] s[j] == c,
        k == 0 || s[k - 1] != c,
    ensures
        trim_end_char(s, c) == s.subrange(0, k),
    decreases s.len() - k,
{
    if k == s.len() {
        assert(s.subrange(0, k) =~= s);
    } else {
        let t = s.drop_last();
        assert(s[s.len() - 1] == c);
        assert forall|j: int| k <= j < t.len() implies #[trigger] t[j] == c by {
            assert(t[j] == s[j]);
        }
        lemma_trim_end_char_at(t, k, c);
        assert(t.subrange(0, k) =~= s.subrange(0, k));
    }
}

/// Dropping trailing punctuation down to length `k` is what `trim_end_punct` does.
pub proof fn lemma_trim_end_punct_at(s: Seq<char>, k: int)
    requires
        0 <= k <= s.len(),
        forall|j: int| k <= j < s.len() ==> is_ascii_punct(#[trigger] s[j]),
        k == 0 || !is_ascii_punct(s[k - 1]),
    ensures
        trim_end_punct(s) == s.subrange(0, k),
    decreases s.len() - k,
{
    if k == s.len() {
        assert(s.subrange(0, k) =~= s);
    } else {
        let t = s.drop_last();
        assert(is_ascii_punct(s[s.len() - 1]));
        assert forall|j: int| k <= j < t.len() implies is_ascii_punct(#[trigger] t[j]) by {
            assert(t[j] == s[j]);
        }
        lemma_trim_end_punct_at(t, k);
        assert(t.subrange(0, k) =~= s.subrange(0, k));
    }
}

/// Splitting always yields at least one piece.
pub proof fn lemma_split_nonempty(s: Seq<char>, c: char)
    ensures
        split_at_char(s, c).len() >= 1,
    decreases s.len(),
{
    if s.len() > 0 {
        lemma_split_nonempty(s.drop_last(), c);
    }
}

/// Joining one more part adds the separator and the part.
pub proof fn lemma_join_push(parts: Seq<Seq<char>>, sep: Seq<char>, p: Seq<char>)
    ensures
        join(parts.push(p), sep) == if parts.len() == 0 {
            p
        } else {
            join(parts, sep) + sep + p
        },
{
    assert(parts.push(p).drop_last() =~= parts);
    if parts.len() == 0 {
        assert(parts.push(p)[0] == p);
    }
}

// ---------------------------------------------------------------------------
// Unicode case mappings of std
// ---------------------------------------------------------------------------

/// What `char::is_uppercase` answers for `c`.
pub uninterp spec fn char_is_upper(c: char) -> bool;

/// The characters `char::to_lowercase` yields for `c`.
pub uninterp spec fn char_lower(c: char) -> Seq<char>;

/// What `str::to_lowercase` returns for `s`.
pub uninterp spec fn str_lower(s: Seq<char>) -> Seq<char>;

/// What `str::to_uppercase` returns for `s`.
pub uninterp spec fn str_upper(s: Seq<char>) -> Seq<char>;

/// `char::is_uppercase`: whether `c` has the Unicode `Uppercase` property.
/// The contract only names the answer; the Unicode table is not restated.
#[verifier::external_body]
pub(crate) fn char_is_uppercase(c: char) -> (r: bool)
    ensures
        r == char_is_upper(c),
{
    c.is_uppercase()
}

/// `char::to_lowercase`, collected into a string. The contract only names the
/// result; the Unicode mapping is not restated.
#[verifier::external_body]
pub(crate) fn char_to_lowercase(c: char) -> (r: String)
    ensures
        r@ == char_lower(c),
{
    c.to_lowercase().collect()
}

/// `str::to_lowercase`. The contract only names the result; the Unicode
/// mapping (with its context rule for a final sigma) is not restated.
#[verifier::external_body]
pub(crate) fn str_to_lowercase(s: &str) -> (r: String)
    ensures
        r@ == str_lower(s@),
{
    s.to_lowercase()
}

/// `str::to_uppercase`. The contract only names the result; the Unicode
/// mapping is not restated.
#[verifier::external_body]
pub(crate) fn str_to_uppercase(s: &str) -> (r: String)
    ensures
        r@ == str_upper(s@),
{
    s.to_uppercase()
}

// ---------------------------------------------------------------------------
// Executable operations
// ---------------------------------------------------------------------------

/// Append one character to a string.
#[verifier::external_body]
pub(crate) fn push_char(s: &mut String, c: char)
    ensures
        final(s)@ == old(s)@.push(c),
{
    s.push(c);
}

/// A fresh owned copy of a string slice.
pub fn owned(s: &str) -> (r: String)
    ensures
        r@ == s@,
{
    String::from_str(s)
}

/// Concatenation of two string slices.
pub fn concat2(a: &str, b: &str) -> (r: String)
    ensures
        r@ == a@ + b@,
{
    let mut r = String::from_str(a);
    r.append(b);
    r
}

/// Concatenation of three string slices.
pub fn concat3(a: &str, b: &str, c: &str) -> (r: String)
    ensures
        r@ == a@ + b@ + c@,
{
    let mut r = String::from_str(a);
    r.append(b);
    r.append(c);
    r
}

/// Concatenation of four string slices.
pub fn concat4(a: &str, b: &str, c: &str, d: &str) -> (r: String)
    ensures
        r@ == a@ + b@ + c@ + d@,
{
    let mut r = String::from_str(a);
    r.append(b);
    r.append(c);
    r.append(d);
    r
}

/// Concatenation of five string slices.
pub fn concat5(a: &str, b: &str, c: &str, d: &str, e: &str) -> (r: String)
    ensures
        r@ == a@ + b@ + c@ + d@ + e@,
{
    let mut r = String::from_str(a);
    r.append(b);
    r.append(c);
    r.append(d);
    r.append(e);
    r
}

/// Whether `c` is Unicode whitespace.
pub fn is_whitespace(c: char) -> (r: bool)
    ensures
        r == is_ws(c),
{
    c == '\t' || c == '\n' || c == '\u{0B}' || c == '\u{0C}' || c == '\r' || c == ' '
        || c == '\u{85}' || c == '\u{A0}' || c == '\u{1680}' || ('\u{2000}' <= c && c
        <= '\u{200A}') || c == '\u{2028}' || c == '\u{2029}' || c == '\u{202F}' || c
        == '\u{205F}' || c == '\u{3000}'
}

/// Character-wise equality of two string slices.
pub fn str_eq(a: &str, b: &str) -> (r: bool)
    ensures
        r == (a@ == b@),
{
    let n = a.unicode_len();
    if n != b.unicode_len() {
        return false;
    }
    let mut i: usize = 0;
    while i < n
        invariant
            n == a@.len(),
            n == b@.len(),
            i <= n,
            forall|j: int| 0 <= j < i ==> a@[j] == b@[j],
        decreases n - i,
    {
        if a.get_char(i) != b.get_char(i) {
            return false;
        }
        i = i + 1;
    }
    assert(a@ =~= b@);
    true
}

/// Whether `s` starts with `p`.
pub fn str_starts_with(s: &str, p: &str) -> (r: bool)
    ensures
        r == starts_with(s@, p@),
{
    let n = p.unicode_len();
    let m = s.unicode_len();
    if n > m {
        return false;
    }
    let mut i: usize = 0;
    while i < n
        invariant
            n == p@.len(),
            m == s@.len(),
            n <= m,
            i <= n,
            forall|j: int| 0 <= j < i ==> s@[j] == p@[j],
        decreases n - i,
    {
        if s.get_char(i) != p.get_char(i) {
            assert(s@.take(n as int)[i as int] != p@[i as int]);
            return false;
        }
        i = i + 1;
    }
    assert(s@.take(n as int) =~= p@);
    true
}

/// Whether `s` starts with the character `c`.
pub fn str_starts_with_char(s: &str, c: char) -> (r: bool)
    ensures
        r == starts_with_ch(s@, c),
{
    s.unicode_len() > 0 && s.get_char(0) == c
}

/// `s` without its leading whitespace.
pub fn str_trim_start(s: &str) -> (r: &str)
    ensures
        r@ == trim_start(s@),
{
    let n = s.unicode_len();
    let mut k: usize = 0;
    while k < n && is_whitespace(s.get_char(k))
        invariant
            n == s@.len(),
            k <= n,
            forall|j: int| 0 <= j < k ==> is_ws(#[trigger] s@[j]),
        decreases n - k,
    {
        k = k + 1;
    }
    proof {
        lemma_trim_start_at(s@, k as int);
    }
    s.substring_char(k, n)
}

/// `s` without its trailing whitespace.
pub fn str_trim_end(s: &str) -> (r: &str)
    ensures
        r@ == trim_end(s@),
{
    let n = s.unicode_len();
    let mut k: usize = n;
    while k > 0 && is_whitespace(s.get_char(k - 1))
        invariant
            n == s@.len(),
            k <= n,
            forall|j: int| k <= j < n ==> is_ws(#[trigger] s@[j]),
        decreases k,
    {
        k = k - 1;
    }
    proof {
        lemma_trim_end_at(s@, k as int);
    }
    s.substring_char(0, k)
}

/// `s` without leading and trailing whitespace.
pub fn str_trim(s: &str) -> (r: &str)
    ensures
        r@ == trim(s@),
{
    str_trim_end(str_trim_start(s))
}

/// The longest prefix of `s` without whitespace.
pub fn str_word_prefix(s: &str) -> (r: &str)
    ensures
        r@ == word_prefix(s@),
{
    let n = s.unicode_len();
    let mut k: usize = 0;
    while k < n && !is_whitespace(s.get_char(k))
        invariant
            n == s@.len(),
            k <= n,
            forall|j: int| 0 <= j < k ==> !is_ws(#[trigger] s@[j]),
        decreases n - k,
    {
        k = k + 1;
    }
    proof {
        lemma_word_prefix_at(s@, k as int);
    }
    s.substring_char(0, k)
}

/// The first whitespace-separated word of `s`.
pub fn str_first_word(s: &str) -> (r: Option<&str>)
    ensures
        match r {
            Some(w) => first_word(s@) == Some(w@),
            None => first_word(s@) is None,
        },
{
    let t = str_trim_start(s);
    if t.unicode_len() == 0 {
        None
    } else {
        Some(str_word_prefix(t))
    }
}

/// The position of the first `c` in `s`.
pub fn str_find_char(s: &str, c: char) -> (r: Option<usize>)
    ensures
        match r {
            Some(k) => find_char(s@, c) == Some(k as int) && k < s@.len(),
            None => find_char(s@, c) is None,
        },
{
    let n = s.unicode_len();
    let mut k: usize = 0;
    while k < n
        invariant
            n == s@.len(),
            k <= n,
            forall|j: int| 0 <= j < k ==> #[trigger] s@[j] != c,
        decreases n - k,
    {
        if s.get_char(k) == c {
            proof {
                lemma_find_char_at(s@, k as int, c);
            }
            return Some(k);
        }
        k = k + 1;
    }
    proof {
        lemma_find_char_at(s@, k as int, c);
    }
    None
}

/// The position of the first `a` directly followed by `b` in `s`.
pub fn str_find_pair(s: &str, a: char, b: char) -> (r: Option<usize>)
    ensures
        match r {
            Some(k) => find_pair(s@, a, b) == Some(k as int) && k + 1 < s@.len(),
            None => find_pair(s@, a, b) is None,
        },
{
    let n = s.unicode_len();
    if n < 2 {
        return None;
    }
    let mut k: usize = 0;
    while k + 1 < n
        invariant
            n == s@.len(),
            n >= 2,
            k + 1 <= n,
            forall|j: int| 0 <= j < k ==> !(#[trigger] s@[j] == a && s@[j + 1] == b),
        decreases n - k,
    {
        if s.get_char(k) == a && s.get_char(k + 1) == b {
            proof {
                lemma_find_pair_at(s@, k as int, a, b);
            }
            return Some(k);
        }
        k = k + 1;
    }
    proof {
        lemma_find_pair_at(s@, k as int, a, b);
    }
    None
}

/// `s` without its trailing characters equal to `c`.
pub fn str_trim_end_char(s: &str, c: char) -> (r: &str)
    ensures
        r@ == trim_end_char(s@, c),
{
    let n = s.unicode_len();
    let mut k: usize = n;
    while k > 0 && s.get_char(k - 1) == c
        invariant
            n == s@.len(),
            k <= n,
            forall|j: int| k <= j < n ==> #[trigger] s@[j] == c,
        decreases k,
    {
        k = k - 1;
    }
    proof {
        lemma_trim_end_char_at(s@, k as int, c);
    }
    s.substring_char(0, k)
}

/// Whether `c` is ASCII punctuation.
pub fn is_ascii_punctuation(c: char) -> (r: bool)
    ensures
        r == is_ascii_punct(c),
{
    ('!' <= c && c <= '/') || (':' <= c && c <= '@') || ('[' <= c && c <= '`') || ('{' <= c && c <= '~')
}

/// `s` without its trailing ASCII punctuation.
pub fn str_trim_end_punct(s: &str) -> (r: &str)
    ensures
        r@ == trim_end_punct(s@),
{
    let n = s.unicode_len();
    let mut k: usize = n;
    while k > 0 && is_ascii_punctuation(s.get_char(k - 1))
        invariant
            n == s@.len(),
            k <= n,
            forall|j: int| k <= j < n ==> is_ascii_punct(#[trigger] s@[j]),
        decreases k,
    {
        k = k - 1;
    }
    proof {
        lemma_trim_end_punct_at(s@, k as int);
    }
    s.substring_char(0, k)
}

/// Whether `s` holds a whitespace character.
pub fn str_has_ws(s: &str) -> (r: bool)
    ensures
        r == has_ws(s@),
{
    let n = s.unicode_len();
    let mut i: usize = 0;
    while i < n
        invariant
            n == s@.len(),
            i <= n,
            forall|j: int| 0 <= j < i ==> !is_ws(#[trigger] s@[j]),
        decreases n - i,
    {
        if is_whitespace(s.get_char(i)) {
            return true;
        }
        i = i + 1;
    }
    false
}

/// The whitespace-separated words of `s`.
pub fn split_whitespace(s: &str) -> (r: Vec<String>)
    ensures
        views(r@) == words(s@),
{
    let n = s.unicode_len();
    let mut out: Vec<String> = Vec::new();
    let mut cur = String::new();
    let mut in_word = false;
    let mut i: usize = 0;
    while i < n
        invariant
            n == s@.len(),
            i <= n,
            in_word == (i > 0 && !is_ws(s@[i - 1])),
            in_word ==> cur@.len() > 0,
            !in_word ==> cur@.len() == 0,
            words(s@.take(i as int)) == if in_word {
                views(out@).push(cur@)
            } else {
                views(out@)
            },
        decreases n - i,
    {
        let c = s.get_char(i);
        let ghost o = views(out@);
        let ghost cu = cur@;
        proof {
            assert(s@.take(i + 1).drop_last() =~= s@.take(i as int));
            assert(s@.take(i + 1).last() == c);
            if i >= 1 {
                assert(s@.take(i + 1)[i - 1] == s@[i - 1]);
            }
            if !is_ws(c) {
                if in_word {
                    assert(o.push(cu).update(o.len() as int, cu.push(c)) =~= o.push(cu.push(c)));
                } else {
                    assert(cu.push(c) =~= seq![c]);
                }
            }
        }
        if is_whitespace(c) {
            if in_word {
                push_string(&mut out, cur);
                cur = String::new();
            }
            in_word = false;
        } else {
            push_char(&mut cur, c);
            in_word = true;
        }
        proof {
            assert(words(s@.take(i + 1)) =~= if in_word {
                views(out@).push(cur@)
            } else {
                views(out@)
            });
        }
        i = i + 1;
    }
    if in_word {
        push_string(&mut out, cur);
    }
    assert(s@.take(n as int) =~= s@);
    out
}

/// The pieces of `s` between occurrences of `c`.
pub fn split_at_char_str(s: &str, c: char) -> (r: Vec<String>)
    ensures
        views(r@) == split_at_char(s@, c),
{
    let n = s.unicode_len();
    let mut done: Vec<String> = Vec::new();
    let mut cur = String::new();
    let mut i: usize = 0;
    assert(s@.take(0) =~= Seq::<char>::empty());
    while i < n
        invariant
            n == s@.len(),
            i <= n,
            split_at_char(s@.take(i as int), c) == views(done@).push(cur@),
        decreases n - i,
    {
        let d = s.get_char(i);
        proof {
            assert(s@.take(i + 1).drop_last() =~= s@.take(i as int));
            assert(s@.take(i + 1).last() == d);
        }
        if d == c {
            push_string(&mut done, cur);
            cur = String::new();
        } else {
            push_char(&mut cur, d);
        }
        proof {
            assert(split_at_char(s@.take(i + 1), c) =~= views(done@).push(cur@));
        }
        i = i + 1;
    }
    push_string(&mut done, cur);
    assert(s@.take(n as int) =~= s@);
    done
}

/// `l` without one trailing carriage return.
pub fn str_strip_cr(l: &str) -> (r: &str)
    ensures
        r@ == strip_cr(l@),
{
    let n = l.unicode_len();
    if n > 0 && l.get_char(n - 1) == '\r' {
        l.substring_char(0, n - 1)
    } else {
        l
    }
}

/// The lines of `s`, as `str::lines` yields them.
pub fn lines_of(s: &str) -> (r: Vec<String>)
    ensures
        views(r@) == lines(s@),
{
    let pieces = split_at_char_str(s, '\n');
    let ghost pv = views(pieces@);
    assert(pv.len() >= 1) by {
        lemma_split_nonempty(s@, '\n');
    }
    let last = pieces.len() - 1;
    let mut out: Vec<String> = Vec::new();
    let mut i: usize = 0;
    while i < last
        invariant
            last == pieces@.len() - 1,
            i <= last,
            pv == views(pieces@),
            views(out@) == pv.drop_last().take(i as int).map_values(|l: Seq<char>| strip_cr(l)),
        decreases last - i,
    {
        push_string(&mut out, owned(str_strip_cr(pieces[i].as_str())));
        proof {
            assert(pv.drop_last().take(i + 1).map_values(|l: Seq<char>| strip_cr(l)) =~= pv.drop_last().take(i as int).map_values(|l: Seq<char>| strip_cr(l)).push(strip_cr(pv[i as int])));
        }
        i = i + 1;
    }
    assert(pv.drop_last().take(last as int) =~= pv.drop_last());
    if pieces[last].unicode_len() > 0 {
        push_string(&mut out, pieces[last].clone());
    }
    out
}

/// Append a string to a list of strings.
pub fn push_string(v: &mut Vec<String>, s: String)
    ensures
        views(final(v)@) == views(old(v)@).push(s@),
{
    let ghost before = v@;
    v.push(s);
    assert(views(v@) =~= views(before).push(s@));
}

/// The parts joined with `sep`.
pub fn join_strings(parts: &Vec<String>, sep: &str) -> (r: String)
    ensures
        r@ == join(views(parts@), sep@),
{
    let mut r = String::new();
    let mut i: usize = 0;
    while i < parts.len()
        invariant
            i <= parts.len(),
            r@ == join(views(parts@.take(i as int)), sep@),
        decreases parts.len() - i,
    {
        proof {
            assert(views(parts@.take(i + 1)) =~= views(parts@.take(i as int)).push(parts@[i as int]@));
            lemma_join_push(views(parts@.take(i as int)), sep@, parts@[i as int]@);
        }
        if i > 0 {
            r.append(sep);
        }
        r.append(parts[i].as_str());
        i = i + 1;
    }
    assert(parts@.take(parts.len() as int) =~= parts@);
    r
}


/// Whether `s` is one of the strings of `v`.
pub fn contains_string(v: &[String], s: &str) -> (r: bool)
    ensures
        r == views(v@).contains(s@),
{
    let mut i: usize = 0;
    while i < v.len()
        invariant
            i <= v@.len(),
            forall|j: int| 0 <= j < i ==> v@[j]@ != s@,
        decreases v@.len() - i,
    {
        if str_eq(v[i].as_str(), s) {
            assert(views(v@)[i as int] == s@);
            return true;
        }
        i = i + 1;
    }
    assert forall|j: int| 0 <= j < views(v@).len() implies views(v@)[j] != s@ by {
        assert(views(v@)[j] == v@[j]@);
    }
    false
}


/// Whether `p` occurs in `s`.
pub open spec fn contains_sub(s: Seq<char>, p: Seq<char>) -> bool {
    exists|i: int| 0 <= i && i + p.len() <= s.len() && #[trigger] s.subrange(i, i + p.len()) == p
}

/// Whether `p` occurs in `s`.
pub fn str_contains(s: &str, p: &str) -> (r: bool)
    ensures
        r == contains_sub(s@, p@),
{
    let n = s.unicode_len();
    let m = p.unicode_len();
    if m > n {
        return false;
    }
    if m == 0 {
        assert(s@.subrange(0int, 0int + p@.len()) =~= p@);
        return true;
    }
    let mut i: usize = 0;
    while i <= n - m
        invariant
            n == s@.len(),
            m == p@.len(),
            1 <= m <= n,
            i <= n - m + 1,
            forall|j: int| 0 <= j < i ==> #[trigger] s@.subrange(j, j + p@.len()) != p@,
        decreases n - m + 1 - i,
    {
        let sub = s.substring_char(i, i + m);
        if str_eq(sub, p) {
            return true;
        }
        i = i + 1;
    }
    false
}

/// `s` cut at every `", "` (what `str::split(", ")` yields).
pub open spec fn split_comma_space(s: Seq<char>) -> Seq<Seq<char>>
    decreases s.len(),
{
    match find_pair(s, ',', ' ') {
        Some(i) => if 0 <= i && i + 2 <= s.len() {
            seq![s.take(i)] + split_comma_space(s.skip(i + 2))
        } else {
            seq![s]
        },
        None => seq![s],
    }
}

/// `s` cut at every `", "`.
pub fn split_on_comma_space(s: &str) -> (r: Vec<String>)
    ensures
        views(r@) == split_comma_space(s@),
{
    let mut out: Vec<String> = Vec::new();
    let mut rest: &str = s;
    loop
        invariant
            views(out@) + split_comma_space(rest@) == split_comma_space(s@),
        decreases rest@.len(),
    {
        match str_find_pair(rest, ',', ' ') {
            Some(i) => {
                let n = rest.unicode_len();
                let head = rest.substring_char(0, i);
                let tail = rest.substring_char(i + 2, n);
                proof {
                    assert(head@ =~= rest@.take(i as int));
                    assert(tail@ =~= rest@.skip(i + 2));
                }
                let ghost before = views(out@);
                push_string(&mut out, owned(head));
                proof {
                    assert(views(out@) + split_comma_space(tail@) =~= before + split_comma_space(rest@));
                }
                rest = tail;
            },
            None => {
                push_string(&mut out, owned(rest));
                return out;
            },
        }
    }
}

/// `n` in decimal, without leading zeros.
pub open spec fn decimal(n: nat) -> Seq<char>
    decreases n,
{
    if n < 10 {
        seq![((n as int) + 48) as char]
    } else {
        decimal(n / 10).push((((n % 10) as int) + 48) as char)
    }
}

/// Append `n` in decimal.
pub fn push_decimal(out: &mut String, n: usize)
    ensures
        final(out)@ == old(out)@ + decimal(n as nat),
    decreases n,
{
    if n >= 10 {
        push_decimal(out, n / 10);
    }
    let d = (n % 10) as u8;
    let c: char = (d + 48) as char;
    push_char(out, c);
}

/// `s` without its leading characters `c`.
pub open spec fn trim_start_char(s: Seq<char>, c: char) -> Seq<char>
    decreases s.len(),
{
    if s.len() > 0 && s[0] == c {
        trim_start_char(s.drop_first(), c)
    } else {
        s
    }
}

proof fn lemma_trim_start_char_at(s: Seq<char>, k: int, c: char)
    requires
        0 <= k <= s.len(),
        forall|j: int| 0 <= j < k ==> #[trigger] s[j] == c,
        k == s.len() || s[k] != c,
    ensures
        trim_start_char(s, c) == s.subrange(k, s.len() as int),
    decreases k,
{
    if k == 0 {
        assert(s.subrange(0, s.len() as int) =~= s);
    } else {
        let t = s.drop_first();
        assert forall|j: int| 0 <= j < k - 1 implies #[trigger] t[j] == c by {
            assert(t[j] == s[j + 1]);
        }
        lemma_trim_start_char_at(t, k - 1, c);
        assert(t.subrange(k - 1, t.len() as int) =~= s.subrange(k, s.len() as int));
    }
}

/// `s` without its leading characters `c`.
pub fn str_trim_start_char(s: &str, c: char) -> (r: &str)
    ensures
        r@ == trim_start_char(s@, c),
{
    let n = s.unicode_len();
    let mut k: usize = 0;
    while k < n && s.get_char(k) == c
        invariant
            n == s@.len(),
            k <= n,
            forall|j: int| 0 <= j < k ==> #[trigger] s@[j] == c,
        decreases n - k,
    {
        k = k + 1;
    }
    proof {
        lemma_trim_start_char_at(s@, k as int, c);
    }
    s.substring_char(k, n)
}

/// Every occurrence of `pat` in `s` replaced by `rep`, scanning from the
/// left without overlaps (`s` unchanged for an empty `pat`).
pub open spec fn replace_all(s: Seq<char>, pat: Seq<char>, rep: Seq<char>) -> Seq<char>
    decreases s.len(),
{
    if pat.len() == 0 || s.len() == 0 {
        s
    } else if starts_with(s, pat) {
        rep + replace_all(s.skip(pat.len() as int), pat, rep)
    } else {
        seq![s[0]] + replace_all(s.skip(1), pat, rep)
    }
}

/// `s` with every occurrence of the non-empty `pat` replaced by `rep`
/// (what `str::replace` does).
pub fn str_replace(s: &str, pat: &str, rep: &str) -> (r: String)
    requires
        pat@.len() > 0,
    ensures
        r@ == replace_all(s@, pat@, rep@),
{
    let n = s.unicode_len();
    let m = pat.unicode_len();
    let mut out = String::new();
    let mut i: usize = 0;
    assert(s@.skip(0) =~= s@);
    assert(out@ + replace_all(s@, pat@, rep@) =~= replace_all(s@, pat@, rep@));
    while i < n
        invariant
            n == s@.len(),
            m == pat@.len(),
            m > 0,
            i <= n,
            replace_all(s@, pat@, rep@) == out@ + replace_all(s@.skip(i as int), pat@, rep@),
        decreases n - i,
    {
        let rest = s.substring_char(i, n);
        assert(rest@ =~= s@.skip(i as int));
        if str_starts_with(rest, pat) {
            out.append(rep);
            assert(s@.skip(i as int).skip(m as int) =~= s@.skip(i as int + m));
            i = i + m;
        } else {
            push_char(&mut out, s.get_char(i));
            assert(s@.skip(i as int).skip(1) =~= s@.skip(i as int + 1));
            i = i + 1;
        }
    }
    assert(s@.skip(i as int) =~= Seq::<char>::empty());
    assert(out@ + Seq::<char>::empty() =~= out@);
    out
}

} // verus!
