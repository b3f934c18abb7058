//! Roxygen2 tags in Rust doc comments: extraction, queries and rendering as
//! `#'` comment lines of the generated R code.
use vstd::prelude::*;
use crate::text::{
    str_starts_with, starts_with, concat3,
    concat2, find_pair, is_ws, str_find_pair, str_trim_end_char, trim_end_char, first_word, has_ws, join, join_strings, lines, lines_of, owned, push_string,
    split_whitespace, starts_with_ch, str_eq, str_first_word, str_has_ws, str_lower,
    str_starts_with_char, str_to_lowercase, str_trim, str_trim_end_punct, str_trim_start,
    str_word_prefix, trim, trim_end_punct, trim_start, views, word_prefix, words, concat5,
};

verus! {

// ---------------------------------------------------------------------------
// Tag queries
// ---------------------------------------------------------------------------

/// The name of a tag line (`param` for `  @param x An input`).
pub open spec fn tag_name(tag: Seq<char>) -> Option<Seq<char>> {
    let t = trim_start(tag);
    if starts_with_ch(t, '@') {
        first_word(t.drop_first())
    } else {
        None
    }
}

/// The whole content of a tag line after its `@`, trimmed
/// (`keywords internal` for `  @keywords internal  `).
pub open spec fn tag_content(tag: Seq<char>) -> Option<Seq<char>> {
    let t = trim(tag);
    if starts_with_ch(t, '@') {
        Some(trim(t.drop_first()))
    } else {
        None
    }
}

/// Whether the tags hold `query`: a single word names a tag (`keywords`), a
/// query of several words is the whole content of a tag (`keywords internal`).
pub open spec fn has_tag(tags: Seq<Seq<char>>, query: Seq<char>) -> bool {
    if has_ws(query) {
        exists|i: int| 0 <= i < tags.len() && tag_content(#[trigger] tags[i]) == Some(query)
    } else {
        exists|i: int| 0 <= i < tags.len() && tag_name(#[trigger] tags[i]) == Some(query)
    }
}

/// The names of the tag lines.
pub open spec fn tag_name_set(tags: Seq<Seq<char>>) -> Set<Seq<char>> {
    Set::new(|x: Seq<char>| exists|i: int| 0 <= i < tags.len() && tag_name(#[trigger] tags[i]) == Some(x))
}

/// The tags that take continuation lines.
pub open spec fn is_multiline_name(n: Seq<char>) -> bool {
    ||| n == "examples"@
    ||| n == "description"@
    ||| n == "details"@
    ||| n == "return"@
    ||| n == "returns"@
    ||| n == "param"@
    ||| n == "note"@
    ||| n == "seealso"@
    ||| n == "section"@
    ||| n == "format"@
    ||| n == "references"@
    ||| n == "slot"@
    ||| n == "field"@
    ||| n == "value"@
}

/// Whether a tag line (starting with `@`) takes continuation lines.
pub open spec fn is_multiline(tag: Seq<char>) -> bool {
    starts_with_ch(tag, '@') && match first_word(tag.drop_first()) {
        Some(w) => is_multiline_name(w),
        None => false,
    }
}

/// Whether a tag name takes continuation lines.
fn is_multiline_tag_name(n: &str) -> (r: bool)
    ensures
        r == is_multiline_name(n@),
{
    str_eq(n, "examples") || str_eq(n, "description") || str_eq(n, "details") || str_eq(n, "return")
        || str_eq(n, "returns") || str_eq(n, "param") || str_eq(n, "note") || str_eq(n, "seealso")
        || str_eq(n, "section") || str_eq(n, "format") || str_eq(n, "references") || str_eq(n, "slot")
        || str_eq(n, "field") || str_eq(n, "value")
}

/// Whether a tag line takes continuation lines (`@examples`, `@param`, ...).
pub fn is_multiline_tag(tag: &str) -> (r: bool)
    ensures
        r == is_multiline(tag@),
{
    if !str_starts_with_char(tag, '@') {
        return false;
    }
    let rest = tag.substring_char(1, tag.unicode_len());
    assert(rest@ =~= tag@.drop_first());
    match str_first_word(rest) {
        Some(w) => is_multiline_tag_name(w),
        None => false,
    }
}

/// The name of a tag line.
pub fn tag_name_of(tag: &str) -> (r: Option<&str>)
    ensures
        match r {
            Some(n) => tag_name(tag@) == Some(n@),
            None => tag_name(tag@) is None,
        },
{
    let t = str_trim_start(tag);
    if !str_starts_with_char(t, '@') {
        return None;
    }
    let rest = t.substring_char(1, t.unicode_len());
    assert(rest@ =~= t@.drop_first());
    str_first_word(rest)
}

/// The content of a tag line after its `@`, trimmed.
pub fn tag_content_of(tag: &str) -> (r: Option<&str>)
    ensures
        match r {
            Some(n) => tag_content(tag@) == Some(n@),
            None => tag_content(tag@) is None,
        },
{
    let t = str_trim(tag);
    if !str_starts_with_char(t, '@') {
        return None;
    }
    let rest = t.substring_char(1, t.unicode_len());
    assert(rest@ =~= t@.drop_first());
    Some(str_trim(rest))
}

/// Whether `x` is one of the strings.
fn contains_str(v: &Vec<String>, x: &str) -> (r: bool)
    ensures
        r == views(v@).contains(x@),
{
    let mut i: usize = 0;
    while i < v.len()
        invariant
            i <= v@.len(),
            forall|j: int| 0 <= j < i ==> v@[j]@ != x@,
        decreases v@.len() - i,
    {
        if str_eq(v[i].as_str(), x) {
            assert(views(v@)[i as int] == x@);
            return true;
        }
        i = i + 1;
    }
    assert forall|j: int| 0 <= j < views(v@).len() implies views(v@)[j] != x@ by {
        assert(views(v@)[j] == v@[j]@);
    }
    false
}

/// The distinct tag names of the tag lines (`param`, `return`, `export`):
/// exactly the names some line has, each once.
pub fn tag_names(tags: &[String]) -> (r: Vec<String>)
    ensures
        views(r@).no_duplicates(),
        forall|x: Seq<char>| views(r@).contains(x) <==> exists|i: int| 0 <= i < tags@.len() && tag_name(#[trigger] tags@[i]@) == Some(x),
        views(r@).to_set() == tag_name_set(views(tags@)),
{
    let mut out: Vec<String> = Vec::new();
    let mut i: usize = 0;
    while i < tags.len()
        invariant
            i <= tags@.len(),
            views(out@).no_duplicates(),
            forall|x: Seq<char>| views(out@).contains(x) <==> exists|j: int| 0 <= j < i && tag_name(#[trigger] tags@[j]@) == Some(x),
        decreases tags@.len() - i,
    {
        let ghost before = views(out@);
        let nm = tag_name_of(tags[i].as_str());
        match nm {
            Some(n) => {
                if !contains_str(&out, n) {
                    push_string(&mut out, owned(n));
                }
            },
            None => {},
        }
        proof {
            let after = views(out@);
            assert(after == before || (nm matches Some(n) && after == before.push(n@) && !before.contains(n@)));
            assert forall|a: int, b: int| 0 <= a < b < after.len() implies after[a] != after[b] by {
                if after != before {
                    assert(after[a] == before[a]);
                    if b < before.len() {
                        assert(after[b] == before[b]);
                    } else {
                        assert(before.contains(after[a]));
                    }
                }
            }
            assert forall|x: Seq<char>| after.contains(x) <==> exists|j: int| 0 <= j < i + 1 && tag_name(#[trigger] tags@[j]@) == Some(x) by {
                if after.contains(x) {
                    let k = choose|k: int| 0 <= k < after.len() && after[k] == x;
                    if k < before.len() {
                        assert(after[k] == before[k]);
                        assert(before.contains(x));
                        let j = choose|j: int| 0 <= j < i && tag_name(#[trigger] tags@[j]@) == Some(x);
                        assert(0 <= j < i + 1 && tag_name(tags@[j]@) == Some(x));
                    } else {
                        assert(tag_name(tags@[i as int]@) == Some(x));
                    }
                }
                if exists|j: int| 0 <= j < i + 1 && tag_name(#[trigger] tags@[j]@) == Some(x) {
                    let j = choose|j: int| 0 <= j < i + 1 && tag_name(#[trigger] tags@[j]@) == Some(x);
                    if j < i {
                        assert(before.contains(x));
                        let k = choose|k: int| 0 <= k < before.len() && before[k] == x;
                        assert(after[k] == before[k]);
                    } else if before.contains(x) {
                        let k = choose|k: int| 0 <= k < before.len() && before[k] == x;
                        assert(after[k] == before[k]);
                    } else {
                        assert(after[after.len() - 1] == x);
                    }
                }
            }
        }
        i = i + 1;
    }
    proof {
        assert forall|x: Seq<char>| views(out@).to_set().contains(x) == tag_name_set(views(tags@)).contains(x) by {
            if exists|i: int| 0 <= i < tags@.len() && tag_name(#[trigger] tags@[i]@) == Some(x) {
                let i = choose|i: int| 0 <= i < tags@.len() && tag_name(#[trigger] tags@[i]@) == Some(x);
                assert(views(tags@)[i] == tags@[i]@);
            }
            if tag_name_set(views(tags@)).contains(x) {
                let i = choose|i: int| 0 <= i < views(tags@).len() && tag_name(#[trigger] views(tags@)[i]) == Some(x);
                assert(views(tags@)[i] == tags@[i]@);
            }
        }
        assert(views(out@).to_set() =~= tag_name_set(views(tags@)));
    }
    out
}

/// Whether the tag lines hold `tag`: a single word is a tag name
/// (`export`, `noRd`); several words are the whole content of a tag
/// (`keywords internal`).
pub fn has_roxygen_tag(tags: &[String], tag: &str) -> (r: bool)
    ensures
        r == has_tag(views(tags@), tag@),
{
    let multi = str_has_ws(tag);
    let mut i: usize = 0;
    while i < tags.len()
        invariant
            i <= tags@.len(),
            multi == has_ws(tag@),
            forall|j: int| 0 <= j < i ==> if multi {
                tag_content(#[trigger] tags@[j]@) != Some(tag@)
            } else {
                tag_name(tags@[j]@) != Some(tag@)
            },
        decreases tags@.len() - i,
    {
        let hit = if multi {
            match tag_content_of(tags[i].as_str()) {
                Some(c) => str_eq(c, tag),
                None => false,
            }
        } else {
            match tag_name_of(tags[i].as_str()) {
                Some(c) => str_eq(c, tag),
                None => false,
            }
        };
        if hit {
            assert(views(tags@)[i as int] == tags@[i as int]@);
            return true;
        }
        i = i + 1;
    }
    assert forall|j: int| 0 <= j < views(tags@).len() implies views(tags@)[j] == tags@[j]@ by {}
    false
}

/// A tag line cut after its name: the name, and the text after the first
/// whitespace character, if there is one.
pub open spec fn tag_split(rest: Seq<char>) -> (Seq<char>, Option<Seq<char>>) {
    let w = word_prefix(rest);
    if w.len() == rest.len() {
        (rest, None)
    } else {
        (w, Some(rest.skip(w.len() as int + 1)))
    }
}

/// The value of the first tag line named `name`, trimmed (`None` when that
/// line has no text after its name).
pub open spec fn find_value(tags: Seq<Seq<char>>, name: Seq<char>) -> Option<Seq<char>>
    decreases tags.len(),
{
    if tags.len() == 0 {
        None
    } else {
        let t = trim_start(tags[0]);
        if starts_with_ch(t, '@') && tag_split(t.drop_first()).0 == name {
            match tag_split(t.drop_first()).1 {
                Some(v) => Some(trim(v)),
                None => None,
            }
        } else {
            find_value(tags.drop_first(), name)
        }
    }
}

proof fn lemma_word_prefix_len(s: Seq<char>)
    ensures
        word_prefix(s).len() <= s.len(),
        forall|j: int| 0 <= j < word_prefix(s).len() ==> word_prefix(s)[j] == s[j],
        word_prefix(s).len() < s.len() ==> crate::text::is_ws(s[word_prefix(s).len() as int]),
    decreases s.len(),
{
    if s.len() > 0 && !crate::text::is_ws(s[0]) {
        let t = s.drop_first();
        lemma_word_prefix_len(t);
        assert(word_prefix(s) == seq![s[0]] + word_prefix(t));
        assert forall|j: int| 0 <= j < word_prefix(s).len() implies word_prefix(s)[j] == s[j] by {
            if j > 0 {
                assert(word_prefix(s)[j] == word_prefix(t)[j - 1]);
                assert(t[j - 1] == s[j]);
            }
        }
    }
}

/// The value of the first `@tag_name ...` line (`My Title` for
/// `@title My Title`), trimmed.
pub fn find_tag_value(tags: &[String], tag_name: &str) -> (r: Option<String>)
    ensures
        match r {
            Some(v) => find_value(views(tags@), tag_name@) == Some(v@),
            None => find_value(views(tags@), tag_name@) is None,
        },
{
    let mut i: usize = 0;
    assert(views(tags@).skip(0) =~= views(tags@));
    while i < tags.len()
        invariant
            i <= tags@.len(),
            find_value(views(tags@), tag_name@) == find_value(views(tags@).skip(i as int), tag_name@),
        decreases tags@.len() - i,
    {
        proof {
            assert(views(tags@).skip(i as int).drop_first() =~= views(tags@).skip(i + 1));
            assert(views(tags@).skip(i as int)[0] == tags@[i as int]@);
        }
        let t = str_trim_start(tags[i].as_str());
        if str_starts_with_char(t, '@') {
            let rest = t.substring_char(1, t.unicode_len());
            assert(rest@ =~= t@.drop_first());
            let w = str_word_prefix(rest);
            proof {
                lemma_word_prefix_len(rest@);
            }
            let (name, value): (&str, Option<&str>) = if w.unicode_len() == rest.unicode_len() {
                assert(w@ =~= rest@);
                (rest, None)
            } else {
                (w, Some(rest.substring_char(w.unicode_len() + 1, rest.unicode_len())))
            };
            if str_eq(name, tag_name) {
                return match value {
                    Some(v) => Some(owned(str_trim(v))),
                    None => None,
                };
            }
        }
        i = i + 1;
    }
    None
}

// ---------------------------------------------------------------------------
// Rendering
// ---------------------------------------------------------------------------

/// The `#'` lines of one tag: each of its lines behind `#' `.
pub open spec fn tag_comment_lines(tag: Seq<char>) -> Seq<Seq<char>> {
    lines(tag).map_values(|l: Seq<char>| "#' "@ + l)
}

/// The `#'` lines of the tags, in order.
pub open spec fn comment_lines(tags: Seq<Seq<char>>) -> Seq<Seq<char>>
    decreases tags.len(),
{
    if tags.len() == 0 {
        Seq::empty()
    } else {
        comment_lines(tags.drop_last()) + tag_comment_lines(tags.last())
    }
}

/// The lines, each followed by a newline.
pub open spec fn newline_terminated(ls: Seq<Seq<char>>) -> Seq<char>
    decreases ls.len(),
{
    if ls.len() == 0 {
        Seq::empty()
    } else {
        newline_terminated(ls.drop_last()) + ls.last() + seq!['\n']
    }
}

/// Push the `#'` lines of one tag.
fn push_tag_lines(out: &mut Vec<String>, tag: &str)
    ensures
        views(final(out)@) == views(old(out)@) + tag_comment_lines(tag@),
{
    let ls = lines_of(tag);
    let ghost before = views(out@);
    let mut i: usize = 0;
    while i < ls.len()
        invariant
            i <= ls@.len(),
            views(ls@) == lines(tag@),
            views(out@) == before + views(ls@).take(i as int).map_values(|l: Seq<char>| "#' "@ + l),
        decreases ls@.len() - i,
    {
        push_string(out, concat2("#' ", ls[i].as_str()));
        proof {
            assert(views(ls@).take(i + 1).map_values(|l: Seq<char>| "#' "@ + l) =~= views(ls@).take(i as int).map_values(|l: Seq<char>| "#' "@ + l).push("#' "@ + ls@[i as int]@));
            assert(views(out@) =~= before + views(ls@).take(i + 1).map_values(|l: Seq<char>| "#' "@ + l));
        }
        i = i + 1;
    }
    assert(views(ls@).take(ls@.len() as int) =~= views(ls@));
}

/// Push the tag lines as `#'` lines of R code: every line of a multiline tag
/// gets its own `#' ` lead.
pub fn push_roxygen_tags(out: &mut Vec<String>, tags: &[String])
    ensures
        views(final(out)@) == views(old(out)@) + comment_lines(views(tags@)),
{
    let ghost before = views(out@);
    let mut i: usize = 0;
    while i < tags.len()
        invariant
            i <= tags@.len(),
            views(out@) == before + comment_lines(views(tags@).take(i as int)),
        decreases tags@.len() - i,
    {
        push_tag_lines(out, tags[i].as_str());
        proof {
            assert(views(tags@).take(i + 1).drop_last() =~= views(tags@).take(i as int));
            assert(views(tags@).take(i + 1).last() == tags@[i as int]@);
            assert(views(out@) =~= before + comment_lines(views(tags@).take(i + 1)));
        }
        i = i + 1;
    }
    assert(views(tags@).take(tags@.len() as int) =~= views(tags@));
}

/// The lines joined, each followed by a newline.
fn concat_newline_terminated(ls: &Vec<String>) -> (r: String)
    ensures
        r@ == newline_terminated(views(ls@)),
{
    let mut out = String::new();
    let mut i: usize = 0;
    while i < ls.len()
        invariant
            i <= ls@.len(),
            out@ == newline_terminated(views(ls@).take(i as int)),
        decreases ls@.len() - i,
    {
        out.append(ls[i].as_str());
        crate::text::push_char(&mut out, '\n');
        proof {
            assert(views(ls@).take(i + 1).drop_last() =~= views(ls@).take(i as int));
            assert(views(ls@).take(i + 1).last() == ls@[i as int]@);
            assert(out@ =~= newline_terminated(views(ls@).take(i + 1)));
        }
        i = i + 1;
    }
    assert(views(ls@).take(ls@.len() as int) =~= views(ls@));
    out
}

/// Render the tag lines as `#'` comment lines, each ended by a newline.
pub fn format_roxygen_tags(tags: &[String]) -> (r: String)
    ensures
        r@ == newline_terminated(comment_lines(views(tags@))),
{
    let mut ls: Vec<String> = Vec::new();
    push_roxygen_tags(&mut ls, tags);
    assert(views(ls@) =~= comment_lines(views(tags@)));
    concat_newline_terminated(&ls)
}

/// Text normalized for comparison: lowercased, whitespace runs collapsed to
/// one space, trailing ASCII punctuation dropped.
pub open spec fn normalized(s: Seq<char>) -> Seq<char> {
    trim_end_punct(join(words(str_lower(s)), " "@))
}

/// Normalize text for comparison (`"  Hello    World.  "` → `"hello world"`).
pub fn normalize_for_comparison(s: &str) -> (r: String)
    ensures
        r@ == normalized(s@),
{
    let lower = str_to_lowercase(s);
    let ws = split_whitespace(lower.as_str());
    let joined = join_strings(&ws, " ");
    owned(str_trim_end_punct(joined.as_str()))
}

// ---------------------------------------------------------------------------
// Implicit title, description and details of a doc comment
// ---------------------------------------------------------------------------

/// The title lines gathered from the doc lines at `i` and after, `acc`
/// gathered before: up to the first blank line, the first `". "` (the title
/// ends before it) or a line ending in `.` (dropped); `None` when a tag line
/// comes before any title text.
pub open spec fn title_scan(docs: Seq<Seq<char>>, i: int, acc: Seq<Seq<char>>) -> Option<Seq<Seq<char>>>
    decreases docs.len() - i,
{
    if i < 0 || i >= docs.len() {
        Some(acc)
    } else {
        let t = trim(docs[i]);
        if starts_with_ch(t, '@') {
            if acc.len() == 0 {
                None
            } else {
                Some(acc)
            }
        } else if t.len() == 0 {
            Some(acc)
        } else {
            match find_pair(t, '.', ' ') {
                Some(p) => Some(acc.push(t.take(p))),
                None => if t.last() == '.' {
                    Some(acc.push(trim_end_char(t, '.')))
                } else {
                    title_scan(docs, i + 1, acc.push(t))
                },
            }
        }
    }
}

/// The implicit title of a doc comment: its first sentence, lines joined by
/// spaces.
pub open spec fn implicit_title(docs: Seq<Seq<char>>) -> Option<Seq<char>> {
    match title_scan(docs, 0, Seq::empty()) {
        Some(ls) => if ls.len() == 0 {
            None
        } else {
            Some(join(ls, " "@))
        },
        None => None,
    }
}

proof fn lemma_find_pair_bound(s: Seq<char>, a: char, b: char)
    ensures
        find_pair(s, a, b) matches Some(k) ==> 0 <= k && k + 1 < s.len(),
    decreases s.len(),
{
    if s.len() >= 2 && !(s[0] == a && s[1] == b) {
        lemma_find_pair_bound(s.drop_first(), a, b);
    }
}

/// The title lines of doc comment lines (`None` when a tag comes first).
fn title_lines(docs: &[String]) -> (r: Option<Vec<String>>)
    ensures
        match r {
            Some(v) => title_scan(views(docs@), 0, Seq::empty()) == Some(views(v@)),
            None => title_scan(views(docs@), 0, Seq::empty()) is None,
        },
{
    let ghost d = views(docs@);
    let mut acc: Vec<String> = Vec::new();
    let mut i: usize = 0;
    assert(views(acc@) =~= Seq::<Seq<char>>::empty());
    while i < docs.len()
        invariant
            d == views(docs@),
            i <= docs@.len(),
            title_scan(d, 0, Seq::empty()) == title_scan(d, i as int, views(acc@)),
        decreases docs@.len() - i,
    {
        let t = str_trim(docs[i].as_str());
        assert(d[i as int] == docs@[i as int]@);
        if str_starts_with_char(t, '@') {
            if acc.len() == 0 {
                return None;
            }
            return Some(acc);
        }
        if t.unicode_len() == 0 {
            return Some(acc);
        }
        match str_find_pair(t, '.', ' ') {
            Some(p) => {
                proof {
                    lemma_find_pair_bound(t@, '.', ' ');
                }
                push_string(&mut acc, owned(t.substring_char(0, p)));
                proof {
                    assert(t@.subrange(0, p as int) =~= t@.take(p as int));
                }
                return Some(acc);
            },
            None => {
                if t.get_char(t.unicode_len() - 1) == '.' {
                    push_string(&mut acc, owned(str_trim_end_char(t, '.')));
                    return Some(acc);
                }
                push_string(&mut acc, owned(t));
            },
        }
        i = i + 1;
    }
    Some(acc)
}

/// The implicit title of doc comment lines (one string per `#[doc]`
/// attribute): the first sentence, up to the first blank line, `". "` or
/// trailing period; `None` when there is no text before the first tag.
pub fn implicit_title_from_attrs(docs: &[String]) -> (r: Option<String>)
    ensures
        match r {
            Some(t) => implicit_title(views(docs@)) == Some(t@),
            None => implicit_title(views(docs@)) is None,
        },
{
    match title_lines(docs) {
        None => None,
        Some(acc) => {
            if acc.len() == 0 {
                None
            } else {
                Some(join_strings(&acc, " "))
            }
        },
    }
}

/// The state of the paragraph scan: the finished paragraphs, the paragraph
/// being read, and whether a tag line ended the scan.
pub open spec fn para_state(docs: Seq<Seq<char>>, n: int) -> (Seq<Seq<Seq<char>>>, Seq<Seq<char>>, bool)
    decreases n,
{
    if n <= 0 {
        (Seq::empty(), Seq::empty(), false)
    } else {
        let p = para_state(docs, n - 1);
        if p.2 {
            p
        } else {
            let t = trim(docs[n - 1]);
            if starts_with_ch(t, '@') {
                (p.0, p.1, true)
            } else if t.len() == 0 {
                if p.1.len() > 0 {
                    (p.0.push(p.1), Seq::empty(), false)
                } else {
                    p
                }
            } else {
                (p.0, p.1.push(t), false)
            }
        }
    }
}

/// The paragraphs of a doc comment before its first tag line: runs of
/// non-blank lines (trimmed), split at blank lines.
pub open spec fn paragraphs(docs: Seq<Seq<char>>) -> Seq<Seq<Seq<char>>> {
    let p = para_state(docs, docs.len() as int);
    if p.1.len() > 0 {
        p.0.push(p.1)
    } else {
        p.0
    }
}

/// The implicit description: the second paragraph, lines joined by spaces.
pub open spec fn implicit_description(docs: Seq<Seq<char>>) -> Option<Seq<char>> {
    let ps = paragraphs(docs);
    if ps.len() >= 2 {
        Some(join(ps[1], " "@))
    } else {
        None
    }
}

/// The implicit details: the paragraphs after the second, each with its
/// lines joined by spaces, separated by blank lines.
pub open spec fn implicit_details(docs: Seq<Seq<char>>) -> Option<Seq<char>> {
    let ps = paragraphs(docs);
    if ps.len() >= 3 {
        Some(join(ps.skip(2).map_values(|p: Seq<Seq<char>>| join(p, " "@)), "\n\n"@))
    } else {
        None
    }
}

/// The views of a list of paragraphs.
pub open spec fn para_views(v: Seq<Vec<String>>) -> Seq<Seq<Seq<char>>> {
    v.map_values(|p: Vec<String>| views(p@))
}

fn push_paragraph(v: &mut Vec<Vec<String>>, p: Vec<String>)
    ensures
        para_views(final(v)@) == para_views(old(v)@).push(views(p@)),
{
    let ghost before = v@;
    v.push(p);
    assert(para_views(v@) =~= para_views(before).push(views(p@)));
}

/// The paragraphs of doc comment lines, before the first tag line.
pub fn doc_paragraphs(docs: &[String]) -> (r: Vec<Vec<String>>)
    ensures
        para_views(r@) == paragraphs(views(docs@)),
{
    let ghost d = views(docs@);
    let mut done: Vec<Vec<String>> = Vec::new();
    let mut cur: Vec<String> = Vec::new();
    let mut stopped = false;
    let mut i: usize = 0;
    while i < docs.len()
        invariant
            d == views(docs@),
            i <= docs@.len(),
            para_state(d, i as int) == (para_views(done@), views(cur@), stopped),
        decreases docs@.len() - i,
    {
        assert(d[i as int] == docs@[i as int]@);
        if !stopped {
            let t = str_trim(docs[i].as_str());
            if str_starts_with_char(t, '@') {
                stopped = true;
            } else if t.unicode_len() == 0 {
                if cur.len() > 0 {
                    let finished = cur;
                    cur = Vec::new();
                    push_paragraph(&mut done, finished);
                    assert(views(cur@) =~= Seq::<Seq<char>>::empty());
                }
            } else {
                push_string(&mut cur, owned(t));
            }
        }
        i = i + 1;
    }
    if cur.len() > 0 {
        push_paragraph(&mut done, cur);
    }
    done
}

/// The paragraph lines joined by spaces.
fn join_paragraph(p: &Vec<String>) -> (r: String)
    ensures
        r@ == join(views(p@), " "@),
{
    join_strings(p, " ")
}

/// The implicit description of doc comment lines: the second paragraph
/// (the first is the title), lines joined by spaces.
pub fn implicit_description_from_attrs(docs: &[String]) -> (r: Option<String>)
    ensures
        match r {
            Some(t) => implicit_description(views(docs@)) == Some(t@),
            None => implicit_description(views(docs@)) is None,
        },
{
    let ps = doc_paragraphs(docs);
    if ps.len() >= 2 {
        assert(para_views(ps@)[1] == views(ps@[1]@));
        Some(join_paragraph(&ps[1]))
    } else {
        None
    }
}

/// The implicit details of doc comment lines: every paragraph after the
/// second, lines joined by spaces, paragraphs separated by a blank line.
pub fn implicit_details_from_attrs(docs: &[String]) -> (r: Option<String>)
    ensures
        match r {
            Some(t) => implicit_details(views(docs@)) == Some(t@),
            None => implicit_details(views(docs@)) is None,
        },
{
    let ps = doc_paragraphs(docs);
    if ps.len() < 3 {
        return None;
    }
    let ghost pv = para_views(ps@);
    let mut joined: Vec<String> = Vec::new();
    let mut i: usize = 2;
    while i < ps.len()
        invariant
            pv == para_views(ps@),
            2 <= i <= ps@.len(),
            views(joined@) == pv.skip(2).take(i - 2).map_values(|p: Seq<Seq<char>>| join(p, " "@)),
        decreases ps@.len() - i,
    {
        let j = join_paragraph(&ps[i]);
        push_string(&mut joined, j);
        proof {
            assert(pv[i as int] == views(ps@[i as int]@));
            assert(pv.skip(2).take(i - 1).map_values(|p: Seq<Seq<char>>| join(p, " "@)) =~= pv.skip(2).take(i - 2).map_values(|p: Seq<Seq<char>>| join(p, " "@)).push(join(pv[i as int], " "@)));
        }
        i = i + 1;
    }
    assert(pv.skip(2).take(ps@.len() - 2) =~= pv.skip(2));
    Some(join_strings(&joined, "\n\n"))
}

// ---------------------------------------------------------------------------
// Tags of a doc comment
// ---------------------------------------------------------------------------

/// The lines of all doc strings, in order.
pub open spec fn doc_lines(docs: Seq<Seq<char>>) -> Seq<Seq<char>>
    decreases docs.len(),
{
    if docs.len() == 0 {
        Seq::empty()
    } else {
        doc_lines(docs.drop_last()) + lines(docs.last())
    }
}

/// One line of the tag scan: a line starting with `@` (after leading
/// whitespace) opens a tag; another non-blank line continues the last tag
/// when that tag takes continuation lines, or is plain documentation when no
/// tag came yet. The state is (tags, plain documentation lines).
pub open spec fn collect_step(st: (Seq<Seq<char>>, Seq<Seq<char>>), line: Seq<char>) -> (Seq<Seq<char>>, Seq<Seq<char>>) {
    let t = trim_start(line);
    if starts_with_ch(t, '@') {
        (st.0.push(t), st.1)
    } else if t.len() == 0 {
        st
    } else if st.0.len() == 0 {
        (st.0, st.1.push(t))
    } else if is_multiline(st.0.last()) {
        (st.0.update(st.0.len() - 1, st.0.last() + seq!['\n'] + t), st.1)
    } else {
        st
    }
}

/// The tag scan over lines.
pub open spec fn collect_tags(ls: Seq<Seq<char>>) -> (Seq<Seq<char>>, Seq<Seq<char>>)
    decreases ls.len(),
{
    if ls.len() == 0 {
        (Seq::empty(), Seq::empty())
    } else {
        collect_step(collect_tags(ls.drop_last()), ls.last())
    }
}

/// The roxygen tags of a doc comment: the explicit tags, led by an implicit
/// `@title`, `@description` and `@details` where the comment has tags but
/// not those; with `auto_description` and no tag at all, the plain
/// documentation lines become one `@description`.
pub open spec fn roxygen_tags(docs: Seq<Seq<char>>, auto_description: bool) -> Seq<Seq<char>> {
    let st = collect_tags(doc_lines(docs));
    let tags = st.0;
    let cond = has_tag(tags, "name"@) || has_tag(tags, "rdname"@) || tags.len() > 0;
    let t1 = if cond && !has_tag(tags, "title"@) && implicit_title(docs) is Some {
        seq!["@title "@ + implicit_title(docs)->0] + tags
    } else {
        tags
    };
    let dpos: int = if t1.len() > 0 && starts_with(t1[0], "@title"@) {
        1
    } else {
        0
    };
    let ins_d = cond && !has_tag(tags, "description"@) && implicit_description(docs) is Some;
    let t2 = if ins_d {
        t1.insert(dpos, "@description "@ + implicit_description(docs)->0)
    } else {
        t1
    };
    let xpos: int = if ins_d {
        dpos + 1
    } else {
        dpos
    };
    let t3 = if cond && !has_tag(tags, "details"@) && implicit_details(docs) is Some {
        t2.insert(xpos, "@details "@ + implicit_details(docs)->0)
    } else {
        t2
    };
    if auto_description && t3.len() == 0 && st.1.len() > 0 {
        t3.push("@description "@ + join(st.1, " "@))
    } else {
        t3
    }
}

fn append_to_last(v: &mut Vec<String>, suffix: &str)
    requires
        old(v)@.len() > 0,
    ensures
        views(final(v)@) == views(old(v)@).update(old(v)@.len() - 1, views(old(v)@).last() + suffix@),
{
    let ghost before = views(v@);
    let n = v.len();
    let mut last = v.pop().unwrap();
    last.append(suffix);
    v.push(last);
    assert(views(v@) =~= before.update(n - 1, before.last() + suffix@));
}

fn insert_string(v: &mut Vec<String>, i: usize, s: String)
    requires
        i <= old(v)@.len(),
    ensures
        views(final(v)@) == views(old(v)@).insert(i as int, s@),
        final(v)@.len() == old(v)@.len() + 1,
{
    let ghost before = views(v@);
    v.insert(i, s);
    assert(views(v@) =~= before.insert(i as int, s@));
}

/// The tag scan over the lines of all doc strings.
fn collect_doc_tags(docs: &[String]) -> (r: (Vec<String>, Vec<String>))
    ensures
        (views(r.0@), views(r.1@)) == collect_tags(doc_lines(views(docs@))),
{
    let ghost d = views(docs@);
    let mut tags: Vec<String> = Vec::new();
    let mut regular: Vec<String> = Vec::new();
    let mut i: usize = 0;
    assert(d.take(0) =~= Seq::<Seq<char>>::empty());
    while i < docs.len()
        invariant
            d == views(docs@),
            i <= docs@.len(),
            (views(tags@), views(regular@)) == collect_tags(doc_lines(d.take(i as int))),
        decreases docs@.len() - i,
    {
        let ls = lines_of(docs[i].as_str());
        let ghost prefix = doc_lines(d.take(i as int));
        let ghost lv = views(ls@);
        assert(d[i as int] == docs@[i as int]@);
        let mut j: usize = 0;
        assert(prefix + lv.take(0) =~= prefix);
        while j < ls.len()
            invariant
                lv == views(ls@),
                j <= ls@.len(),
                (views(tags@), views(regular@)) == collect_tags(prefix + lv.take(j as int)),
            decreases ls@.len() - j,
        {
            proof {
                assert((prefix + lv.take(j + 1)).drop_last() =~= prefix + lv.take(j as int));
                assert((prefix + lv.take(j + 1)).last() == ls@[j as int]@);
            }
            let t = str_trim_start(ls[j].as_str());
            if str_starts_with_char(t, '@') {
                push_string(&mut tags, owned(t));
            } else if t.unicode_len() == 0 {
            } else if tags.len() == 0 {
                push_string(&mut regular, owned(t));
            } else {
                assert(views(tags@).last() == tags@[tags@.len() - 1]@);
                if is_multiline_tag(tags[tags.len() - 1].as_str()) {
                    let ghost old_tags = views(tags@);
                    let mut suffix = String::new();
                    crate::text::push_char(&mut suffix, '\n');
                    suffix.append(t);
                    append_to_last(&mut tags, suffix.as_str());
                    proof {
                        assert(suffix@ =~= seq!['\n'] + t@);
                        assert(old_tags.last() + suffix@ =~= old_tags.last() + seq!['\n'] + t@);
                        assert(views(tags@) =~= old_tags.update(old_tags.len() - 1, old_tags.last() + seq!['\n'] + t@));
                    }
                }
            }
            j = j + 1;
        }
        proof {
            assert(lv.take(lv.len() as int) =~= lv);
            assert(d.take(i + 1).drop_last() =~= d.take(i as int));
            assert(d.take(i + 1).last() == d[i as int]);
        }
        i = i + 1;
    }
    assert(d.take(docs@.len() as int) =~= d);
    (tags, regular)
}

/// Extract the roxygen tag lines of doc comment lines. Most tags capture one
/// line; `@examples`, `@description`, `@param`, `@return` and the other
/// multiline tags take continuation lines. With `auto_description` and no
/// tag at all, the plain documentation becomes `@description`.
pub fn roxygen_tags_from_attrs_impl(docs: &[String], auto_description: bool) -> (r: Vec<String>)
    ensures
        views(r@) == roxygen_tags(views(docs@), auto_description),
{
    let (mut tags, regular) = collect_doc_tags(docs);
    let ghost t0 = views(tags@);
    let has_name = has_roxygen_tag(tags.as_slice(), "name") || has_roxygen_tag(tags.as_slice(), "rdname");
    let has_title = has_roxygen_tag(tags.as_slice(), "title");
    let has_description = has_roxygen_tag(tags.as_slice(), "description");
    let has_details = has_roxygen_tag(tags.as_slice(), "details");
    let cond = has_name || tags.len() > 0;
    if cond && !has_title {
        match implicit_title_from_attrs(docs) {
            Some(title) => insert_string(&mut tags, 0, concat2("@title ", title.as_str())),
            None => {},
        }
    }
    proof {
        assert(views(tags@) =~= (if cond && !has_tag(t0, "title"@) && implicit_title(views(docs@)) is Some {
            seq!["@title "@ + implicit_title(views(docs@))->0] + t0
        } else {
            t0
        }));
    }
    let dpos: usize = if tags.len() > 0 && str_starts_with(tags[0].as_str(), "@title") {
        1
    } else {
        0
    };
    let mut xpos = dpos;
    assert(xpos <= tags@.len());
    if cond && !has_description {
        match implicit_description_from_attrs(docs) {
            Some(desc) => {
                insert_string(&mut tags, dpos, concat2("@description ", desc.as_str()));
                xpos = dpos + 1;
                assert(xpos <= tags@.len());
            },
            None => {},
        }
    }
    if cond && !has_details {
        match implicit_details_from_attrs(docs) {
            Some(details) => insert_string(&mut tags, xpos, concat2("@details ", details.as_str())),
            None => {},
        }
    }
    if auto_description && tags.len() == 0 && regular.len() > 0 {
        let description = join_strings(&regular, " ");
        push_string(&mut tags, concat2("@description ", description.as_str()));
    }
    tags
}

/// The roxygen tags of a free function's doc comment.
pub fn roxygen_tags_from_attrs(docs: &[String]) -> (r: Vec<String>)
    ensures
        views(r@) == roxygen_tags(views(docs@), false),
{
    roxygen_tags_from_attrs_impl(docs, false)
}

/// The roxygen tags of a method's doc comment: without explicit tags, the
/// plain documentation becomes `@description`.
pub fn roxygen_tags_from_attrs_for_r6_method(docs: &[String]) -> (r: Vec<String>)
    ensures
        views(r@) == roxygen_tags(views(docs@), true),
{
    roxygen_tags_from_attrs_impl(docs, true)
}

// ---------------------------------------------------------------------------
// Stripping roxygen lines from doc attributes
// ---------------------------------------------------------------------------

/// One doc line of the strip scan. The state is (inside a roxygen region,
/// the previous line was blank); the second result says whether the line is
/// removed. A line starting with `@` opens or continues a region; in a
/// region, blank lines are removed, and a non-blank line after a blank one
/// ends it (and stays), any other continuation line is removed.
pub open spec fn strip_step(st: (bool, bool), t: Seq<char>) -> ((bool, bool), bool) {
    if starts_with_ch(t, '@') {
        ((true, false), true)
    } else if st.0 {
        if t.len() == 0 {
            ((true, true), true)
        } else if st.1 {
            ((false, false), false)
        } else {
            (st, true)
        }
    } else {
        (st, false)
    }
}

/// The strip scan state after the first `n` attributes (`None` entries are
/// attributes other than doc strings).
pub open spec fn strip_state(attrs: Seq<Option<Seq<char>>>, n: int) -> (bool, bool)
    decreases n,
{
    if n <= 0 {
        (false, false)
    } else {
        let st = strip_state(attrs, n - 1);
        match attrs[n - 1] {
            Some(d) => strip_step(st, trim_start(d)).0,
            None => st,
        }
    }
}

/// Whether the attribute at `i` is a removed roxygen line.
pub open spec fn stripped(attrs: Seq<Option<Seq<char>>>, i: int) -> bool {
    match attrs[i] {
        Some(d) => strip_step(strip_state(attrs, i), trim_start(d)).1,
        None => false,
    }
}

/// The positions kept among the first `n` attributes.
pub open spec fn kept_upto(attrs: Seq<Option<Seq<char>>>, n: int) -> Seq<int>
    decreases n,
{
    if n <= 0 {
        Seq::empty()
    } else if stripped(attrs, n - 1) {
        kept_upto(attrs, n - 1)
    } else {
        kept_upto(attrs, n - 1).push(n - 1)
    }
}

/// The views of attributes given as optional doc strings.
pub open spec fn attr_views(attrs: Seq<Option<String>>) -> Seq<Option<Seq<char>>> {
    attrs.map_values(|a: Option<String>| match a {
        Some(d) => Some(d@),
        None => None,
    })
}

/// Strip roxygen tag regions from doc attributes (`Some(text)` for a doc
/// string, `None` for any other attribute), keeping the regular
/// documentation and every other attribute. Returns the positions kept, in
/// order: a region runs from an `@` line through its continuation lines and
/// blank lines, up to a non-blank line that follows a blank one.
pub fn strip_roxygen_from_attrs(attrs: &[Option<String>]) -> (r: Vec<usize>)
    ensures
        r@.map_values(|k: usize| k as int) == kept_upto(attr_views(attrs@), attrs@.len() as int),
{
    let ghost a = attr_views(attrs@);
    let mut kept: Vec<usize> = Vec::new();
    let mut in_roxygen = false;
    let mut prev_was_empty = false;
    let mut i: usize = 0;
    while i < attrs.len()
        invariant
            a == attr_views(attrs@),
            i <= attrs@.len(),
            strip_state(a, i as int) == (in_roxygen, prev_was_empty),
            kept@.map_values(|k: usize| k as int) == kept_upto(a, i as int),
        decreases attrs@.len() - i,
    {
        let ghost before = kept@;
        let removed = match &attrs[i] {
            Some(d) => {
                let t = str_trim_start(d.as_str());
                if str_starts_with_char(t, '@') {
                    in_roxygen = true;
                    prev_was_empty = false;
                    true
                } else if in_roxygen {
                    if t.unicode_len() == 0 {
                        prev_was_empty = true;
                        true
                    } else if prev_was_empty {
                        in_roxygen = false;
                        prev_was_empty = false;
                        false
                    } else {
                        true
                    }
                } else {
                    false
                }
            },
            None => false,
        };
        if !removed {
            kept.push(i);
        }
        proof {
            assert(kept@.map_values(|k: usize| k as int) =~= kept_upto(a, i + 1));
        }
        i = i + 1;
    }
    kept
}


/// A tag line cut after its name (see [`tag_split`]).
pub fn split_tag(rest: &str) -> (r: (&str, Option<&str>))
    ensures
        r.0@ == tag_split(rest@).0,
        match r.1 {
            Some(v) => tag_split(rest@).1 == Some(v@),
            None => tag_split(rest@).1 is None,
        },
{
    let w = str_word_prefix(rest);
    proof {
        lemma_word_prefix_len(rest@);
    }
    if w.unicode_len() == rest.unicode_len() {
        (rest, None)
    } else {
        (w, Some(rest.substring_char(w.unicode_len() + 1, rest.unicode_len())))
    }
}


// ---------------------------------------------------------------------------
// Conflicts between explicit tags and the doc comment's structure
// ---------------------------------------------------------------------------

/// An explicit tag's value when, normalized, it differs from the implicit
/// one; `(implicit, explicit)`.
pub open spec fn conflict(explicit: Option<Seq<char>>, implicit: Option<Seq<char>>) -> Option<(Seq<char>, Seq<char>)> {
    match (explicit, implicit) {
        (Some(e), Some(i)) => if normalized(e) != normalized(i) {
            Some((i, e))
        } else {
            None
        },
        _ => None,
    }
}

/// The note for an `@title` that differs from the first doc line.
pub open spec fn title_note(implicit: Seq<char>, explicit: Seq<char>) -> Seq<char> {
    "miniextendr doc-lint: explicit @title differs from first doc line. R's roxygen2 uses the first line as the title. implicit: \""@
        + implicit + "\", explicit @title: \""@ + explicit + "\""@
}

/// The note for an `@description` that differs from the first paragraph.
pub open spec fn description_note(implicit: Seq<char>, explicit: Seq<char>) -> Seq<char> {
    "miniextendr doc-lint: explicit @description differs from first paragraph. R's roxygen2 uses the first paragraph as the description. implicit: \""@
        + implicit + "\", explicit @description: \""@ + explicit + "\""@
}

/// The doc-lint notes of a doc comment: one for an explicit `@title` that
/// differs from the implicit title, then one for an explicit
/// `@description` that differs from the first paragraph (compared after
/// normalization).
pub open spec fn conflict_notes(docs: Seq<Seq<char>>) -> Seq<Seq<char>> {
    let tags = roxygen_tags(docs, false);
    let t = conflict(find_value(tags, "title"@), implicit_title(docs));
    let d = conflict(find_value(tags, "description"@), implicit_description(docs));
    (match t {
        Some(p) => seq![title_note(p.0, p.1)],
        None => Seq::empty(),
    }) + (match d {
        Some(p) => seq![description_note(p.0, p.1)],
        None => Seq::empty(),
    })
}

fn differs(explicit: &Option<String>, implicit: &Option<String>) -> (r: bool)
    ensures
        r == (conflict(
            match explicit {
                Some(e) => Some(e@),
                None => None,
            },
            match implicit {
                Some(i) => Some(i@),
                None => None,
            },
        ) is Some),
{
    match (explicit, implicit) {
        (Some(e), Some(i)) => {
            let a = normalize_for_comparison(e.as_str());
            let b = normalize_for_comparison(i.as_str());
            !str_eq(a.as_str(), b.as_str())
        },
        _ => false,
    }
}

/// The doc-lint notes of a doc comment (see [`conflict_notes`]); empty when
/// the explicit tags agree with the doc comment's structure.
pub fn doc_conflict_warnings(docs: &[String]) -> (r: Vec<String>)
    ensures
        views(r@) == conflict_notes(views(docs@)),
{
    let tags = roxygen_tags_from_attrs(docs);
    let mut notes: Vec<String> = Vec::new();
    let explicit_title = find_tag_value(tags.as_slice(), "title");
    let implicit_title = implicit_title_from_attrs(docs);
    if differs(&explicit_title, &implicit_title) {
        match (&explicit_title, &implicit_title) {
            (Some(e), Some(i)) => {
                notes.push(concat5(
                    "miniextendr doc-lint: explicit @title differs from first doc line. R's roxygen2 uses the first line as the title. implicit: \"",
                    i.as_str(),
                    "\", explicit @title: \"",
                    e.as_str(),
                    "\"",
                ));
            },
            _ => {},
        }
    }
    let explicit_description = find_tag_value(tags.as_slice(), "description");
    let implicit_description = implicit_description_from_attrs(docs);
    if differs(&explicit_description, &implicit_description) {
        match (&explicit_description, &implicit_description) {
            (Some(e), Some(i)) => {
                notes.push(concat5(
                    "miniextendr doc-lint: explicit @description differs from first paragraph. R's roxygen2 uses the first paragraph as the description. implicit: \"",
                    i.as_str(),
                    "\", explicit @description: \"",
                    e.as_str(),
                    "\"",
                ));
            },
            _ => {},
        }
    }
    assert(views(notes@) =~= conflict_notes(views(docs@)));
    notes
}

// ---------------------------------------------------------------------------
// Laws
// ---------------------------------------------------------------------------

proof fn lemma_trim_start_extends(x: Seq<char>, z: Seq<char>)
    requires
        trim_start(x).len() > 0,
    ensures
        trim_start(x + z) == trim_start(x) + z,
    decreases x.len(),
{
    if x.len() > 0 && is_ws(x[0]) {
        assert((x + z).drop_first() =~= x.drop_first() + z);
        lemma_trim_start_extends(x.drop_first(), z);
    }
}

proof fn lemma_word_prefix_extends(w: Seq<char>, z: Seq<char>)
    requires
        z.len() > 0,
        is_ws(z[0]),
    ensures
        word_prefix(w + z) == word_prefix(w),
    decreases w.len(),
{
    if w.len() == 0 {
        assert(w + z =~= z);
    } else if !is_ws(w[0]) {
        assert((w + z).drop_first() =~= w.drop_first() + z);
        lemma_word_prefix_extends(w.drop_first(), z);
    }
}

/// The first word stays when text starting with whitespace is appended.
proof fn lemma_first_word_extends(x: Seq<char>, z: Seq<char>)
    requires
        first_word(x) is Some,
        z.len() > 0,
        is_ws(z[0]),
    ensures
        first_word(x + z) == first_word(x),
{
    lemma_trim_start_extends(x, z);
    lemma_word_prefix_extends(trim_start(x), z);
}

/// A doc line that starts with `@` (after leading whitespace) opens a new
/// tag, whatever came before it; the plain documentation is unchanged.
pub proof fn lemma_tag_line_opens_tag(ls: Seq<Seq<char>>, line: Seq<char>)
    requires
        starts_with_ch(trim_start(line), '@'),
    ensures
        collect_tags(ls.push(line)) == (collect_tags(ls).0.push(trim_start(line)), collect_tags(ls).1),
{
    assert(ls.push(line).drop_last() =~= ls);
}

/// The tags `@examples`, `@description`, `@details`, `@return`, `@returns`,
/// `@param`, `@note`, `@seealso`, `@section`, `@format`, `@references`,
/// `@slot`, `@field` and `@value` take continuation lines: when the last tag
/// so far is one of them, a following doc line that is neither blank nor a
/// tag line is appended to it after a newline, and the tag keeps its name,
/// so the lines after it are appended too.
pub proof fn lemma_multiline_tag_takes_continuation(ls: Seq<Seq<char>>, n: Seq<char>, line: Seq<char>)
    requires
        n == "examples"@ || n == "description"@ || n == "details"@ || n == "return"@ || n == "returns"@
            || n == "param"@ || n == "note"@ || n == "seealso"@ || n == "section"@ || n == "format"@
            || n == "references"@ || n == "slot"@ || n == "field"@ || n == "value"@,
        collect_tags(ls).0.len() > 0,
        starts_with_ch(collect_tags(ls).0.last(), '@'),
        first_word(collect_tags(ls).0.last().drop_first()) == Some(n),
        trim_start(line).len() > 0,
        !starts_with_ch(trim_start(line), '@'),
    ensures
        ({
            let (tags, plain) = collect_tags(ls);
            let appended = tags.last() + seq!['\n'] + trim_start(line);
            &&& collect_tags(ls.push(line)) == (tags.update(tags.len() - 1, appended), plain)
            &&& starts_with_ch(appended, '@')
            &&& first_word(appended.drop_first()) == Some(n)
        }),
{
    assert(ls.push(line).drop_last() =~= ls);
    let tags = collect_tags(ls).0;
    let last = tags.last();
    let rest = seq!['\n'] + trim_start(line);
    lemma_first_word_extends(last.drop_first(), rest);
    assert((last + rest).drop_first() =~= last.drop_first() + rest);
    assert(last + seq!['\n'] + trim_start(line) =~= last + rest);
}

/// Any other tag (`@export`, `@keywords`, `@rdname`, ...) holds one line:
/// a following doc line that is neither blank nor a tag line is dropped.
pub proof fn lemma_single_line_tag_drops_continuation(ls: Seq<Seq<char>>, n: Seq<char>, line: Seq<char>)
    requires
        !(n == "examples"@ || n == "description"@ || n == "details"@ || n == "return"@ || n == "returns"@
            || n == "param"@ || n == "note"@ || n == "seealso"@ || n == "section"@ || n == "format"@
            || n == "references"@ || n == "slot"@ || n == "field"@ || n == "value"@),
        collect_tags(ls).0.len() > 0,
        starts_with_ch(collect_tags(ls).0.last(), '@'),
        first_word(collect_tags(ls).0.last().drop_first()) == Some(n),
        trim_start(line).len() > 0,
        !starts_with_ch(trim_start(line), '@'),
    ensures
        collect_tags(ls.push(line)) == collect_tags(ls),
{
    assert(ls.push(line).drop_last() =~= ls);
}

/// A blank doc line changes neither the tags nor the plain documentation.
pub proof fn lemma_blank_line_ignored(ls: Seq<Seq<char>>, line: Seq<char>)
    requires
        trim_start(line).len() == 0,
    ensures
        collect_tags(ls.push(line)) == collect_tags(ls),
{
    assert(ls.push(line).drop_last() =~= ls);
}

/// Before the first tag, a doc line that is neither blank nor a tag line is
/// plain documentation, kept without its leading whitespace.
pub proof fn lemma_text_before_tags_is_plain(ls: Seq<Seq<char>>, line: Seq<char>)
    requires
        collect_tags(ls).0.len() == 0,
        trim_start(line).len() > 0,
        !starts_with_ch(trim_start(line), '@'),
    ensures
        collect_tags(ls.push(line)) == (collect_tags(ls).0, collect_tags(ls).1.push(trim_start(line))),
{
    assert(ls.push(line).drop_last() =~= ls);
}

proof fn lemma_insert_keeps(v: Seq<Seq<char>>, pos: int, x: Seq<char>, y: Seq<char>)
    requires
        0 <= pos <= v.len(),
        v.contains(y),
    ensures
        v.insert(pos, x).contains(y),
{
    let i = choose|i: int| 0 <= i < v.len() && v[i] == y;
    if i < pos {
        assert(v.insert(pos, x)[i] == y);
    } else {
        assert(v.insert(pos, x)[i + 1] == y);
    }
}

/// Every tag written in a doc comment is among its roxygen tags: the
/// implicit `@title`, `@description` and `@details` are only ever added.
pub proof fn lemma_explicit_tags_kept(docs: Seq<Seq<char>>, auto_description: bool)
    ensures
        forall|i: int|
            0 <= i < collect_tags(doc_lines(docs)).0.len() ==> roxygen_tags(docs, auto_description).contains(
                #[trigger] collect_tags(doc_lines(docs)).0[i],
            ),
{
    let tags = collect_tags(doc_lines(docs)).0;
    let cond = has_tag(tags, "name"@) || has_tag(tags, "rdname"@) || tags.len() > 0;
    let t1 = if cond && !has_tag(tags, "title"@) && implicit_title(docs) is Some {
        seq!["@title "@ + implicit_title(docs)->0] + tags
    } else {
        tags
    };
    let dpos: int = if t1.len() > 0 && starts_with(t1[0], "@title"@) {
        1
    } else {
        0
    };
    let ins_d = cond && !has_tag(tags, "description"@) && implicit_description(docs) is Some;
    let t2 = if ins_d {
        t1.insert(dpos, "@description "@ + implicit_description(docs)->0)
    } else {
        t1
    };
    let xpos: int = if ins_d {
        dpos + 1
    } else {
        dpos
    };
    let t3 = if cond && !has_tag(tags, "details"@) && implicit_details(docs) is Some {
        t2.insert(xpos, "@details "@ + implicit_details(docs)->0)
    } else {
        t2
    };
    assert forall|i: int| 0 <= i < tags.len() implies roxygen_tags(docs, auto_description).contains(#[trigger] tags[i]) by {
        let y = tags[i];
        if t1 != tags {
            assert(t1[i + 1] == y);
        } else {
            assert(t1[i] == y);
        }
        if ins_d {
            lemma_insert_keeps(t1, dpos, "@description "@ + implicit_description(docs)->0, y);
        }
        if t3 != t2 {
            lemma_insert_keeps(t2, xpos, "@details "@ + implicit_details(docs)->0, y);
        }
        let k = choose|k: int| 0 <= k < t3.len() && t3[k] == y;
        assert(roxygen_tags(docs, auto_description)[k] == y);
    }
}

/// A single-word query asks for a tag name: the tags hold it exactly when
/// it is one of their names (what [`tag_names`] lists).
pub proof fn lemma_single_word_query_is_tag_name(tags: Seq<Seq<char>>, query: Seq<char>)
    requires
        !has_ws(query),
    ensures
        has_tag(tags, query) == tag_name_set(tags).contains(query),
{
}

/// Every rendered line of a tag carries the `#' ` lead, continuation lines
/// included.
pub proof fn lemma_comment_lines_lead(tags: Seq<Seq<char>>)
    ensures
        forall|i: int| 0 <= i < comment_lines(tags).len() ==> starts_with(#[trigger] comment_lines(tags)[i], "#' "@),
    decreases tags.len(),
{
    if tags.len() > 0 {
        lemma_comment_lines_lead(tags.drop_last());
        let prev = comment_lines(tags.drop_last());
        let last = tag_comment_lines(tags.last());
        assert forall|i: int| 0 <= i < comment_lines(tags).len() implies starts_with(
            #[trigger] comment_lines(tags)[i],
            "#' "@,
        ) by {
            if i < prev.len() {
                assert(comment_lines(tags)[i] == prev[i]);
            } else {
                let l = lines(tags.last())[i - prev.len()];
                assert(comment_lines(tags)[i] == "#' "@ + l);
                assert(("#' "@ + l).take(3) =~= "#' "@) by {
                    reveal_strlit("#' ");
                }
                reveal_strlit("#' ");
            }
        }
    }
}

/// Stripping roxygen regions never drops an attribute that is not a doc
/// string.
pub proof fn lemma_other_attrs_kept(attrs: Seq<Option<Seq<char>>>, n: int)
    ensures
        forall|i: int| 0 <= i < n && attrs[i] is None ==> #[trigger] kept_upto(attrs, n).contains(i),
    decreases n,
{
    if n > 0 {
        lemma_other_attrs_kept(attrs, n - 1);
        let prev = kept_upto(attrs, n - 1);
        assert forall|i: int| 0 <= i < n && attrs[i] is None implies #[trigger] kept_upto(attrs, n).contains(i) by {
            if i < n - 1 {
                assert(prev.contains(i));
                let k = choose|k: int| 0 <= k < prev.len() && prev[k] == i;
                if !stripped(attrs, n - 1) {
                    assert(kept_upto(attrs, n)[k] == i);
                }
            } else {
                assert(!stripped(attrs, n - 1));
                assert(kept_upto(attrs, n)[prev.len() as int] == i);
            }
        }
    }
}

} // verus!
