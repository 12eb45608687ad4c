//! Character-level text helpers shared by the parsers and formatters.
//!
//! Everything here works on the `char` view of strings (`Seq<char>`), which is
//! how `str::find`, `str::trim` and friends behave on well-formed UTF-8.

use vstd::prelude::*;
use vstd::utf8::*;

verus! {

// ── Character classes ─────────────────────────────────────────────

/// Unicode `White_Space`, the set `char::is_whitespace` tests for.
pub open spec fn is_ws(c: char) -> bool {
    ||| c == ' '
    ||| ('\t' <= c && c <= '\r')
    ||| c == '\u{85}'
    ||| c == '\u{A0}'
    ||| c == '\u{1680}'
    ||| ('\u{2000}' <= c && c <= '\u{200A}')
    ||| c == '\u{2028}'
    ||| c == '\u{2029}'
    ||| c == '\u{202F}'
    ||| c == '\u{205F}'
    ||| c == '\u{3000}'
}

pub fn is_whitespace(c: char) -> (r: bool)
    ensures
        r == is_ws(c),
{
    c == ' ' || ('\t' <= c && c <= '\r') || c == '\u{85}' || c == '\u{A0}' || c == '\u{1680}'
        || ('\u{2000}' <= c && c <= '\u{200A}') || c == '\u{2028}' || c == '\u{2029}'
        || c == '\u{202F}' || c == '\u{205F}' || c == '\u{3000}'
}

pub open spec fn is_digit(c: char) -> bool {
    '0' <= c && c <= '9'
}

/// Unicode general category `Cc`, the set `char::is_control` tests for.
pub open spec fn is_ctrl(c: char) -> bool {
    c <= '\u{1F}' || ('\u{7F}' <= c && c <= '\u{9F}')
}

pub fn is_control(c: char) -> (r: bool)
    ensures
        r == is_ctrl(c),
{
    c <= '\u{1F}' || ('\u{7F}' <= c && c <= '\u{9F}')
}

// ── Conversions between `str` and character vectors ───────────────

/// Copies the characters of `s` into a vector.
pub fn chars_of(s: &str) -> (v: Vec<char>)
    ensures
        v@ == s@,
{
    let mut v: Vec<char> = Vec::new();
    for c in it: s.chars()
        invariant
            it.seq() == s@,
            v@ == it.seq().take(it.index()),
    {
        v.push(c);
    }
    v
}

/// Builds a `String` holding exactly the given characters (`String: FromIterator<&char>`).
#[verifier::external_body]
pub(crate) fn string_of(cs: &[char]) -> (s: String)
    ensures
        s@ == cs@,
{
    cs.iter().collect()
}

/// Copies a slice of characters into a fresh vector.
pub fn copy_chars(cs: &[char]) -> (v: Vec<char>)
    ensures
        v@ == cs@,
{
    let mut v: Vec<char> = Vec::new();
    let mut i: usize = 0;
    while i < cs.len()
        invariant
            i <= cs@.len(),
            v@ == cs@.take(i as int),
        decreases cs@.len() - i,
    {
        v.push(cs[i]);
        i += 1;
        proof {
            assert(cs@.take(i as int) =~= cs@.take((i - 1) as int).push(cs@[i - 1]));
        }
    }
    proof {
        assert(cs@.take(i as int) =~= cs@);
    }
    v
}

/// The characters `cs[from..to]` as a new vector.
pub fn sub_chars(cs: &[char], from: usize, to: usize) -> (v: Vec<char>)
    requires
        from <= to <= cs@.len(),
    ensures
        v@ == cs@.subrange(from as int, to as int),
{
    let mut v: Vec<char> = Vec::new();
    let mut i: usize = from;
    while i < to
        invariant
            from <= i <= to <= cs@.len(),
            v@ == cs@.subrange(from as int, i as int),
        decreases to - i,
    {
        v.push(cs[i]);
        i += 1;
        proof {
            assert(cs@.subrange(from as int, i as int) =~= cs@.subrange(from as int, i - 1).push(
                cs@[i - 1],
            ));
        }
    }
    v
}

/// Appends all of `src` to `dst`.
pub fn push_all(dst: &mut Vec<char>, src: &[char])
    ensures
        final(dst)@ == old(dst)@ + src@,
{
    let mut i: usize = 0;
    while i < src.len()
        invariant
            i <= src@.len(),
            dst@ == old(dst)@ + src@.take(i as int),
        decreases src@.len() - i,
    {
        dst.push(src[i]);
        i += 1;
        proof {
            assert(src@.take(i as int) =~= src@.take((i - 1) as int).push(src@[i - 1]));
        }
    }
    proof {
        assert(src@.take(i as int) =~= src@);
    }
}

/// Appends all characters of `s` to `dst`.
pub fn push_str(dst: &mut Vec<char>, s: &str)
    ensures
        final(dst)@ == old(dst)@ + s@,
{
    let cs = chars_of(s);
    push_all(dst, cs.as_slice());
}

// ── Searching ─────────────────────────────────────────────────────

/// `n` occurs in `h` starting at index `i`.
pub open spec fn occurs_at(h: Seq<char>, n: Seq<char>, i: int) -> bool {
    0 <= i && i + n.len() <= h.len() && h.subrange(i, i + n.len()) == n
}

/// First index at or after `i` where `n` occurs in `h` (what `str::find` reports, counted in chars).
pub open spec fn find_from(h: Seq<char>, n: Seq<char>, i: int) -> Option<int>
    decreases h.len() + 1 - i,
{
    if i < 0 || i + n.len() > h.len() {
        None
    } else if occurs_at(h, n, i) {
        Some(i)
    } else {
        find_from(h, n, i + 1)
    }
}

pub open spec fn spec_find(h: Seq<char>, n: Seq<char>) -> Option<int> {
    find_from(h, n, 0)
}

pub open spec fn spec_contains(h: Seq<char>, n: Seq<char>) -> bool {
    spec_find(h, n) is Some
}

/// `find_from` reports the first occurrence at or after `i`.
pub proof fn lemma_find_from(h: Seq<char>, n: Seq<char>, i: int)
    requires
        0 <= i,
    ensures
        find_from(h, n, i) matches Some(k) ==> i <= k && occurs_at(h, n, k) && forall|j: int|
            i <= j < k ==> !occurs_at(h, n, j),
        find_from(h, n, i) is None ==> forall|j: int| i <= j ==> !occurs_at(h, n, j),
    decreases h.len() + 1 - i,
{
    if i + n.len() > h.len() {
    } else if occurs_at(h, n, i) {
    } else {
        lemma_find_from(h, n, i + 1);
    }
}

pub open spec fn spec_starts_with(h: Seq<char>, n: Seq<char>) -> bool {
    n.len() <= h.len() && h.take(n.len() as int) == n
}

pub open spec fn spec_ends_with(h: Seq<char>, n: Seq<char>) -> bool {
    n.len() <= h.len() && h.skip(h.len() - n.len()) == n
}

/// Whether `n` occurs in `h` at index `i`.
pub fn matches_at(h: &[char], n: &[char], i: usize) -> (r: bool)
    ensures
        r == occurs_at(h@, n@, i as int),
{
    if i > h.len() || n.len() > h.len() - i {
        return false;
    }
    let mut k: usize = 0;
    while k < n.len()
        invariant
            i + n@.len() <= h@.len(),
            h@.len() <= usize::MAX,
            k <= n@.len(),
            forall|j: int| 0 <= j < k ==> h@[i + j] == n@[j],
        decreases n@.len() - k,
    {
        if h[i + k] != n[k] {
            proof {
                assert(h@.subrange(i as int, i + n@.len())[k as int] != n@[k as int]);
            }
            return false;
        }
        k += 1;
    }
    proof {
        assert(h@.subrange(i as int, i + n@.len()) =~= n@);
    }
    true
}

/// First occurrence of `n` in `h` at or after `start`, counted in chars.
pub fn find_chars_from(h: &[char], n: &[char], start: usize) -> (r: Option<usize>)
    ensures
        match r {
            Some(k) => find_from(h@, n@, start as int) == Some(k as int) && k + n@.len() <= h@.len(),
            None => find_from(h@, n@, start as int) is None,
        },
{
    let mut i = start;
    if i > h.len() || n.len() > h.len() - i {
        return None;
    }
    while n.len() <= h.len() - i
        invariant
            start <= i,
            i <= h@.len(),
            find_from(h@, n@, start as int) == find_from(h@, n@, i as int),
        decreases h@.len() - i,
    {
        if matches_at(h, n, i) {
            return Some(i);
        }
        proof {
            if n@.len() == 0 {
                assert(h@.subrange(i as int, i as int) =~= n@);
            }
        }
        i += 1;
    }
    None
}

/// First occurrence of `n` in `h`, counted in chars (`str::find`).
pub fn find_chars(h: &[char], n: &[char]) -> (r: Option<usize>)
    ensures
        match r {
            Some(k) => spec_find(h@, n@) == Some(k as int) && k + n@.len() <= h@.len(),
            None => spec_find(h@, n@) is None,
        },
{
    find_chars_from(h, n, 0)
}

/// First occurrence of the literal `n` in `h`.
pub fn find_str(h: &[char], n: &str) -> (r: Option<usize>)
    ensures
        match r {
            Some(k) => spec_find(h@, n@) == Some(k as int) && k + n@.len() <= h@.len(),
            None => spec_find(h@, n@) is None,
        },
{
    let nc = chars_of(n);
    find_chars(h, nc.as_slice())
}

/// Whether the literal `n` occurs in `h` (`str::contains`).
pub fn contains_str(h: &[char], n: &str) -> (r: bool)
    ensures
        r == spec_contains(h@, n@),
{
    find_str(h, n).is_some()
}

/// `s` with every occurrence of `from` replaced by `to`, scanning from the
/// left without overlaps (`str::replace`, for a non-empty `from`).
pub open spec fn spec_replace(s: Seq<char>, from: Seq<char>, to: Seq<char>) -> Seq<char>
    decreases s.len(),
{
    if s.len() == 0 || from.len() == 0 {
        s
    } else if spec_starts_with(s, from) {
        to + spec_replace(s.skip(from.len() as int), from, to)
    } else {
        seq![s[0]] + spec_replace(s.drop_first(), from, to)
    }
}

/// `str::replace` with a non-empty pattern.
pub fn replace_str(s: &[char], from: &str, to: &str) -> (r: Vec<char>)
    requires
        from@.len() > 0,
    ensures
        r@ == spec_replace(s@, from@, to@),
{
    let f = chars_of(from);
    let mut out: Vec<char> = Vec::new();
    let mut i: usize = 0;
    proof {
        assert(s@.skip(0) =~= s@);
    }
    while i < s.len()
        invariant
            f@ == from@,
            from@.len() > 0,
            i <= s@.len(),
            out@ + spec_replace(s@.skip(i as int), from@, to@) == spec_replace(s@, from@, to@),
        decreases s@.len() - i,
    {
        let ghost rest = s@.skip(i as int);
        let ghost k = from@.len() as int;
        if matches_at(s, f.as_slice(), i) {
            proof {
                assert(rest.take(k) =~= s@.subrange(i as int, i + k));
                assert(rest.skip(k) =~= s@.skip(i + k));
                assert(spec_replace(rest, from@, to@) == to@ + spec_replace(s@.skip(i + k), from@, to@));
                assert((out@ + to@) + spec_replace(s@.skip(i + k), from@, to@) =~= out@ + (to@
                    + spec_replace(s@.skip(i + k), from@, to@)));
            }
            push_str(&mut out, to);
            i = i + f.len();
        } else {
            proof {
                if spec_starts_with(rest, from@) {
                    assert(rest.take(k) =~= s@.subrange(i as int, i + k));
                }
                assert(rest.drop_first() =~= s@.skip(i + 1));
                assert(spec_replace(rest, from@, to@) == seq![s@[i as int]] + spec_replace(
                    s@.skip(i + 1),
                    from@,
                    to@,
                ));
                assert(out@.push(s@[i as int]) + spec_replace(s@.skip(i + 1), from@, to@) =~= out@ + (
                seq![s@[i as int]] + spec_replace(s@.skip(i + 1), from@, to@)));
            }
            out.push(s[i]);
            i = i + 1;
        }
    }
    proof {
        assert(s@.skip(i as int) =~= Seq::<char>::empty());
        assert(out@ + Seq::<char>::empty() =~= out@);
    }
    out
}

/// `str::starts_with` on character sequences.
pub fn starts_with_chars(h: &[char], n: &[char]) -> (r: bool)
    ensures
        r == spec_starts_with(h@, n@),
{
    let r = matches_at(h, n, 0);
    proof {
        assert(h@.subrange(0, n@.len() as int) =~= h@.take(n@.len() as int));
    }
    r
}

pub fn starts_with_str(h: &[char], n: &str) -> (r: bool)
    ensures
        r == spec_starts_with(h@, n@),
{
    let nc = chars_of(n);
    starts_with_chars(h, nc.as_slice())
}

/// `str::ends_with` on character sequences.
pub fn ends_with_str(h: &[char], n: &str) -> (r: bool)
    ensures
        r == spec_ends_with(h@, n@),
{
    let nc = chars_of(n);
    if nc.len() > h.len() {
        return false;
    }
    let r = matches_at(h, nc.as_slice(), h.len() - nc.len());
    proof {
        assert(h@.subrange(h@.len() - nc@.len(), h@.len() as int) =~= h@.skip(
            h@.len() - nc@.len(),
        ));
    }
    r
}

/// Character-wise equality (`==` on `str`).
pub fn chars_eq(a: &[char], b: &[char]) -> (r: bool)
    ensures
        r == (a@ == b@),
{
    if a.len() != b.len() {
        return false;
    }
    let r = matches_at(a, b, 0);
    proof {
        assert(a@.subrange(0, b@.len() as int) =~= a@);
    }
    r
}

pub fn eq_str(a: &[char], b: &str) -> (r: bool)
    ensures
        r == (a@ == b@),
{
    let bc = chars_of(b);
    chars_eq(a, bc.as_slice())
}


// ── Trimming ──────────────────────────────────────────────────────

/// `s` without its leading whitespace (`str::trim_start`).
pub open spec fn spec_trim_start(s: Seq<char>) -> Seq<char>
    decreases s.len(),
{
    if s.len() > 0 && is_ws(s[0]) {
        spec_trim_start(s.drop_first())
    } else {
        s
    }
}

/// `s` without its trailing whitespace (`str::trim_end`).
pub open spec fn spec_trim_end(s: Seq<char>) -> Seq<char>
    decreases s.len(),
{
    if s.len() > 0 && is_ws(s.last()) {
        spec_trim_end(s.drop_last())
    } else {
        s
    }
}

/// `s` without leading and trailing whitespace (`str::trim`).
pub open spec fn spec_trim(s: Seq<char>) -> Seq<char> {
    spec_trim_end(spec_trim_start(s))
}

/// Index of the first character of `s` that is not whitespace.
pub fn trim_start_index(s: &[char]) -> (i: usize)
    ensures
        i <= s@.len(),
        s@.skip(i as int) == spec_trim_start(s@),
{
    let mut i: usize = 0;
    proof {
        assert(s@.skip(0) =~= s@);
    }
    while i < s.len() && is_whitespace(s[i])
        invariant
            i <= s@.len(),
            spec_trim_start(s@) == spec_trim_start(s@.skip(i as int)),
        decreases s@.len() - i,
    {
        proof {
            assert(s@.skip(i as int).drop_first() =~= s@.skip(i + 1));
        }
        i += 1;
    }
    proof {
        assert(s@.skip(i as int).len() == 0 || !is_ws(s@.skip(i as int)[0]));
    }
    i
}

/// One past the last character of `s` that is not whitespace.
pub fn trim_end_index(s: &[char]) -> (e: usize)
    ensures
        e <= s@.len(),
        s@.take(e as int) == spec_trim_end(s@),
{
    let mut e: usize = s.len();
    proof {
        assert(s@.take(e as int) =~= s@);
    }
    while e > 0 && is_whitespace(s[e - 1])
        invariant
            e <= s@.len(),
            spec_trim_end(s@) == spec_trim_end(s@.take(e as int)),
        decreases e,
    {
        proof {
            assert(s@.take(e as int).drop_last() =~= s@.take(e - 1));
        }
        e -= 1;
    }
    e
}

/// `str::trim` on characters.
pub fn trim(s: &[char]) -> (r: Vec<char>)
    ensures
        r@ == spec_trim(s@),
{
    let i = trim_start_index(s);
    let rest = sub_chars(s, i, s.len());
    proof {
        assert(rest@ =~= s@.skip(i as int));
    }
    let e = trim_end_index(rest.as_slice());
    sub_chars(rest.as_slice(), 0, e)
}

// ── Splitting on whitespace ───────────────────────────────────────

/// First index at or after `i` holding a non-whitespace character (or the length).
pub open spec fn skip_ws_from(s: Seq<char>, i: int) -> int
    decreases s.len() - i,
{
    if 0 <= i < s.len() && is_ws(s[i]) {
        skip_ws_from(s, i + 1)
    } else {
        i
    }
}

/// First index at or after `i` holding a whitespace character (or the length).
pub open spec fn word_end_from(s: Seq<char>, i: int) -> int
    decreases s.len() - i,
{
    if 0 <= i < s.len() && !is_ws(s[i]) {
        word_end_from(s, i + 1)
    } else {
        i
    }
}

pub proof fn lemma_skip_ws_from(s: Seq<char>, i: int)
    requires
        0 <= i <= s.len(),
    ensures
        i <= skip_ws_from(s, i) <= s.len(),
        skip_ws_from(s, i) < s.len() ==> !is_ws(s[skip_ws_from(s, i)]),
        forall|k: int| i <= k < skip_ws_from(s, i) ==> is_ws(#[trigger] s[k]),
    decreases s.len() - i,
{
    if i < s.len() && is_ws(s[i]) {
        lemma_skip_ws_from(s, i + 1);
    }
}

pub proof fn lemma_word_end_from(s: Seq<char>, i: int)
    requires
        0 <= i <= s.len(),
    ensures
        i <= word_end_from(s, i) <= s.len(),
        word_end_from(s, i) < s.len() ==> is_ws(s[word_end_from(s, i)]),
        forall|k: int| i <= k < word_end_from(s, i) ==> !is_ws(#[trigger] s[k]),
    decreases s.len() - i,
{
    if i < s.len() && !is_ws(s[i]) {
        lemma_word_end_from(s, i + 1);
    }
}

/// The whitespace-separated words of `s[i..]` (`str::split_whitespace`).
pub open spec fn words_from(s: Seq<char>, i: int) -> Seq<Seq<char>>
    decreases s.len() - i,
{
    if i < 0 || i > s.len() {
        seq![]
    } else {
        let j = skip_ws_from(s, i);
        if j >= s.len() {
            seq![]
        } else {
            let e = word_end_from(s, j);
            proof {
                lemma_skip_ws_from(s, i);
                lemma_word_end_from(s, j);
            }
            if e <= i {
                seq![]
            } else {
                seq![s.subrange(j, e)] + words_from(s, e)
            }
        }
    }
}

/// The whitespace-separated words of `s`.
pub open spec fn spec_words(s: Seq<char>) -> Seq<Seq<char>> {
    words_from(s, 0)
}

/// Locates the next word at or after `i`: its start and end indices.
pub fn next_word(s: &[char], i: usize) -> (r: Option<(usize, usize)>)
    requires
        i <= s@.len(),
    ensures
        match r {
            Some((j, e)) => {
                &&& j == skip_ws_from(s@, i as int)
                &&& e == word_end_from(s@, j as int)
                &&& i <= j < e <= s@.len()
                &&& words_from(s@, i as int) == seq![s@.subrange(j as int, e as int)] + words_from(
                    s@,
                    e as int,
                )
            },
            None => words_from(s@, i as int) == Seq::<Seq<char>>::empty(),
        },
{
    let mut j = i;
    while j < s.len() && is_whitespace(s[j])
        invariant
            i <= j <= s@.len(),
            skip_ws_from(s@, i as int) == skip_ws_from(s@, j as int),
        decreases s@.len() - j,
    {
        j += 1;
    }
    proof {
        lemma_skip_ws_from(s@, i as int);
    }
    if j >= s.len() {
        return None;
    }
    let mut e = j;
    while e < s.len() && !is_whitespace(s[e])
        invariant
            j <= e <= s@.len(),
            word_end_from(s@, j as int) == word_end_from(s@, e as int),
        decreases s@.len() - e,
    {
        e += 1;
    }
    proof {
        lemma_word_end_from(s@, j as int);
    }
    Some((j, e))
}

/// The first whitespace-separated word of `s`, if any (`split_whitespace().next()`).
pub fn first_word(s: &[char]) -> (r: Option<Vec<char>>)
    ensures
        match r {
            Some(w) => spec_words(s@).len() > 0 && w@ == spec_words(s@)[0] && w@.len() > 0,
            None => spec_words(s@).len() == 0,
        },
{
    match next_word(s, 0) {
        Some((j, e)) => {
            let w = sub_chars(s, j, e);
            Some(w)
        },
        None => None,
    }
}

/// All whitespace-separated words of `s`.
pub fn split_words(s: &[char]) -> (r: Vec<Vec<char>>)
    ensures
        r@.len() == spec_words(s@).len(),
        forall|k: int| 0 <= k < r@.len() ==> (#[trigger] r@[k])@ == spec_words(s@)[k],
{
    let mut out: Vec<Vec<char>> = Vec::new();
    let mut i: usize = 0;
    proof {
        assert(out@.map_values(|w: Vec<char>| w@) + words_from(s@, 0) =~= words_from(s@, 0));
    }
    loop
        invariant
            i <= s@.len(),
            spec_words(s@) == out@.map_values(|w: Vec<char>| w@) + words_from(s@, i as int),
        decreases s@.len() - i,
    {
        match next_word(s, i) {
            Some((j, e)) => {
                let w = sub_chars(s, j, e);
                let ghost before = out@;
                out.push(w);
                proof {
                    assert(out@.map_values(|w: Vec<char>| w@) =~= before.map_values(
                        |w: Vec<char>| w@,
                    ).push(s@.subrange(j as int, e as int)));
                }
                i = e;
            },
            None => {
                proof {
                    assert(spec_words(s@) =~= out@.map_values(|w: Vec<char>| w@));
                }
                return out;
            },
        }
    }
}

/// Index of the first whitespace character of `s`, if any.
pub open spec fn first_ws(s: Seq<char>) -> Option<int> {
    if exists|k: int| 0 <= k < s.len() && is_ws(s[k]) {
        Some(choose|k: int| 0 <= k < s.len() && is_ws(s[k]) && forall|m: int| 0 <= m < k ==> !is_ws(s[m]))
    } else {
        None
    }
}

/// `str::splitn(n, char::is_whitespace)`: splits at single whitespace characters into at
/// most `n` pieces, the last piece holding the unsplit remainder.
#[verifier::opaque]
pub open spec fn spec_splitn_ws(s: Seq<char>, n: nat) -> Seq<Seq<char>>
    decreases n,
{
    if n == 0 {
        seq![]
    } else if n == 1 {
        seq![s]
    } else {
        match first_ws(s) {
            Some(k) => seq![s.take(k)] + spec_splitn_ws(s.skip(k + 1), (n - 1) as nat),
            None => seq![s],
        }
    }
}


/// Index of the first whitespace character of `s`.
pub fn first_ws_index(s: &[char]) -> (r: Option<usize>)
    ensures
        match r {
            Some(k) => first_ws(s@) == Some(k as int) && k < s@.len(),
            None => first_ws(s@) is None,
        },
{
    let mut i: usize = 0;
    while i < s.len()
        invariant
            i <= s@.len(),
            forall|m: int| 0 <= m < i ==> !is_ws(s@[m]),
        decreases s@.len() - i,
    {
        if is_whitespace(s[i]) {
            proof {
                let k = choose|k: int|
                    0 <= k < s@.len() && is_ws(s@[k]) && forall|m: int| 0 <= m < k ==> !is_ws(s@[m]);
                assert(0 <= k < s@.len() && is_ws(s@[k]));
                if k < i {
                } else if k > i {
                    assert(!is_ws(s@[i as int]));
                }
            }
            return Some(i);
        }
        i += 1;
    }
    None
}

proof fn lemma_splitn_step(rest: Seq<char>, left: nat)
    requires
        left >= 1,
    ensures
        left == 1 ==> spec_splitn_ws(rest, left) == seq![rest],
        left > 1 && first_ws(rest) is None ==> spec_splitn_ws(rest, left) == seq![rest],
        left > 1 && first_ws(rest) is Some ==> spec_splitn_ws(rest, left) == seq![
            rest.take(first_ws(rest)->0),
        ] + spec_splitn_ws(rest.skip(first_ws(rest)->0 + 1), (left - 1) as nat),
{
    reveal(spec_splitn_ws);
}

/// No pieces for `n == 0`.
pub proof fn lemma_splitn_zero(s: Seq<char>)
    ensures
        spec_splitn_ws(s, 0) == Seq::<Seq<char>>::empty(),
{
    reveal(spec_splitn_ws);
}

proof fn lemma_map_push(before: Seq<Vec<char>>, w: Vec<char>)
    ensures
        before.push(w).map_values(|v: Vec<char>| v@) == before.map_values(|v: Vec<char>| v@).push(
            w@,
        ),
{
    assert(before.push(w).map_values(|v: Vec<char>| v@) =~= before.map_values(|v: Vec<char>| v@).push(
        w@,
    ));
}

/// `str::splitn(n, char::is_whitespace)` on characters.
pub fn splitn_ws(s: &[char], n: usize) -> (r: Vec<Vec<char>>)
    ensures
        r@.len() == spec_splitn_ws(s@, n as nat).len(),
        forall|k: int| 0 <= k < r@.len() ==> (#[trigger] r@[k])@ == spec_splitn_ws(s@, n as nat)[k],
{
    let mut out: Vec<Vec<char>> = Vec::new();
    if n == 0 {
        proof {
            lemma_splitn_zero(s@);
        }
        return out;
    }
    let mut rest = copy_chars(s);
    let mut left: usize = n;
    let ghost total = spec_splitn_ws(s@, n as nat);
    proof {
        assert(out@.map_values(|w: Vec<char>| w@) + total =~= total);
    }
    loop
        invariant_except_break
            left >= 1,
            total == out@.map_values(|w: Vec<char>| w@) + spec_splitn_ws(rest@, left as nat),
        ensures
            total == out@.map_values(|w: Vec<char>| w@),
        decreases left,
    {
        let ghost before = out@;
        let ghost done = before.map_values(|w: Vec<char>| w@);
        proof {
            lemma_splitn_step(rest@, left as nat);
        }
        if left == 1 {
            let ghost last = rest@;
            out.push(rest);
            proof {
                lemma_map_push(before, out@.last());
                assert(out@ == before.push(out@.last()));
                assert(total == done + seq![last]);
                assert(done + seq![last] =~= done.push(last));
            }
            break;
        }
        match first_ws_index(rest.as_slice()) {
            Some(k) => {
                proof {
                    assert(first_ws(rest@) == Some(k as int));
                    assert(k < rest@.len());
                    assert(k < rest.len());
                }
                let head = sub_chars(rest.as_slice(), 0, k);
                let tail = sub_chars(rest.as_slice(), k + 1, rest.len());
                proof {
                    assert(head@ =~= rest@.take(k as int));
                    assert(tail@ =~= rest@.skip(k + 1));
                }
                let ghost hv = head@;
                out.push(head);
                proof {
                    lemma_map_push(before, out@.last());
                    assert(out@ == before.push(out@.last()));
                    assert(total == done + (seq![hv] + spec_splitn_ws(tail@, (left - 1) as nat)));
                    assert(done + (seq![hv] + spec_splitn_ws(tail@, (left - 1) as nat)) =~= done.push(
                        hv,
                    ) + spec_splitn_ws(tail@, (left - 1) as nat));
                }
                rest = tail;
                left = left - 1;
            },
            None => {
                let ghost last = rest@;
                out.push(rest);
                proof {
                    lemma_map_push(before, out@.last());
                    assert(out@ == before.push(out@.last()));
                    assert(total == done + seq![last]);
                    assert(done + seq![last] =~= done.push(last));
                }
                break;
            },
        }
    }
    out
}

// ── Case mapping (std) ────────────────────────────────────────────

pub open spec fn is_ascii_char(c: char) -> bool {
    (c as u32) < 128
}

pub open spec fn all_ascii(s: Seq<char>) -> bool {
    forall|i: int| 0 <= i < s.len() ==> is_ascii_char(#[trigger] s[i])
}

pub open spec fn ascii_lower_char(c: char) -> char {
    if 'A' <= c && c <= 'Z' {
        ((c as u32) + 32) as char
    } else {
        c
    }
}

pub open spec fn ascii_upper_char(c: char) -> char {
    if 'a' <= c && c <= 'z' {
        ((c as u32) - 32) as char
    } else {
        c
    }
}

/// What `str::to_lowercase` returns for `s`.
pub uninterp spec fn lowercase_of(s: Seq<char>) -> Seq<char>;

/// What `str::to_uppercase` returns for `s`.
pub uninterp spec fn uppercase_of(s: Seq<char>) -> Seq<char>;

/// `str::to_lowercase`. Its result is named `lowercase_of`. std documents it as
/// each character's lowercase mapping in turn, every character mapping to one or
/// more characters; so the result is at least as long, and empty only for an
/// empty input. On ASCII input it is the ASCII lowercase mapping.
#[verifier::external_body]
pub(crate) fn to_lowercase(s: &str) -> (r: String)
    ensures
        r@ == lowercase_of(s@),
        r@.len() >= s@.len(),
        s@.len() == 0 ==> r@.len() == 0,
        all_ascii(s@) ==> r@ == s@.map_values(|c: char| ascii_lower_char(c)),
{
    s.to_lowercase()
}

/// `str::to_uppercase`. Its result is named `uppercase_of`. Like the lowercase
/// mapping, each character maps to one or more characters, so the result is at
/// least as long, and empty only for an empty input. On ASCII input it is the
/// ASCII uppercase mapping.
#[verifier::external_body]
pub(crate) fn to_uppercase(s: &str) -> (r: String)
    ensures
        r@ == uppercase_of(s@),
        r@.len() >= s@.len(),
        s@.len() == 0 ==> r@.len() == 0,
        all_ascii(s@) ==> r@ == s@.map_values(|c: char| ascii_upper_char(c)),
{
    s.to_uppercase()
}

/// What `char::is_alphanumeric` answers for `c`.
pub uninterp spec fn alphanumeric(c: char) -> bool;

/// `char::is_alphanumeric`: whether `c` is alphabetic or numeric in Unicode's
/// sense. Its answer is named `alphanumeric`; nothing more is stated of it.
#[verifier::external_body]
pub(crate) fn is_alphanumeric(c: char) -> (r: bool)
    ensures
        r == alphanumeric(c),
{
    c.is_alphanumeric()
}

/// `char::to_ascii_uppercase`: 'a' to 'z' become 'A' to 'Z', every other
/// character stays as it is.
pub fn ascii_uppercase(c: char) -> (r: char)
    ensures
        r == ascii_upper_char(c),
{
    if 'a' <= c && c <= 'z' {
        let b: u8 = (c as u32 - 32) as u8;
        b as char
    } else {
        c
    }
}

// ── Decimal numbers ───────────────────────────────────────────────

pub open spec fn digit_char(d: nat) -> char {
    ((d + 48) as u32) as char
}

/// Decimal digits of `n`, as `format!("{}", n)` writes them.
pub open spec fn nat_to_dec(n: nat) -> Seq<char>
    decreases n,
{
    if n < 10 {
        seq![digit_char(n)]
    } else {
        nat_to_dec(n / 10).push(digit_char(n % 10))
    }
}

/// Decimal rendering of a signed integer, with a leading `-` when negative.
pub open spec fn int_to_dec(n: int) -> Seq<char> {
    if n < 0 {
        seq!['-'] + nat_to_dec((-n) as nat)
    } else {
        nat_to_dec(n as nat)
    }
}

fn digit(d: u64) -> (c: char)
    requires
        d < 10,
    ensures
        c == digit_char(d as nat),
{
    let b: u8 = (d as u8) + 48;
    b as char
}

/// Decimal digits of an unsigned integer.
pub fn u64_to_dec(n: u64) -> (v: Vec<char>)
    ensures
        v@ == nat_to_dec(n as nat),
    decreases n,
{
    if n < 10 {
        let mut v = Vec::new();
        v.push(digit(n));
        proof {
            assert(v@ =~= seq![digit_char(n as nat)]);
        }
        v
    } else {
        let mut v = u64_to_dec(n / 10);
        v.push(digit(n % 10));
        v
    }
}

/// Decimal rendering of a signed integer.
pub fn i64_to_dec(n: i64) -> (v: Vec<char>)
    ensures
        v@ == int_to_dec(n as int),
{
    if n < 0 {
        let m: u64 = if n == i64::MIN {
            9223372036854775808u64
        } else {
            (-n) as u64
        };
        let mut v = Vec::new();
        v.push('-');
        let d = u64_to_dec(m);
        push_all(&mut v, d.as_slice());
        proof {
            assert(v@ =~= seq!['-'] + nat_to_dec((-n) as nat));
        }
        v
    } else {
        u64_to_dec(n as u64)
    }
}

pub open spec fn dec_digit_value(c: char) -> nat {
    ((c as u32) - 48) as nat
}

/// Value of a run of decimal digits.
pub open spec fn dec_value(s: Seq<char>) -> nat
    decreases s.len(),
{
    if s.len() == 0 {
        0
    } else {
        dec_value(s.drop_last()) * 10 + dec_digit_value(s.last())
    }
}

pub open spec fn all_digits(s: Seq<char>) -> bool {
    forall|i: int| 0 <= i < s.len() ==> is_digit(#[trigger] s[i])
}

/// The digits after an optional leading `+`, as integer `FromStr` reads them.
pub open spec fn unsigned_body(s: Seq<char>) -> Seq<char> {
    if s.len() > 0 && s[0] == '+' {
        s.drop_first()
    } else {
        s
    }
}

/// The digits of `n` read back as `n`: they are decimal digits, the first is
/// not a sign, and their value is `n`.
pub proof fn lemma_dec_roundtrip(n: nat)
    ensures
        nat_to_dec(n).len() > 0,
        nat_to_dec(n)[0] != '+',
        all_digits(nat_to_dec(n)),
        dec_value(nat_to_dec(n)) == n,
    decreases n,
{
    if n < 10 {
        let s = nat_to_dec(n);
        assert(s.drop_last() =~= Seq::<char>::empty());
        assert(dec_digit_value(digit_char(n)) == n);
        assert(dec_value(s.drop_last()) == 0);
        assert(s.last() == digit_char(n));
        assert(dec_value(s) == dec_value(s.drop_last()) * 10 + dec_digit_value(s.last()));
    } else {
        let q = n / 10;
        let r = n % 10;
        lemma_dec_roundtrip(q);
        let s = nat_to_dec(n);
        assert(s == nat_to_dec(q).push(digit_char(r)));
        assert(s.drop_last() =~= nat_to_dec(q));
        assert(dec_digit_value(digit_char(r)) == r);
        assert(s.last() == digit_char(r));
        assert(dec_value(s) == dec_value(s.drop_last()) * 10 + dec_digit_value(s.last()));
        assert(q * 10 + r == n) by (nonlinear_arith)
            requires
                q == n / 10,
                r == n % 10,
        ;
        assert forall|i: int| 0 <= i < s.len() implies is_digit(#[trigger] s[i]) by {
            if i < s.len() - 1 {
                assert(s[i] == nat_to_dec(q)[i]);
            }
        }
    }
}

/// A number written in decimal parses back to itself when it fits.
pub proof fn lemma_parse_dec_of_dec(n: nat, max: nat)
    requires
        n <= max,
    ensures
        parse_dec(nat_to_dec(n), max) == Some(n),
{
    lemma_dec_roundtrip(n);
}

/// What `str::parse` gives for an unsigned integer type whose largest value is `max`.
pub open spec fn parse_dec(s: Seq<char>, max: nat) -> Option<nat> {
    let b = unsigned_body(s);
    if b.len() == 0 || !all_digits(b) || dec_value(b) > max {
        None
    } else {
        Some(dec_value(b))
    }
}

/// Parses a decimal number no larger than `max` (the `FromStr` impls of `u8` … `u64`).
pub fn parse_dec_u64(s: &[char], max: u64) -> (r: Option<u64>)
    ensures
        r == (match parse_dec(s@, max as nat) {
            Some(v) => Some(v as u64),
            None => None::<u64>,
        }),
{
    let start: usize = if s.len() > 0 && s[0] == '+' {
        1
    } else {
        0
    };
    let ghost b = unsigned_body(s@);
    proof {
        assert(b =~= s@.skip(start as int));
    }
    if start >= s.len() {
        return None;
    }
    let mut acc: u64 = 0;
    let mut over = false;
    let mut i = start;
    while i < s.len()
        invariant
            start <= i <= s@.len(),
            b == s@.skip(start as int),
            b == unsigned_body(s@),
            all_digits(s@.subrange(start as int, i as int)),
            over ==> dec_value(s@.subrange(start as int, i as int)) > max,
            !over ==> acc == dec_value(s@.subrange(start as int, i as int)),
            acc <= max,
        decreases s@.len() - i,
    {
        let c = s[i];
        if !('0' <= c && c <= '9') {
            proof {
                assert(b[i - start] == c);
                assert(!is_digit(b[i - start]));
                assert(!all_digits(b));
            }
            return None;
        }
        let d: u64 = ((c as u32) - 48) as u64;
        let ghost prev = s@.subrange(start as int, i as int);
        proof {
            assert(s@.subrange(start as int, i + 1) =~= prev.push(c));
            assert(s@.subrange(start as int, i + 1).drop_last() =~= prev);
            assert(dec_value(s@.subrange(start as int, i + 1)) == dec_value(prev) * 10 + d);
        }
        if !over {
            if d > max || acc > (max - d) / 10 {
                over = true;
                proof {
                    if d <= max {
                        assert(acc * 10 + d > max) by (nonlinear_arith)
                            requires
                                acc > (max - d) / 10,
                                d <= max,
                        ;
                    }
                }
            } else {
                proof {
                    assert(acc * 10 + d <= max) by (nonlinear_arith)
                        requires
                            acc <= (max - d) / 10,
                            d <= max,
                    ;
                }
                acc = acc * 10 + d;
            }
        } else {
            proof {
                assert(dec_value(prev) * 10 + d >= dec_value(prev)) by (nonlinear_arith);
            }
        }
        i += 1;
    }
    proof {
        assert(s@.subrange(start as int, i as int) =~= b);
    }
    if over {
        None
    } else {
        Some(acc)
    }
}

// ── Hexadecimal numbers ───────────────────────────────────────────

pub open spec fn is_hex_digit(c: char) -> bool {
    ('0' <= c && c <= '9') || ('a' <= c && c <= 'f') || ('A' <= c && c <= 'F')
}

pub open spec fn hex_digit_value(c: char) -> nat {
    if '0' <= c && c <= '9' {
        ((c as u32) - 48) as nat
    } else if 'a' <= c && c <= 'f' {
        ((c as u32) - 87) as nat
    } else {
        ((c as u32) - 55) as nat
    }
}

pub open spec fn hex_value(s: Seq<char>) -> nat
    decreases s.len(),
{
    if s.len() == 0 {
        0
    } else {
        hex_value(s.drop_last()) * 16 + hex_digit_value(s.last())
    }
}

pub open spec fn all_hex(s: Seq<char>) -> bool {
    forall|i: int| 0 <= i < s.len() ==> is_hex_digit(#[trigger] s[i])
}

/// What `from_str_radix(s, 16)` gives for an unsigned type whose largest value is `max`.
pub open spec fn parse_hex(s: Seq<char>, max: nat) -> Option<nat> {
    let b = unsigned_body(s);
    if b.len() == 0 || !all_hex(b) || hex_value(b) > max {
        None
    } else {
        Some(hex_value(b))
    }
}

/// Parses a hexadecimal number no larger than `max` (`u8/u16/u32::from_str_radix(_, 16)`).
pub fn parse_hex_u64(s: &[char], max: u64) -> (r: Option<u64>)
    ensures
        r == (match parse_hex(s@, max as nat) {
            Some(v) => Some(v as u64),
            None => None::<u64>,
        }),
{
    let start: usize = if s.len() > 0 && s[0] == '+' {
        1
    } else {
        0
    };
    let ghost b = unsigned_body(s@);
    proof {
        assert(b =~= s@.skip(start as int));
    }
    if start >= s.len() {
        return None;
    }
    let mut acc: u64 = 0;
    let mut over = false;
    let mut i = start;
    while i < s.len()
        invariant
            start <= i <= s@.len(),
            b == s@.skip(start as int),
            b == unsigned_body(s@),
            all_hex(s@.subrange(start as int, i as int)),
            over ==> hex_value(s@.subrange(start as int, i as int)) > max,
            !over ==> acc == hex_value(s@.subrange(start as int, i as int)),
            acc <= max,
        decreases s@.len() - i,
    {
        let c = s[i];
        let d: u64 = if '0' <= c && c <= '9' {
            ((c as u32) - 48) as u64
        } else if 'a' <= c && c <= 'f' {
            ((c as u32) - 87) as u64
        } else if 'A' <= c && c <= 'F' {
            ((c as u32) - 55) as u64
        } else {
            proof {
                assert(b[i - start] == c);
                assert(!is_hex_digit(b[i - start]));
                assert(!all_hex(b));
            }
            return None;
        };
        let ghost prev = s@.subrange(start as int, i as int);
        proof {
            assert(s@.subrange(start as int, i + 1) =~= prev.push(c));
            assert(s@.subrange(start as int, i + 1).drop_last() =~= prev);
            assert(hex_value(s@.subrange(start as int, i + 1)) == hex_value(prev) * 16 + d);
        }
        if !over {
            if d > max || acc > (max - d) / 16 {
                over = true;
                proof {
                    if d <= max {
                        assert(acc * 16 + d > max) by (nonlinear_arith)
                            requires
                                acc > (max - d) / 16,
                                d <= max,
                        ;
                    }
                }
            } else {
                proof {
                    assert(acc * 16 + d <= max) by (nonlinear_arith)
                        requires
                            acc <= (max - d) / 16,
                            d <= max,
                    ;
                }
                acc = acc * 16 + d;
            }
        } else {
            proof {
                assert(hex_value(prev) * 16 + d >= hex_value(prev)) by (nonlinear_arith);
            }
        }
        i += 1;
    }
    proof {
        assert(s@.subrange(start as int, i as int) =~= b);
    }
    if over {
        None
    } else {
        Some(acc)
    }
}


// ── UTF-8 byte lengths ────────────────────────────────────────────

/// Number of bytes in the UTF-8 encoding of `c`.
pub open spec fn char_width(c: char) -> nat {
    if has_width_1_encoding(c as u32) {
        1
    } else if has_width_2_encoding(c as u32) {
        2
    } else if has_width_3_encoding(c as u32) {
        3
    } else {
        4
    }
}

/// Number of bytes in the UTF-8 encoding of `s` (what `str::len` reports).
pub open spec fn byte_len(s: Seq<char>) -> nat
    decreases s.len(),
{
    if s.len() == 0 {
        0
    } else {
        char_width(s[0]) + byte_len(s.drop_first())
    }
}

/// Byte offset `b` falls between two characters of `s` (`str::is_char_boundary`).
pub open spec fn is_boundary(s: Seq<char>, b: int) -> bool {
    exists|k: int| 0 <= k <= s.len() && byte_len(#[trigger] s.take(k)) == b
}

/// The character index that sits at byte offset `b` of `s`.
pub open spec fn char_index_at(s: Seq<char>, b: int) -> int {
    choose|k: int| 0 <= k <= s.len() && byte_len(#[trigger] s.take(k)) == b
}

pub proof fn lemma_byte_len_push(s: Seq<char>, c: char)
    ensures
        byte_len(s.push(c)) == byte_len(s) + char_width(c),
    decreases s.len(),
{
    if s.len() == 0 {
        assert(s.push(c).drop_first() =~= Seq::<char>::empty());
        assert(byte_len(s.push(c).drop_first()) == 0);
    } else {
        assert(s.push(c).drop_first() =~= s.drop_first().push(c));
        lemma_byte_len_push(s.drop_first(), c);
    }
}

pub proof fn lemma_byte_len_concat(a: Seq<char>, b: Seq<char>)
    ensures
        byte_len(a + b) == byte_len(a) + byte_len(b),
    decreases a.len(),
{
    if a.len() == 0 {
        assert(a + b =~= b);
    } else {
        assert((a + b).drop_first() =~= a.drop_first() + b);
        lemma_byte_len_concat(a.drop_first(), b);
    }
}

/// Longer prefixes take strictly more bytes.
pub proof fn lemma_byte_len_take_mono(s: Seq<char>, i: int, j: int)
    requires
        0 <= i < j <= s.len(),
    ensures
        byte_len(s.take(i)) < byte_len(s.take(j)),
    decreases j - i,
{
    assert(s.take(i + 1) =~= s.take(i).push(s[i]));
    lemma_byte_len_push(s.take(i), s[i]);
    if i + 1 < j {
        lemma_byte_len_take_mono(s, i + 1, j);
    }
}

/// The boundary index is unique.
pub proof fn lemma_char_index_at(s: Seq<char>, b: int, k: int)
    requires
        0 <= k <= s.len(),
        byte_len(s.take(k)) == b,
    ensures
        is_boundary(s, b),
        char_index_at(s, b) == k,
{
    assert(is_boundary(s, b));
    let k2 = char_index_at(s, b);
    if k2 < k {
        lemma_byte_len_take_mono(s, k2, k);
    } else if k < k2 {
        lemma_byte_len_take_mono(s, k, k2);
    }
}

/// `str::len` is the byte length of the characters.
pub proof fn lemma_encode_len(s: Seq<char>)
    ensures
        encode_utf8(s).len() == byte_len(s),
    decreases s.len(),
{
    if s.len() > 0 {
        lemma_encode_len(s.drop_first());
    }
}

fn width(c: char) -> (w: usize)
    ensures
        w == char_width(c),
{
    let v = c as u32;
    if v <= 0x7F {
        1
    } else if v <= 0x7FF {
        2
    } else if v <= 0xFFFF && !(0xD800 <= v && v <= 0xDFFF) {
        3
    } else {
        4
    }
}

/// Byte length of `s` (`str::len`).
pub fn str_byte_len(s: &str) -> (n: usize)
    ensures
        n == byte_len(s@),
{
    proof {
        lemma_encode_len(s@);
    }
    let b = s.as_bytes();
    b.len()
}

/// Finds the character index at byte offset `b` of `s`, if that offset is a boundary.
pub fn char_index_at_byte(s: &[char], b: usize) -> (r: Option<usize>)
    ensures
        match r {
            Some(k) => k <= s@.len() && byte_len(s@.take(k as int)) == b && is_boundary(s@, b as int)
                && char_index_at(s@, b as int) == k,
            None => !is_boundary(s@, b as int),
        },
{
    let mut k: usize = 0;
    let mut acc: usize = 0;
    proof {
        assert(s@.take(0) =~= Seq::<char>::empty());
    }
    while k < s.len() && acc < b
        invariant
            k <= s@.len(),
            acc == byte_len(s@.take(k as int)),
            acc <= b,
        decreases s@.len() - k,
    {
        let w = width(s[k]);
        proof {
            assert(s@.take(k + 1) =~= s@.take(k as int).push(s@[k as int]));
            lemma_byte_len_push(s@.take(k as int), s@[k as int]);
        }
        if w > b - acc {
            proof {
                assert forall|j: int| 0 <= j <= s@.len() implies byte_len(#[trigger] s@.take(j))
                    != b by {
                    if j <= k {
                        if j < k {
                            lemma_byte_len_take_mono(s@, j, k as int);
                        }
                    } else {
                        if j > k + 1 {
                            lemma_byte_len_take_mono(s@, k + 1, j);
                        }
                    }
                }
            }
            return None;
        }
        acc = acc + w;
        k += 1;
    }
    if acc == b {
        proof {
            lemma_char_index_at(s@, b as int, k as int);
        }
        Some(k)
    } else {
        proof {
            assert forall|j: int| 0 <= j <= s@.len() implies byte_len(#[trigger] s@.take(j)) != b by {
                if j < k {
                    lemma_byte_len_take_mono(s@, j, k as int);
                } else if j > k {
                    assert(k == s@.len());
                }
            }
        }
        None
    }
}

/// Whether `s` takes exactly `n` bytes in UTF-8.
pub fn byte_len_eq(s: &[char], n: usize) -> (r: bool)
    ensures
        r == (byte_len(s@) == n),
{
    proof {
        assert(s@.take(s@.len() as int) =~= s@);
    }
    match char_index_at_byte(s, n) {
        Some(k) => {
            proof {
                if k < s@.len() {
                    lemma_byte_len_take_mono(s@, k as int, s@.len() as int);
                }
            }
            k == s.len()
        },
        None => false,
    }
}

/// The first `n` characters of `s` (`s.chars().take(n)`).
pub open spec fn take_chars(s: Seq<char>, n: int) -> Seq<char> {
    if s.len() <= n {
        s
    } else {
        s.take(n)
    }
}

pub fn prefix_chars(s: &[char], n: usize) -> (r: Vec<char>)
    ensures
        r@ == take_chars(s@, n as int),
{
    if s.len() <= n {
        copy_chars(s)
    } else {
        let r = sub_chars(s, 0, n);
        proof {
            assert(r@ =~= s@.take(n as int));
        }
        r
    }
}

} // verus!
