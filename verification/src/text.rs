//! Character-level text handling shared by the dictionary scraper, the cache and
//! the renderer: whitespace, trimming, joining, splitting and decimal digits.
use vstd::prelude::*;

verus! {

/// The characters that `char::is_whitespace` accepts (Unicode `White_Space`).
pub open spec fn is_whitespace(c: char) -> bool {
    ||| c == '\t' || c == '\n' || c == '\u{0B}' || c == '\u{0C}' || c == '\r' || c == ' '
    ||| c == '\u{85}' || c == '\u{A0}' || c == '\u{1680}'
    ||| ('\u{2000}' <= c && c <= '\u{200A}')
    ||| c == '\u{2028}' || c == '\u{2029}' || c == '\u{202F}' || c == '\u{205F}'
    ||| c == '\u{3000}'
}

/// Whether `c` is whitespace.
pub fn is_ws(c: char) -> (r: bool)
    ensures
        r == is_whitespace(c),
{
    c == '\t' || c == '\n' || c == '\u{0B}' || c == '\u{0C}' || c == '\r' || c == ' ' || c
        == '\u{85}' || c == '\u{A0}' || c == '\u{1680}' || ('\u{2000}' <= c && c <= '\u{200A}')
        || c == '\u{2028}' || c == '\u{2029}' || c == '\u{202F}' || c == '\u{205F}' || c
        == '\u{3000}'
}

/// `s` without its leading whitespace.
pub open spec fn trim_start(s: Seq<char>) -> Seq<char>
    decreases s.len(),
{
    if s.len() > 0 && is_whitespace(s[0]) {
        trim_start(s.drop_first())
    } else {
        s
    }
}

/// `s` without its trailing whitespace.
pub open spec fn trim_end(s: Seq<char>) -> Seq<char>
    decreases s.len(),
{
    if s.len() > 0 && is_whitespace(s.last()) {
        trim_end(s.drop_last())
    } else {
        s
    }
}

/// `s` without leading and trailing whitespace, as `str::trim` returns it.
pub open spec fn trim(s: Seq<char>) -> Seq<char> {
    trim_end(trim_start(s))
}

/// The parts joined with `sep` between neighbours, as `[String]::join` builds it.
pub open spec fn join(parts: Seq<Seq<char>>, sep: Seq<char>) -> Seq<char>
    decreases parts.len(),
{
    if parts.len() == 0 {
        Seq::empty()
    } else if parts.len() == 1 {
        parts[0]
    } else {
        join(parts.drop_last(), sep) + sep + parts.last()
    }
}

/// The parts written one after another.
pub open spec fn concat(parts: Seq<Seq<char>>) -> Seq<char> {
    join(parts, Seq::empty())
}

/// The trimmed texts that are not blank, in order (`filter_map(trim_str)`).
pub open spec fn trimmed_nonempty(texts: Seq<Seq<char>>) -> Seq<Seq<char>>
    decreases texts.len(),
{
    if texts.len() == 0 {
        Seq::empty()
    } else {
        let rest = trimmed_nonempty(texts.drop_last());
        if trim(texts.last()).len() > 0 {
            rest.push(trim(texts.last()))
        } else {
            rest
        }
    }
}

/// The pieces of `s` between occurrences of `sep` (`str::split` on one char):
/// always at least one piece.
pub open spec fn split_on(s: Seq<char>, sep: char) -> Seq<Seq<char>>
    decreases s.len(),
{
    if s.len() == 0 {
        seq![Seq::empty()]
    } else {
        let rest = split_on(s.drop_last(), sep);
        if s.last() == sep {
            rest.push(Seq::empty())
        } else {
            rest.update(rest.len() - 1, rest.last().push(s.last()))
        }
    }
}

/// The maximal runs of non-whitespace characters of `s` (`str::split_whitespace`).
pub open spec fn words(s: Seq<char>) -> Seq<Seq<char>>
    decreases s.len(),
{
    if s.len() == 0 {
        Seq::empty()
    } else {
        let rest = words(s.drop_last());
        let c = s.last();
        if is_whitespace(c) {
            rest
        } else if s.len() >= 2 && !is_whitespace(s[s.len() - 2]) {
            rest.update(rest.len() - 1, rest.last().push(c))
        } else {
            rest.push(seq![c])
        }
    }
}

/// The words of `s` joined by single spaces.
pub open spec fn collapse_whitespace(s: Seq<char>) -> Seq<char> {
    join(words(s), seq![' '])
}

/// The decimal digit for `d < 10`.
pub open spec fn digit_char(d: nat) -> char {
    (48 + d) as char
}

/// The decimal representation of `n`, without leading zeros.
pub open spec fn decimal(n: nat) -> Seq<char>
    decreases n,
{
    if n < 10 {
        seq![digit_char(n)]
    } else {
        decimal(n / 10).push(digit_char(n % 10))
    }
}

/// `n` space characters.
pub open spec fn spaces(n: nat) -> Seq<char> {
    Seq::new(n, |i: int| ' ')
}

/// Calls `String::push`. Claims that the string gains `c` at its end and is otherwise
/// unchanged.
#[verifier::external_body]
pub(crate) fn push_char(s: &mut String, c: char)
    ensures
        final(s)@ == old(s)@.push(c),
{
    s.push(c)
}

/// Appends a string to a list of strings.
pub fn push_string(v: &mut Vec<String>, s: String)
    ensures
        final(v).deep_view() == old(v).deep_view().push(s@),
{
    let ghost before = v.deep_view();
    let ghost sv = s@;
    v.push(s);
    assert(v.deep_view()[before.len() as int] == sv);
    assert(v.deep_view() =~= before.push(sv));
}

/// The characters of `s`, in order.
pub fn chars_of(s: &str) -> (r: Vec<char>)
    ensures
        r@ == s@,
{
    let n = s.unicode_len();
    let mut r: Vec<char> = Vec::new();
    let mut i: usize = 0;
    while i < n
        invariant
            n == s@.len(),
            i <= n,
            r@ == s@.subrange(0, i as int),
        decreases n - i,
    {
        r.push(s.get_char(i));
        i = i + 1;
    }
    r
}

/// The string made of `cs[lo..hi]`.
pub fn string_of(cs: &Vec<char>, lo: usize, hi: usize) -> (r: String)
    requires
        lo <= hi <= cs@.len(),
    ensures
        r@ == cs@.subrange(lo as int, hi as int),
{
    let mut r = String::new();
    let mut i: usize = lo;
    while i < hi
        invariant
            lo <= i <= hi,
            hi <= cs@.len(),
            r@ == cs@.subrange(lo as int, i as int),
        decreases hi - i,
    {
        push_char(&mut r, cs[i]);
        i = i + 1;
    }
    r
}

/// Whether two strings hold the same characters.
pub fn str_eq(a: &str, b: &str) -> (r: bool)
    ensures
        r == (a@ == b@),
{
    let ca = chars_of(a);
    let cb = chars_of(b);
    if ca.len() != cb.len() {
        return false;
    }
    let mut i: usize = 0;
    while i < ca.len()
        invariant
            ca@ == a@,
            cb@ == b@,
            ca@.len() == cb@.len(),
            i <= ca@.len(),
            forall|j: int| 0 <= j < i ==> ca@[j] == cb@[j],
        decreases ca@.len() - i,
    {
        if ca[i] != cb[i] {
            return false;
        }
        i = i + 1;
    }
    assert(a@ =~= b@);
    true
}

/// `s` trimmed, as `str::trim` does.
pub fn trim_string(s: &str) -> (r: String)
    ensures
        r@ == trim(s@),
{
    let cs = chars_of(s);
    let n = cs.len();
    let mut lo: usize = 0;
    assert(cs@.subrange(0, n as int) =~= cs@);
    while lo < n && is_ws(cs[lo])
        invariant
            cs@ == s@,
            n == cs@.len(),
            lo <= n,
            trim_start(s@) == trim_start(cs@.subrange(lo as int, n as int)),
        decreases n - lo,
    {
        assert(cs@.subrange(lo as int, n as int).drop_first() =~= cs@.subrange(
            lo + 1,
            n as int,
        ));
        lo = lo + 1;
    }
    assert(trim_start(s@) == cs@.subrange(lo as int, n as int));
    let mut hi: usize = n;
    while hi > lo && is_ws(cs[hi - 1])
        invariant
            cs@ == s@,
            n == cs@.len(),
            lo <= hi <= n,
            trim(s@) == trim_end(cs@.subrange(lo as int, hi as int)),
        decreases hi - lo,
    {
        assert(cs@.subrange(lo as int, hi as int).drop_last() =~= cs@.subrange(
            lo as int,
            hi - 1,
        ));
        hi = hi - 1;
    }
    assert(trim(s@) == cs@.subrange(lo as int, hi as int));
    string_of(&cs, lo, hi)
}

/// `t` trimmed, or `None` where nothing but whitespace is left.
pub fn trim_str(t: &str) -> (r: Option<String>)
    ensures
        r is None <==> trim(t@).len() == 0,
        r matches Some(s) ==> s@ == trim(t@),
{
    let s = trim_string(t);
    if s.unicode_len() == 0 {
        None
    } else {
        Some(s)
    }
}

/// The trimmed texts that are not blank, in order.
pub fn trim_all(texts: &Vec<String>) -> (r: Vec<String>)
    ensures
        r.deep_view() == trimmed_nonempty(texts.deep_view()),
{
    let mut r: Vec<String> = Vec::new();
    let mut i: usize = 0;
    while i < texts.len()
        invariant
            i <= texts@.len(),
            r.deep_view() == trimmed_nonempty(texts.deep_view().take(i as int)),
        decreases texts@.len() - i,
    {
        assert(texts.deep_view().take(i + 1).drop_last() =~= texts.deep_view().take(i as int));
        assert(texts.deep_view().take(i + 1).last() == texts[i as int]@);
        match trim_str(texts[i].as_str()) {
            Some(t) => {
                r.push(t);
                assert(r.deep_view() =~= trimmed_nonempty(texts.deep_view().take(i + 1)));
            },
            None => {},
        }
        i = i + 1;
    }
    assert(texts.deep_view().take(texts@.len() as int) =~= texts.deep_view());
    r
}

/// The parts joined with `sep`.
pub fn join_strings(parts: &Vec<String>, sep: &str) -> (r: String)
    ensures
        r@ == join(parts.deep_view(), sep@),
{
    let mut r = String::new();
    let mut i: usize = 0;
    while i < parts.len()
        invariant
            i <= parts@.len(),
            r@ == join(parts.deep_view().take(i as int), sep@),
        decreases parts@.len() - i,
    {
        assert(parts.deep_view().take(i + 1).drop_last() =~= parts.deep_view().take(i as int));
        if i != 0 {
            r.append(sep);
        }
        r.append(parts[i].as_str());
        i = i + 1;
    }
    assert(parts.deep_view().take(parts@.len() as int) =~= parts.deep_view());
    r
}

/// The pieces of `s` between newlines.
pub fn split_lines(s: &str) -> (r: Vec<String>)
    ensures
        r.deep_view() == split_on(s@, '\n'),
{
    let cs = chars_of(s);
    let mut r: Vec<String> = Vec::new();
    let mut cur = String::new();
    let mut i: usize = 0;
    assert(split_on(cs@.take(0), '\n') =~= seq![Seq::<char>::empty()]);
    while i < cs.len()
        invariant
            cs@ == s@,
            i <= cs@.len(),
            r.deep_view().push(cur@) == split_on(cs@.take(i as int), '\n'),
        decreases cs@.len() - i,
    {
        assert(cs@.take(i + 1).drop_last() =~= cs@.take(i as int));
        let ghost before = r.deep_view().push(cur@);
        if cs[i] == '\n' {
            let done = cur;
            r.push(done);
            cur = String::new();
            assert(r.deep_view().push(cur@) =~= before.push(Seq::empty()));
        } else {
            push_char(&mut cur, cs[i]);
            assert(r.deep_view().push(cur@) =~= before.update(
                before.len() - 1,
                before.last().push(cs@[i as int]),
            ));
        }
        i = i + 1;
    }
    assert(cs@.take(cs@.len() as int) =~= cs@);
    r.push(cur);
    r
}

proof fn lemma_words_nonempty(s: Seq<char>)
    requires
        s.len() > 0,
        !is_whitespace(s.last()),
    ensures
        words(s).len() > 0,
    decreases s.len(),
{
    if s.len() >= 2 && !is_whitespace(s[s.len() - 2]) {
        lemma_words_nonempty(s.drop_last());
    }
}

/// Text without whitespace at its ends, whose only whitespace is single spaces between
/// non-whitespace characters.
pub open spec fn single_spaced(t: Seq<char>) -> bool {
    &&& t.len() > 0 ==> !is_whitespace(t[0]) && !is_whitespace(t.last())
    &&& forall|i: int|
        0 <= i < t.len() && is_whitespace(#[trigger] t[i]) ==> t[i] == ' ' && 0 < i && i + 1
            < t.len() && !is_whitespace(t[i + 1])
}

/// A word: non-empty, without whitespace.
pub open spec fn is_word(w: Seq<char>) -> bool {
    w.len() > 0 && forall|j: int| 0 <= j < w.len() ==> !is_whitespace(#[trigger] w[j])
}

proof fn lemma_words_are_words(s: Seq<char>)
    ensures
        forall|k: int| 0 <= k < words(s).len() ==> is_word(#[trigger] words(s)[k]),
    decreases s.len(),
{
    if s.len() > 0 {
        lemma_words_are_words(s.drop_last());
        let rest = words(s.drop_last());
        let c = s.last();
        if !is_whitespace(c) && s.len() >= 2 && !is_whitespace(s[s.len() - 2]) {
            assert(s.drop_last().last() == s[s.len() - 2]);
            lemma_words_nonempty(s.drop_last());
            let w = rest.last().push(c);
            assert(is_word(rest[rest.len() - 1]));
            assert forall|j: int| 0 <= j < w.len() implies !is_whitespace(#[trigger] w[j]) by {
                if j < w.len() - 1 {
                    assert(w[j] == rest[rest.len() - 1][j]);
                }
            }
        } else if !is_whitespace(c) {
            assert(is_word(seq![c]));
        }
    }
}

proof fn lemma_join_words_single_spaced(parts: Seq<Seq<char>>)
    requires
        forall|k: int| 0 <= k < parts.len() ==> is_word(#[trigger] parts[k]),
    ensures
        single_spaced(join(parts, seq![' '])),
        parts.len() > 0 ==> join(parts, seq![' ']).len() > 0,
    decreases parts.len(),
{
    if parts.len() == 1 {
        assert(is_word(parts[0]));
    } else if parts.len() > 1 {
        let front = parts.drop_last();
        assert forall|k: int| 0 <= k < front.len() implies is_word(#[trigger] front[k]) by {
            assert(front[k] == parts[k]);
        }
        lemma_join_words_single_spaced(front);
        let j = join(front, seq![' ']);
        let w = parts.last();
        assert(is_word(parts[parts.len() - 1]));
        let t = join(parts, seq![' ']);
        assert(t == j + seq![' '] + w);
        assert forall|i: int| 0 <= i < t.len() && is_whitespace(#[trigger] t[i]) implies t[i]
            == ' ' && 0 < i && i + 1 < t.len() && !is_whitespace(t[i + 1]) by {
            if i < j.len() {
                assert(t[i] == j[i]);
                assert(t[i + 1] == j[i + 1]);
            } else if i == j.len() {
                assert(t[i + 1] == w[0]);
            } else {
                assert(t[i] == w[i - j.len() - 1]);
            }
        }
        assert(t[0] == j[0]);
        assert(t.last() == w.last());
        assert(!is_whitespace(w[w.len() - 1]));
    }
}

/// Collapsing whitespace leaves no whitespace at the ends and only single spaces
/// between words.
pub proof fn lemma_collapsed_is_single_spaced(s: Seq<char>)
    ensures
        single_spaced(collapse_whitespace(s)),
{
    lemma_words_are_words(s);
    lemma_join_words_single_spaced(words(s));
}

/// The non-whitespace characters of `s`, in order.
pub open spec fn strip_whitespace(s: Seq<char>) -> Seq<char>
    decreases s.len(),
{
    if s.len() == 0 {
        Seq::empty()
    } else if is_whitespace(s.last()) {
        strip_whitespace(s.drop_last())
    } else {
        strip_whitespace(s.drop_last()).push(s.last())
    }
}

proof fn lemma_strip_concat(a: Seq<char>, b: Seq<char>)
    ensures
        strip_whitespace(a + b) == strip_whitespace(a) + strip_whitespace(b),
    decreases b.len(),
{
    if b.len() == 0 {
        assert(a + b =~= a);
        assert(strip_whitespace(a) + Seq::<char>::empty() =~= strip_whitespace(a));
    } else {
        lemma_strip_concat(a, b.drop_last());
        assert((a + b).drop_last() =~= a + b.drop_last());
        assert((a + b).last() == b.last());
        if !is_whitespace(b.last()) {
            assert((strip_whitespace(a) + strip_whitespace(b.drop_last())).push(b.last())
                =~= strip_whitespace(a) + strip_whitespace(b.drop_last()).push(b.last()));
        }
    }
}

proof fn lemma_strip_word(w: Seq<char>)
    requires
        forall|j: int| 0 <= j < w.len() ==> !is_whitespace(#[trigger] w[j]),
    ensures
        strip_whitespace(w) == w,
    decreases w.len(),
{
    if w.len() > 0 {
        assert forall|j: int| 0 <= j < w.drop_last().len() implies !is_whitespace(
            #[trigger] w.drop_last()[j],
        ) by {
            assert(w.drop_last()[j] == w[j]);
        }
        lemma_strip_word(w.drop_last());
        assert(!is_whitespace(w[w.len() - 1]));
        assert(w.drop_last().push(w.last()) =~= w);
    }
}

proof fn lemma_words_concat(s: Seq<char>)
    ensures
        concat(words(s)) == strip_whitespace(s),
    decreases s.len(),
{
    if s.len() > 0 {
        lemma_words_concat(s.drop_last());
        let rest = words(s.drop_last());
        let c = s.last();
        if is_whitespace(c) {
        } else if s.len() >= 2 && !is_whitespace(s[s.len() - 2]) {
            assert(s.drop_last().last() == s[s.len() - 2]);
            lemma_words_nonempty(s.drop_last());
            lemma_join_extend_last(rest, c, Seq::empty());
        } else if rest.len() == 0 {
            assert(rest.push(seq![c]) =~= seq![seq![c]]);
            assert(strip_whitespace(s.drop_last()) == concat(rest));
            assert(concat(rest) =~= Seq::<char>::empty());
            assert(Seq::<char>::empty().push(c) =~= seq![c]);
        } else {
            lemma_join_push(rest, seq![c], Seq::empty());
            assert(concat(rest) + Seq::<char>::empty() + seq![c] =~= concat(rest).push(c));
        }
    }
}

proof fn lemma_strip_join_words(parts: Seq<Seq<char>>)
    requires
        forall|k: int| 0 <= k < parts.len() ==> is_word(#[trigger] parts[k]),
    ensures
        strip_whitespace(join(parts, seq![' '])) == concat(parts),
    decreases parts.len(),
{
    if parts.len() == 1 {
        assert(is_word(parts[0]));
        lemma_strip_word(parts[0]);
    } else if parts.len() > 1 {
        let front = parts.drop_last();
        assert forall|k: int| 0 <= k < front.len() implies is_word(#[trigger] front[k]) by {
            assert(front[k] == parts[k]);
        }
        lemma_strip_join_words(front);
        let w = parts.last();
        assert(is_word(parts[parts.len() - 1]));
        lemma_strip_word(w);
        let j = join(front, seq![' ']);
        lemma_strip_concat(j + seq![' '], w);
        lemma_strip_concat(j, seq![' ']);
        assert(seq![' '].drop_last() =~= Seq::<char>::empty());
        assert(seq![' '].last() == ' ');
        assert(is_whitespace(' '));
        assert(strip_whitespace(Seq::<char>::empty()) == Seq::<char>::empty());
        assert(strip_whitespace(seq![' ']) == Seq::<char>::empty());
        assert(strip_whitespace(j) + Seq::<char>::empty() =~= strip_whitespace(j));
        assert(concat(parts) == concat(front) + Seq::<char>::empty() + w);
        assert(concat(front) + Seq::<char>::empty() + w =~= concat(front) + w);
    }
}

/// Collapsing keeps every non-whitespace character of the text, in order: it changes
/// whitespace only.
pub proof fn lemma_collapse_keeps_text(s: Seq<char>)
    ensures
        strip_whitespace(collapse_whitespace(s)) == strip_whitespace(s),
{
    lemma_words_are_words(s);
    lemma_strip_join_words(words(s));
    lemma_words_concat(s);
}

/// Joining puts the separator between neighbours only: one part joins to itself, and
/// one more part adds the separator and that part.
pub proof fn lemma_join_push(parts: Seq<Seq<char>>, x: Seq<char>, sep: Seq<char>)
    ensures
        join(seq![x], sep) == x,
        parts.len() > 0 ==> join(parts.push(x), sep) == join(parts, sep) + sep + x,
{
    assert(parts.push(x).drop_last() =~= parts);
}

proof fn lemma_join_extend_last(parts: Seq<Seq<char>>, c: char, sep: Seq<char>)
    requires
        parts.len() > 0,
    ensures
        join(parts.update(parts.len() - 1, parts.last().push(c)), sep) == join(parts, sep).push(c),
{
    let upd = parts.update(parts.len() - 1, parts.last().push(c));
    if parts.len() == 1 {
    } else {
        assert(upd.drop_last() =~= parts.drop_last());
        assert((join(parts.drop_last(), sep) + sep + parts.last()).push(c) =~= join(
            parts.drop_last(),
            sep,
        ) + sep + parts.last().push(c));
    }
}

proof fn lemma_trim_start_cut(s: Seq<char>) -> (lo: int)
    ensures
        0 <= lo <= s.len(),
        trim_start(s) == s.subrange(lo, s.len() as int),
        forall|i: int| 0 <= i < lo ==> is_whitespace(#[trigger] s[i]),
        lo < s.len() ==> !is_whitespace(s[lo]),
    decreases s.len(),
{
    if s.len() > 0 && is_whitespace(s[0]) {
        let rest = s.drop_first();
        let k = lemma_trim_start_cut(rest);
        assert forall|i: int| 0 <= i < k + 1 implies is_whitespace(#[trigger] s[i]) by {
            if i > 0 {
                assert(s[i] == rest[i - 1]);
            }
        }
        assert(rest.subrange(k, rest.len() as int) =~= s.subrange(k + 1, s.len() as int));
        if k + 1 < s.len() {
            assert(s[k + 1] == rest[k]);
        }
        k + 1
    } else {
        assert(s.subrange(0, s.len() as int) =~= s);
        0
    }
}

proof fn lemma_trim_end_cut(s: Seq<char>) -> (hi: int)
    ensures
        0 <= hi <= s.len(),
        trim_end(s) == s.subrange(0, hi),
        forall|i: int| hi <= i < s.len() ==> is_whitespace(#[trigger] s[i]),
        hi > 0 ==> !is_whitespace(s[hi - 1]),
    decreases s.len(),
{
    if s.len() > 0 && is_whitespace(s.last()) {
        let init = s.drop_last();
        let k = lemma_trim_end_cut(init);
        assert forall|i: int| k <= i < s.len() implies is_whitespace(#[trigger] s[i]) by {
            if i < s.len() - 1 {
                assert(s[i] == init[i]);
            }
        }
        assert(init.subrange(0, k) =~= s.subrange(0, k));
        if k > 0 {
            assert(s[k - 1] == init[k - 1]);
        }
        k
    } else {
        assert(s.subrange(0, s.len() as int) =~= s);
        s.len() as int
    }
}

/// Trimming removes whitespace at the two ends and nothing else: what is left is a
/// contiguous part of `s`, everything cut off before and after it is whitespace, and
/// it neither starts nor ends with whitespace.
pub proof fn lemma_trim_strips_ends(s: Seq<char>)
    ensures
        exists|lo: int, hi: int|
            #![trigger s.subrange(lo, hi)]
            0 <= lo <= hi <= s.len() && trim(s) == s.subrange(lo, hi) && (forall|i: int|
                0 <= i < lo ==> is_whitespace(#[trigger] s[i])) && (forall|i: int|
                hi <= i < s.len() ==> is_whitespace(#[trigger] s[i])),
        trim(s).len() > 0 ==> !is_whitespace(trim(s)[0]) && !is_whitespace(trim(s).last()),
{
    let lo = lemma_trim_start_cut(s);
    let mid = s.subrange(lo, s.len() as int);
    let k = lemma_trim_end_cut(mid);
    let hi = lo + k;
    assert(mid.subrange(0, k) =~= s.subrange(lo, hi));
    assert forall|i: int| hi <= i < s.len() implies is_whitespace(#[trigger] s[i]) by {
        assert(s[i] == mid[i - lo]);
    }
    if k > 0 {
        assert(trim(s)[0] == mid[0]);
        assert(mid[0] == s[lo]);
        assert(trim(s).last() == mid[k - 1]);
    }
    assert(0 <= lo <= hi <= s.len() && trim(s) == s.subrange(lo, hi));
}

/// The trimmed non-blank texts of `a ++ b` are those of `a` followed by those of `b`.
pub proof fn lemma_trimmed_nonempty_append(a: Seq<Seq<char>>, b: Seq<Seq<char>>)
    ensures
        trimmed_nonempty(a + b) == trimmed_nonempty(a) + trimmed_nonempty(b),
    decreases b.len(),
{
    if b.len() == 0 {
        assert(a + b =~= a);
        assert(trimmed_nonempty(a) + trimmed_nonempty(b) =~= trimmed_nonempty(a));
    } else {
        lemma_trimmed_nonempty_append(a, b.drop_last());
        assert((a + b).drop_last() =~= a + b.drop_last());
        assert((a + b).last() == b.last());
        let t = trim(b.last());
        assert((trimmed_nonempty(a) + trimmed_nonempty(b.drop_last())).push(t) =~= trimmed_nonempty(
            a,
        ) + trimmed_nonempty(b.drop_last()).push(t));
    }
}

/// One text is kept, trimmed, unless it is blank.
pub proof fn lemma_trimmed_nonempty_single(t: Seq<char>)
    ensures
        trimmed_nonempty(seq![t]) == (if trim(t).len() > 0 {
            seq![trim(t)]
        } else {
            Seq::<Seq<char>>::empty()
        }),
{
    let one = seq![t];
    assert(one.drop_last() =~= Seq::<Seq<char>>::empty());
    assert(trimmed_nonempty(one.drop_last()) == Seq::<Seq<char>>::empty());
    assert(one.last() == t);
    assert(Seq::<Seq<char>>::empty().push(trim(t)) =~= seq![trim(t)]);
}

/// Splitting loses nothing and finds every separator: the pieces joined with the
/// separator give `s` back, there is at least one piece, and no piece holds the
/// separator.
pub proof fn lemma_split_on_joins_back(s: Seq<char>, sep: char)
    ensures
        split_on(s, sep).len() >= 1,
        join(split_on(s, sep), seq![sep]) == s,
        forall|k: int, j: int|
            0 <= k < split_on(s, sep).len() && 0 <= j < split_on(s, sep)[k].len() ==> #[trigger] split_on(
                s,
                sep,
            )[k][j] != sep,
    decreases s.len(),
{
    if s.len() == 0 {
        assert(split_on(s, sep) =~= seq![Seq::<char>::empty()]);
        assert(join(seq![Seq::<char>::empty()], seq![sep]) =~= s);
    } else {
        let init = s.drop_last();
        let c = s.last();
        lemma_split_on_joins_back(init, sep);
        let rest = split_on(init, sep);
        let r = split_on(s, sep);
        if c == sep {
            lemma_join_push(rest, Seq::empty(), seq![sep]);
            assert(init + seq![sep] + Seq::<char>::empty() =~= s);
            assert forall|k: int, j: int| 0 <= k < r.len() && 0 <= j < r[k].len() implies #[trigger] r[k][j]
                != sep by {
                assert(k < rest.len());
                assert(r[k] == rest[k]);
            }
        } else {
            lemma_join_extend_last(rest, c, seq![sep]);
            assert(init.push(c) =~= s);
            assert forall|k: int, j: int| 0 <= k < r.len() && 0 <= j < r[k].len() implies #[trigger] r[k][j]
                != sep by {
                if k < rest.len() - 1 {
                    assert(r[k] == rest[k]);
                } else {
                    assert(r[k] == rest.last().push(c));
                    if j < rest.last().len() {
                        assert(r[k][j] == rest[rest.len() - 1][j]);
                    }
                }
            }
        }
    }
}

/// The numeric value of a string of decimal digits.
pub open spec fn digits_value(d: Seq<char>) -> int
    decreases d.len(),
{
    if d.len() == 0 {
        0
    } else {
        digits_value(d.drop_last()) * 10 + (d.last() as int - 48)
    }
}

/// The decimal representation of `n` is made of digits only, has no leading zero, and
/// reads back as `n`.
pub proof fn lemma_decimal_reads_back(n: nat)
    ensures
        decimal(n).len() > 0,
        forall|i: int| 0 <= i < decimal(n).len() ==> '0' <= #[trigger] decimal(n)[i] <= '9',
        decimal(n).len() > 1 ==> decimal(n)[0] != '0',
        digits_value(decimal(n)) == n,
    decreases n,
{
    if n < 10 {
        assert(decimal(n) == seq![digit_char(n)]);
        assert(decimal(n).drop_last() =~= Seq::<char>::empty());
        assert(digits_value(decimal(n).drop_last()) == 0);
        assert((digit_char(n) as int) == 48 + n);
        assert(decimal(n).last() == digit_char(n));
    } else {
        let q = n / 10;
        lemma_decimal_reads_back(q);
        let d = decimal(n);
        assert(d == decimal(q).push(digit_char(n % 10)));
        assert(d.drop_last() =~= decimal(q));
        assert((digit_char(n % 10) as int) == 48 + n % 10);
        vstd::arithmetic::div_mod::lemma_fundamental_div_mod(n as int, 10);
        assert(digits_value(d.drop_last()) == q);
        assert(d.last() == digit_char(n % 10));
        assert(digits_value(d) == q * 10 + n % 10);
        assert forall|i: int| 0 <= i < d.len() implies '0' <= #[trigger] d[i] <= '9' by {
            if i < d.len() - 1 {
                assert(d[i] == decimal(q)[i]);
            }
        }
        if decimal(q).len() == 1 {
            assert(q < 10) by {
                if q >= 10 {
                    assert(decimal(q) == decimal(q / 10).push(digit_char(q % 10)));
                    lemma_decimal_reads_back(q / 10);
                }
            }
            assert(q > 0);
            assert(d[0] == digit_char(q));
            assert((digit_char(q) as int) == 48 + q);
        } else {
            assert(d[0] == decimal(q)[0]);
        }
    }
}

/// The words of `s` joined by single spaces (`split_whitespace` then `join(" ")`).
pub fn collapse_ws(s: &str) -> (r: String)
    ensures
        r@ == collapse_whitespace(s@),
{
    let cs = chars_of(s);
    let mut r = String::new();
    let mut i: usize = 0;
    while i < cs.len()
        invariant
            cs@ == s@,
            i <= cs@.len(),
            r@ == join(words(cs@.take(i as int)), seq![' ']),
            (words(cs@.take(i as int)).len() == 0) <==> (r@.len() == 0),
        decreases cs@.len() - i,
    {
        let ghost pre = cs@.take(i as int);
        let ghost cur = cs@.take(i + 1);
        assert(cur.drop_last() =~= pre);
        let c = cs[i];
        if is_ws(c) {
        } else if i >= 1 && !is_ws(cs[i - 1]) {
            assert(cur[cur.len() - 2] == cs@[i - 1]);
            assert(pre.last() == cs@[i - 1]);
            proof {
                lemma_words_nonempty(pre);
                lemma_join_extend_last(words(pre), c, seq![' ']);
            }
            push_char(&mut r, c);
        } else {
            if r.unicode_len() == 0 {
                assert(words(pre).len() == 0);
                assert(words(cur) =~= seq![seq![c]]);
                push_char(&mut r, c);
                assert(r@ =~= seq![c]);
            } else {
                proof {
                    lemma_join_push(words(pre), seq![c], seq![' ']);
                }
                push_char(&mut r, ' ');
                push_char(&mut r, c);
                assert(r@ =~= join(words(pre), seq![' ']) + seq![' '] + seq![c]);
            }
        }
        proof {
            if words(cur).len() == 0 {
                assert(words(pre).len() == 0);
            }
        }
        i = i + 1;
    }
    assert(cs@.take(cs@.len() as int) =~= cs@);
    r
}

/// The decimal representation of `n`.
pub fn decimal_string(n: usize) -> (r: String)
    ensures
        r@ == decimal(n as nat),
    decreases n,
{
    if n < 10 {
        let mut r = String::new();
        push_char(&mut r, ((n as u8) + 48) as char);
        assert(r@ =~= seq![digit_char(n as nat)]);
        r
    } else {
        let mut r = decimal_string(n / 10);
        push_char(&mut r, (((n % 10) as u8) + 48) as char);
        r
    }
}

/// A string of `n` spaces.
pub fn spaces_string(n: usize) -> (r: String)
    ensures
        r@ == spaces(n as nat),
{
    let mut r = String::new();
    let mut i: usize = 0;
    while i < n
        invariant
            i <= n,
            r@ =~= spaces(i as nat),
        decreases n - i,
    {
        push_char(&mut r, ' ');
        i = i + 1;
    }
    r
}

} // verus!
