use vstd::prelude::*;

verus! {

// ---------------------------------------------------------------------------
// Characters
// ---------------------------------------------------------------------------

/// The Unicode `White_Space` characters, as `char::is_whitespace` knows them.
pub open spec fn is_space(c: char) -> bool {
    ('\u{9}' <= c && c <= '\u{d}') || c == ' ' || c == '\u{85}' || c == '\u{a0}' || c
        == '\u{1680}' || ('\u{2000}' <= c && c <= '\u{200a}') || c == '\u{2028}' || c == '\u{2029}'
        || c == '\u{202f}' || c == '\u{205f}' || c == '\u{3000}'
}

fn space_char(c: char) -> (r: bool)
    ensures
        r == is_space(c),
{
    ('\u{9}' <= c && c <= '\u{d}') || c == ' ' || c == '\u{85}' || c == '\u{a0}' || c
        == '\u{1680}' || ('\u{2000}' <= c && c <= '\u{200a}') || c == '\u{2028}' || c == '\u{2029}'
        || c == '\u{202f}' || c == '\u{205f}' || c == '\u{3000}'
}

pub open spec fn ascii_lower(c: char) -> char {
    if 'A' <= c && c <= 'Z' {
        ((c as u32) + 32) as char
    } else {
        c
    }
}

pub open spec fn is_ascii_alnum(c: char) -> bool {
    ('a' <= c && c <= 'z') || ('A' <= c && c <= 'Z') || ('0' <= c && c <= '9')
}

pub open spec fn lower_seq(s: Seq<char>) -> Seq<char> {
    s.map_values(|c: char| ascii_lower(c))
}

pub fn lower_char(c: char) -> (r: char)
    ensures
        r == ascii_lower(c),
{
    if 'A' <= c && c <= 'Z' {
        let b: u8 = c as u8;
        (b + 32) as char
    } else {
        c
    }
}

/// Relies on `str::chars` collected into a vector: the characters of `s` in order.
#[verifier::external_body]
pub(crate) fn chars_of(s: &str) -> (r: Vec<char>)
    ensures
        r@ == s@,
{
    s.chars().collect()
}

/// Relies on collecting characters into a `String`: the same characters in order.
#[verifier::external_body]
pub(crate) fn string_of(v: &[char]) -> (r: String)
    ensures
        r@ == v@,
{
    v.iter().collect()
}

pub fn lower_chars(v: &Vec<char>) -> (r: Vec<char>)
    ensures
        r@ == lower_seq(v@),
{
    let mut out: Vec<char> = Vec::new();
    let mut i: usize = 0;
    while i < v.len()
        invariant
            i <= v@.len(),
            out@ == lower_seq(v@.subrange(0, i as int)),
        decreases v@.len() - i,
    {
        out.push(lower_char(v[i]));
        proof {
            assert(v@.subrange(0, i + 1) =~= v@.subrange(0, i as int).push(v@[i as int]));
        }
        i = i + 1;
    }
    assert(v@.subrange(0, v@.len() as int) =~= v@);
    out
}

// ---------------------------------------------------------------------------
// Trimming
// ---------------------------------------------------------------------------

/// The character class that a trim removes: whitespace, or the dash when `dash` is set.
pub open spec fn trim_class(c: char, dash: bool) -> bool {
    if dash {
        c == '-'
    } else {
        is_space(c)
    }
}

pub open spec fn trim_left(s: Seq<char>, dash: bool) -> Seq<char>
    decreases s.len(),
{
    if s.len() > 0 && trim_class(s[0], dash) {
        trim_left(s.drop_first(), dash)
    } else {
        s
    }
}

pub open spec fn trim_right(s: Seq<char>, dash: bool) -> Seq<char>
    decreases s.len(),
{
    if s.len() > 0 && trim_class(s.last(), dash) {
        trim_right(s.drop_last(), dash)
    } else {
        s
    }
}

/// `s` without the leading and trailing characters of the class.
pub open spec fn trim_seq(s: Seq<char>, dash: bool) -> Seq<char> {
    trim_right(trim_left(s, dash), dash)
}

/// `s` without leading and trailing whitespace, as `str::trim` gives it.
pub open spec fn trim_ws(s: Seq<char>) -> Seq<char> {
    trim_seq(s, false)
}

fn in_trim_class(c: char, dash: bool) -> (r: bool)
    ensures
        r == trim_class(c, dash),
{
    if dash {
        c == '-'
    } else {
        space_char(c)
    }
}

proof fn lemma_trim_left_step(s: Seq<char>, i: int, dash: bool)
    requires
        0 <= i < s.len(),
        trim_class(s[i], dash),
    ensures
        trim_left(s.subrange(i, s.len() as int), dash) == trim_left(
            s.subrange(i + 1, s.len() as int),
            dash,
        ),
{
    assert(s.subrange(i, s.len() as int).drop_first() =~= s.subrange(i + 1, s.len() as int));
}

proof fn lemma_trim_right_step(s: Seq<char>, j: int, dash: bool)
    requires
        0 < j <= s.len(),
        trim_class(s[j - 1], dash),
    ensures
        trim_right(s.subrange(0, j), dash) == trim_right(s.subrange(0, j - 1), dash),
{
    assert(s.subrange(0, j).drop_last() =~= s.subrange(0, j - 1));
}

pub fn trim_chars(v: &Vec<char>, dash: bool) -> (r: Vec<char>)
    ensures
        r@ == trim_seq(v@, dash),
{
    let n = v.len();
    let mut i: usize = 0;
    proof {
        assert(v@.subrange(0, n as int) =~= v@);
    }
    while i < n && in_trim_class(v[i], dash)
        invariant
            i <= n == v@.len(),
            trim_left(v@, dash) == trim_left(v@.subrange(i as int, n as int), dash),
        decreases n - i,
    {
        proof {
            lemma_trim_left_step(v@, i as int, dash);
        }
        i = i + 1;
    }
    let ghost left = v@.subrange(i as int, n as int);
    assert(trim_left(left, dash) == left);
    let mut j: usize = n;
    while j > i && in_trim_class(v[j - 1], dash)
        invariant
            i <= j <= n == v@.len(),
            left == v@.subrange(i as int, n as int),
            trim_right(left, dash) == trim_right(v@.subrange(i as int, j as int), dash),
        decreases j,
    {
        proof {
            let w = v@.subrange(i as int, j as int);
            lemma_trim_right_step(w, j - i, dash);
            assert(w.subrange(0, j - i) =~= w);
            assert(w.subrange(0, j - i - 1) =~= v@.subrange(i as int, j - 1));
        }
        j = j - 1;
    }
    let mut out: Vec<char> = Vec::new();
    let mut k: usize = i;
    while k < j
        invariant
            i <= k <= j <= n == v@.len(),
            out@ == v@.subrange(i as int, k as int),
        decreases j - k,
    {
        out.push(v[k]);
        proof {
            assert(v@.subrange(i as int, k + 1) =~= v@.subrange(i as int, k as int).push(v@[k as int]));
        }
        k = k + 1;
    }
    out
}

pub fn trim_text(s: &str) -> (r: String)
    ensures
        r@ == trim_ws(s@),
{
    let v = chars_of(s);
    let t = trim_chars(&v, false);
    string_of(t.as_slice())
}

// ---------------------------------------------------------------------------
// Substrings
// ---------------------------------------------------------------------------

pub open spec fn occurs_at(h: Seq<char>, q: Seq<char>, k: int) -> bool {
    0 <= k && k + q.len() <= h.len() && h.subrange(k, k + q.len()) == q
}

pub open spec fn starts_with(h: Seq<char>, q: Seq<char>) -> bool {
    occurs_at(h, q, 0)
}

pub open spec fn ends_with(h: Seq<char>, q: Seq<char>) -> bool {
    q.len() <= h.len() && occurs_at(h, q, h.len() - q.len())
}

pub open spec fn contains(h: Seq<char>, q: Seq<char>) -> bool {
    exists|k: int| occurs_at(h, q, k)
}

pub fn matches_at(h: &Vec<char>, q: &Vec<char>, k: usize) -> (r: bool)
    ensures
        r == occurs_at(h@, q@, k as int),
{
    let hl = h.len();
    let ql = q.len();
    if ql > hl || k > hl - ql {
        return false;
    }
    let mut i: usize = 0;
    while i < ql
        invariant
            hl == h@.len(),
            ql == q@.len(),
            k + q@.len() <= h@.len(),
            i <= q@.len(),
            forall|t: int| 0 <= t < i ==> h@[k + t] == q@[t],
        decreases q@.len() - i,
    {
        assert(k + i < h@.len());
        if h[k + i] != q[i] {
            assert(h@.subrange(k as int, k + q@.len())[i as int] != q@[i as int]);
            return false;
        }
        i = i + 1;
    }
    assert(h@.subrange(k as int, k + q@.len()) =~= q@);
    true
}

pub fn contains_chars(h: &Vec<char>, q: &Vec<char>) -> (r: bool)
    ensures
        r == contains(h@, q@),
{
    if q.len() > h.len() {
        assert forall|k: int| !occurs_at(h@, q@, k) by {}
        return false;
    }
    let last = h.len() - q.len();
    let mut k: usize = 0;
    while k < last
        invariant
            last + q@.len() == h@.len(),
            k <= last,
            forall|t: int| 0 <= t < k ==> !occurs_at(h@, q@, t),
        decreases last - k,
    {
        if matches_at(h, q, k) {
            return true;
        }
        k = k + 1;
    }
    if matches_at(h, q, last) {
        return true;
    }
    assert forall|t: int| !occurs_at(h@, q@, t) by {
        if 0 <= t && t + q@.len() <= h@.len() {
            assert(t <= k);
        }
    }
    false
}

// ---------------------------------------------------------------------------
// Words separated by whitespace, as `str::split_whitespace` yields them
// ---------------------------------------------------------------------------

pub open spec fn word_len(s: Seq<char>) -> nat
    decreases s.len(),
{
    if s.len() == 0 || is_space(s[0]) {
        0
    } else {
        1 + word_len(s.drop_first())
    }
}

pub open spec fn words(s: Seq<char>) -> Seq<Seq<char>>
    decreases s.len(),
{
    if s.len() == 0 {
        seq![]
    } else if is_space(s[0]) {
        words(s.drop_first())
    } else {
        let n = word_len(s);
        if 0 < n <= s.len() {
            seq![s.subrange(0, n as int)] + words(s.subrange(n as int, s.len() as int))
        } else {
            seq![]
        }
    }
}

proof fn lemma_word_len_bound(s: Seq<char>)
    ensures
        word_len(s) <= s.len(),
        s.len() > 0 && !is_space(s[0]) ==> word_len(s) > 0,
        forall|t: int| 0 <= t < word_len(s) ==> !is_space(#[trigger] s[t]),
        word_len(s) < s.len() ==> is_space(s[word_len(s) as int]),
    decreases s.len(),
{
    if s.len() > 0 && !is_space(s[0]) {
        lemma_word_len_bound(s.drop_first());
        assert forall|t: int| 0 <= t < word_len(s) implies !is_space(#[trigger] s[t]) by {
            if t > 0 {
                assert(s[t] == s.drop_first()[t - 1]);
            }
        }
    }
}

proof fn lemma_word_len_of_run(s: Seq<char>, e: int)
    requires
        0 <= e <= s.len(),
        forall|t: int| 0 <= t < e ==> !is_space(#[trigger] s[t]),
        e == s.len() || is_space(s[e]),
    ensures
        word_len(s) == e,
    decreases s.len(),
{
    if e > 0 {
        lemma_word_len_of_run(s.drop_first(), e - 1);
    }
}

/// Finds the first word of `v` at or after `i`: its start and end, or `(n, n)` if none.
fn next_word(v: &Vec<char>, i: usize) -> (r: (usize, usize))
    requires
        i <= v@.len(),
    ensures
        i <= r.0 <= r.1 <= v@.len(),
        r.0 == v@.len() ==> words(v@.subrange(i as int, v@.len() as int)) == Seq::<Seq<char>>::empty(),
        r.0 < v@.len() ==> words(v@.subrange(i as int, v@.len() as int)) == seq![
            v@.subrange(r.0 as int, r.1 as int),
        ] + words(v@.subrange(r.1 as int, v@.len() as int)),
        r.0 < r.1 || r.0 == v@.len(),
{
    let n = v.len();
    let mut s: usize = i;
    while s < n && space_char(v[s])
        invariant
            i <= s <= n == v@.len(),
            words(v@.subrange(i as int, n as int)) == words(v@.subrange(s as int, n as int)),
        decreases n - s,
    {
        proof {
            assert(v@.subrange(s as int, n as int).drop_first() =~= v@.subrange(s + 1, n as int));
        }
        s = s + 1;
    }
    if s == n {
        assert(v@.subrange(s as int, n as int).len() == 0);
        return (n, n);
    }
    let mut e: usize = s;
    while e < n && !space_char(v[e])
        invariant
            s <= e <= n == v@.len(),
            forall|t: int| s <= t < e ==> !is_space(#[trigger] v@[t]),
        decreases n - e,
    {
        e = e + 1;
    }
    proof {
        let w = v@.subrange(s as int, n as int);
        assert forall|t: int| 0 <= t < e - s implies !is_space(#[trigger] w[t]) by {
            assert(w[t] == v@[s + t]);
        }
        lemma_word_len_of_run(w, e - s);
        assert(w.subrange(0, e - s) =~= v@.subrange(s as int, e as int));
        assert(w.subrange(e - s, w.len() as int) =~= v@.subrange(e as int, n as int));
    }
    (s, e)
}

/// The words of `v`, each as its own vector of characters.
pub fn split_words(v: &Vec<char>) -> (r: Vec<Vec<char>>)
    ensures
        r@.len() == words(v@).len(),
        forall|t: int| 0 <= t < r@.len() ==> (#[trigger] r@[t])@ == words(v@)[t],
{
    let n = v.len();
    let mut out: Vec<Vec<char>> = Vec::new();
    let mut i: usize = 0;
    let ghost done: Seq<Seq<char>> = seq![];
    proof {
        assert(v@.subrange(0, n as int) =~= v@);
    }
    while i < n
        invariant
            i <= n == v@.len(),
            out@.len() == done.len(),
            forall|t: int| 0 <= t < out@.len() ==> (#[trigger] out@[t])@ == done[t],
            words(v@) == done + words(v@.subrange(i as int, n as int)),
        decreases n - i,
    {
        let (s, e) = next_word(v, i);
        if s == n {
            proof {
                assert(done + Seq::<Seq<char>>::empty() =~= done);
            }
            i = n;
        } else {
            let mut w: Vec<char> = Vec::new();
            let mut k: usize = s;
            while k < e
                invariant
                    s <= k <= e <= n == v@.len(),
                    w@ == v@.subrange(s as int, k as int),
                decreases e - k,
            {
                w.push(v[k]);
                proof {
                    assert(v@.subrange(s as int, k + 1) =~= v@.subrange(s as int, k as int).push(
                        v@[k as int],
                    ));
                }
                k = k + 1;
            }
            proof {
                let piece = v@.subrange(s as int, e as int);
                assert(done + (seq![piece] + words(v@.subrange(e as int, n as int))) =~= done.push(
                    piece,
                ) + words(v@.subrange(e as int, n as int)));
                done = done.push(piece);
            }
            out.push(w);
            i = e;
        }
    }
    proof {
        assert(v@.subrange(n as int, n as int).len() == 0);
        assert(done + Seq::<Seq<char>>::empty() =~= done);
    }
    out
}

// ---------------------------------------------------------------------------
// Language tags and path segments
// ---------------------------------------------------------------------------

/// The language tag used for a request: trimmed and lower-cased, or `en` when
/// fewer than two characters remain.
pub open spec fn normalized_language(s: Seq<char>) -> Seq<char> {
    let l = lower_seq(trim_ws(s));
    if l.len() >= 2 {
        l
    } else {
        seq!['e', 'n']
    }
}

pub fn normalize_language(language: &str) -> (r: String)
    ensures
        r@ == normalized_language(language@),
{
    let v = chars_of(language);
    let t = trim_chars(&v, false);
    let l = lower_chars(&t);
    if l.len() >= 2 {
        string_of(l.as_slice())
    } else {
        let en: Vec<char> = vec!['e', 'n'];
        assert(en@ =~= seq!['e', 'n']);
        string_of(en.as_slice())
    }
}

/// A path segment's characters: ASCII letters and digits lower-cased, `-`
/// and `_` kept, every other character turned into `-`.
pub open spec fn segment_chars(s: Seq<char>) -> Seq<char>
    decreases s.len(),
{
    if s.len() == 0 {
        seq![]
    } else {
        let rest = segment_chars(s.drop_last());
        let c = s.last();
        if is_ascii_alnum(c) || c == '-' || c == '_' {
            rest.push(ascii_lower(c))
        } else {
            rest.push('-')
        }
    }
}

pub open spec fn uncategorized() -> Seq<char> {
    seq!['u', 'n', 'c', 'a', 't', 'e', 'g', 'o', 'r', 'i', 'z', 'e', 'd']
}

/// A directory segment made from free text: see `segment_chars`, then dashes
/// trimmed from both ends, and `uncategorized` when nothing is left.
pub open spec fn slug(s: Seq<char>) -> Seq<char> {
    let t = trim_seq(segment_chars(s), true);
    if t.len() == 0 {
        uncategorized()
    } else {
        t
    }
}

pub fn sanitize_segment(input: &str) -> (r: String)
    ensures
        r@ == slug(input@),
{
    let v = chars_of(input);
    let mut out: Vec<char> = Vec::new();
    let mut i: usize = 0;
    while i < v.len()
        invariant
            i <= v@.len(),
            out@ == segment_chars(v@.subrange(0, i as int)),
        decreases v@.len() - i,
    {
        let c = v[i];
        proof {
            assert(v@.subrange(0, i + 1).drop_last() =~= v@.subrange(0, i as int));
        }
        if ('a' <= c && c <= 'z') || ('A' <= c && c <= 'Z') || ('0' <= c && c <= '9') || c == '-'
            || c == '_' {
            out.push(lower_char(c));
        } else {
            out.push('-');
        }
        i = i + 1;
    }
    proof {
        assert(v@.subrange(0, v@.len() as int) =~= v@);
    }
    let t = trim_chars(&out, true);
    if t.len() == 0 {
        let u: Vec<char> = vec!['u', 'n', 'c', 'a', 't', 'e', 'g', 'o', 'r', 'i', 'z', 'e', 'd'];
        assert(u@ =~= uncategorized());
        string_of(u.as_slice())
    } else {
        string_of(t.as_slice())
    }
}

// ---------------------------------------------------------------------------
// Building text
// ---------------------------------------------------------------------------

/// Appends the characters of `s`.
pub fn push_text(out: &mut Vec<char>, s: &str)
    ensures
        final(out)@ == old(out)@ + s@,
{
    let cs = chars_of(s);
    let ghost base = out@;
    let mut k: usize = 0;
    while k < cs.len()
        invariant
            k <= cs@.len(),
            cs@ == s@,
            out@ == base + cs@.subrange(0, k as int),
        decreases cs@.len() - k,
    {
        out.push(cs[k]);
        proof {
            assert(cs@.subrange(0, k + 1) =~= cs@.subrange(0, k as int).push(cs@[k as int]));
        }
        k = k + 1;
    }
    assert(cs@.subrange(0, cs@.len() as int) =~= cs@);
}

pub open spec fn digit_char(d: int) -> char {
    (48 + d) as char
}

/// The decimal digits of `n`, most significant first, without leading zeros.
pub open spec fn decimal(n: nat) -> Seq<char>
    decreases n,
{
    if n < 10 {
        seq![digit_char(n as int)]
    } else {
        decimal(n / 10).push(digit_char((n % 10) as int))
    }
}

/// An integer in decimal, with a leading `-` when negative.
pub open spec fn int_text(n: int) -> Seq<char> {
    if n < 0 {
        seq!['-'] + decimal((-n) as nat)
    } else {
        decimal(n as nat)
    }
}

/// Appends the decimal digits of `n`.
pub fn push_decimal(out: &mut Vec<char>, n: u64)
    ensures
        final(out)@ == old(out)@ + decimal(n as nat),
    decreases n,
{
    if n >= 10 {
        push_decimal(out, n / 10);
    }
    let d: u8 = (n % 10) as u8;
    out.push((48u8 + d) as char);
    proof {
        if n < 10 {
            assert(decimal(n as nat) =~= seq![digit_char(n as int)]);
        }
    }
}

/// Appends `n` in decimal, with a leading `-` when negative.
pub fn push_int(out: &mut Vec<char>, n: i64)
    requires
        n > i64::MIN,
    ensures
        final(out)@ == old(out)@ + int_text(n as int),
{
    let ghost base = out@;
    if n < 0 {
        out.push('-');
        push_decimal(out, (-n) as u64);
        assert(out@ =~= base + int_text(n as int));
    } else {
        push_decimal(out, n as u64);
    }
}

// ---------------------------------------------------------------------------
// Text order
// ---------------------------------------------------------------------------

/// `a` sorts strictly before `b`, character by character; a proper prefix
/// sorts first. For UTF-8 text this is the byte order that `str` compares by.
pub open spec fn text_lt(a: Seq<char>, b: Seq<char>) -> bool
    decreases a.len(),
{
    if a.len() == 0 {
        b.len() > 0
    } else if b.len() == 0 {
        false
    } else if a[0] != b[0] {
        a[0] < b[0]
    } else {
        text_lt(a.drop_first(), b.drop_first())
    }
}

pub open spec fn text_le(a: Seq<char>, b: Seq<char>) -> bool {
    a == b || text_lt(a, b)
}

proof fn lemma_text_lt_step(a: Seq<char>, b: Seq<char>, i: int)
    requires
        0 <= i < a.len(),
        i < b.len(),
        a[i] == b[i],
    ensures
        text_lt(a.subrange(i, a.len() as int), b.subrange(i, b.len() as int)) == text_lt(
            a.subrange(i + 1, a.len() as int),
            b.subrange(i + 1, b.len() as int),
        ),
{
    assert(a.subrange(i, a.len() as int).drop_first() =~= a.subrange(i + 1, a.len() as int));
    assert(b.subrange(i, b.len() as int).drop_first() =~= b.subrange(i + 1, b.len() as int));
}

/// Compares two texts: negative when `a` sorts first, zero when equal,
/// positive when `b` sorts first.
pub fn compare_text(a: &Vec<char>, b: &Vec<char>) -> (r: i8)
    ensures
        r < 0 <==> text_lt(a@, b@),
        r == 0 <==> a@ == b@,
        r > 0 <==> text_lt(b@, a@),
{
    let mut i: usize = 0;
    proof {
        assert(a@.subrange(0, a@.len() as int) =~= a@);
        assert(b@.subrange(0, b@.len() as int) =~= b@);
    }
    while i < a.len() && i < b.len() && a[i] == b[i]
        invariant
            i <= a@.len(),
            i <= b@.len(),
            a@.subrange(0, i as int) == b@.subrange(0, i as int),
            text_lt(a@, b@) == text_lt(a@.subrange(i as int, a@.len() as int), b@.subrange(i as int, b@.len() as int)),
            text_lt(b@, a@) == text_lt(b@.subrange(i as int, b@.len() as int), a@.subrange(i as int, a@.len() as int)),
        decreases a@.len() - i,
    {
        proof {
            lemma_text_lt_step(a@, b@, i as int);
            lemma_text_lt_step(b@, a@, i as int);
            assert(a@.subrange(0, i + 1) =~= a@.subrange(0, i as int).push(a@[i as int]));
            assert(b@.subrange(0, i + 1) =~= b@.subrange(0, i as int).push(b@[i as int]));
        }
        i = i + 1;
    }
    let ghost ra = a@.subrange(i as int, a@.len() as int);
    let ghost rb = b@.subrange(i as int, b@.len() as int);
    if i == a.len() && i == b.len() {
        assert(a@ =~= a@.subrange(0, i as int));
        assert(b@ =~= b@.subrange(0, i as int));
        assert(ra.len() == 0 && rb.len() == 0);
        0
    } else if i == a.len() {
        assert(ra.len() == 0 && rb.len() > 0);
        assert(a@ != b@) by {
            assert(a@.len() != b@.len());
        }
        -1
    } else if i == b.len() {
        assert(rb.len() == 0 && ra.len() > 0);
        assert(a@.len() != b@.len());
        1
    } else if a[i] < b[i] {
        assert(ra[0] == a@[i as int] && rb[0] == b@[i as int]);
        assert(a@[i as int] != b@[i as int]);
        -1
    } else {
        assert(ra[0] == a@[i as int] && rb[0] == b@[i as int]);
        assert(a@[i as int] != b@[i as int]);
        1
    }
}

proof fn lemma_text_lt_trans(a: Seq<char>, b: Seq<char>, c: Seq<char>)
    requires
        text_lt(a, b),
        text_lt(b, c),
    ensures
        text_lt(a, c),
    decreases a.len(),
{
    if a.len() > 0 && a[0] == b[0] && b[0] == c[0] {
        lemma_text_lt_trans(a.drop_first(), b.drop_first(), c.drop_first());
    }
}

proof fn lemma_text_lt_irreflexive(a: Seq<char>)
    ensures
        !text_lt(a, a),
    decreases a.len(),
{
    if a.len() > 0 {
        lemma_text_lt_irreflexive(a.drop_first());
    }
}

/// Each text sorts strictly before the next: sorted and without repeats.
pub open spec fn strictly_sorted(s: Seq<Seq<char>>) -> bool {
    forall|i: int, j: int| 0 <= i < j < s.len() ==> text_lt(#[trigger] s[i], #[trigger] s[j])
}

/// Adds `t` to a sorted list without repeats, keeping it so.
pub fn insert_sorted(out: &mut Vec<String>, t: String)
    requires
        strictly_sorted(crate::tokens::views(old(out)@)),
    ensures
        strictly_sorted(crate::tokens::views(final(out)@)),
        forall|x: Seq<char>|
            crate::tokens::views(final(out)@).contains(x) <==> (crate::tokens::views(old(out)@).contains(x) || x
                == t@),
{
    let tc = chars_of(t.as_str());
    let ghost o = crate::tokens::views(out@);
    let mut i: usize = 0;
    let mut found = false;
    let mut greater = false;
    while i < out.len() && !found && !greater
        invariant
            o == crate::tokens::views(out@),
            tc@ == t@,
            i <= out@.len(),
            forall|k: int| 0 <= k < i ==> text_lt(#[trigger] o[k], t@),
            found ==> i < out@.len() && o[i as int] == t@,
            greater ==> i < out@.len() && text_lt(t@, o[i as int]),
        decreases out@.len() - i + (if found || greater { 0int } else { 1int }),
    {
        let c = compare_text(&chars_of(out[i].as_str()), &tc);
        if c < 0 {
            i = i + 1;
        } else if c == 0 {
            found = true;
        } else {
            greater = true;
        }
    }
    if found {
        assert forall|x: Seq<char>| crate::tokens::views(out@).contains(x) <==> (o.contains(x) || x == t@) by {
            if x == t@ {
                assert(o[i as int] == x);
            }
        }
        return;
    }
    out.insert(i, t);
    proof {
        let n = crate::tokens::views(out@);
        let ghost old_out = o;
        assert(n =~= o.insert(i as int, tc@));
        o.insert_ensures(i as int, tc@);
        assert forall|a: int, b: int| 0 <= a < b < n.len() implies text_lt(#[trigger] n[a], #[trigger] n[b]) by {
            if b < i {
            } else if a < i && b == i {
            } else if a < i && b > i {
                assert(n[b] == o[b - 1]);
            } else if a == i {
                assert(n[b] == o[b - 1]);
                if b - 1 > i {
                    lemma_text_lt_trans(t@, o[i as int], o[b - 1]);
                }
            } else {
                assert(n[a] == o[a - 1]);
                assert(n[b] == o[b - 1]);
            }
        }
        assert forall|x: Seq<char>| n.contains(x) <==> (o.contains(x) || x == t@) by {
            if n.contains(x) {
                let k = choose|k: int| 0 <= k < n.len() && n[k] == x;
                if k < i {
                    assert(o[k] == x);
                } else if k > i {
                    assert(o[k - 1] == x);
                }
            }
            if o.contains(x) {
                let k = choose|k: int| 0 <= k < o.len() && o[k] == x;
                if k < i {
                    assert(n[k] == x);
                } else {
                    assert(n[k + 1] == x);
                }
            }
            if x == t@ {
                assert(n[i as int] == x);
            }
        }
    }
}

} // verus!
