use vstd::prelude::*;

use crate::text::{chars_of, split_words, string_of, trim_chars, trim_ws, words};

verus! {

// ---------------------------------------------------------------------------
// The `||`-separated token lists that the Local Store keeps as text
// ---------------------------------------------------------------------------

pub open spec fn bar_at(s: Seq<char>, k: int) -> bool {
    0 <= k && k + 1 < s.len() && s[k] == '|' && s[k + 1] == '|'
}

/// Index of the first `||` in `s`, or `s.len()` when there is none.
pub open spec fn first_bar(s: Seq<char>) -> nat
    decreases s.len(),
{
    if s.len() < 2 {
        s.len()
    } else if s[0] == '|' && s[1] == '|' {
        0
    } else {
        1 + first_bar(s.drop_first())
    }
}

/// The pieces of `s` between occurrences of `||`, left to right, as `str::split` cuts them.
pub open spec fn pieces(s: Seq<char>) -> Seq<Seq<char>>
    decreases s.len(),
{
    let k = first_bar(s);
    if k + 2 <= s.len() {
        seq![s.subrange(0, k as int)] + pieces(s.subrange(k + 2int, s.len() as int))
    } else {
        seq![s]
    }
}

/// Each text trimmed, the empty ones left out.
pub open spec fn clean(ps: Seq<Seq<char>>) -> Seq<Seq<char>>
    decreases ps.len(),
{
    if ps.len() == 0 {
        seq![]
    } else {
        let t = trim_ws(ps[0]);
        let rest = clean(ps.drop_first());
        if t.len() > 0 {
            seq![t] + rest
        } else {
            rest
        }
    }
}

/// The tokens stored in a `||`-separated text.
pub open spec fn stored_tokens(s: Seq<char>) -> Seq<Seq<char>> {
    clean(pieces(s))
}

/// Texts glued together with `sep` between each two.
pub open spec fn join_with(ts: Seq<Seq<char>>, sep: Seq<char>) -> Seq<char>
    decreases ts.len(),
{
    if ts.len() == 0 {
        seq![]
    } else if ts.len() == 1 {
        ts[0]
    } else {
        join_with(ts.drop_last(), sep) + sep + ts.last()
    }
}

pub open spec fn bars() -> Seq<char> {
    seq!['|', '|']
}

pub open spec fn views(v: Seq<String>) -> Seq<Seq<char>> {
    v.map_values(|x: String| x@)
}

/// The text under which a token list is stored.
pub open spec fn stored_text(ts: Seq<Seq<char>>) -> Seq<char> {
    join_with(clean(ts), bars())
}

proof fn lemma_first_bar_of_run(s: Seq<char>, k: int)
    requires
        0 <= k <= s.len(),
        forall|t: int| 0 <= t < k ==> !bar_at(s, t),
        k + 1 < s.len() ==> bar_at(s, k),
        k + 1 >= s.len() ==> k == s.len(),
    ensures
        first_bar(s) == k,
    decreases s.len(),
{
    if s.len() >= 2 && !(s[0] == '|' && s[1] == '|') {
        assert(k > 0) by {
            if k == 0 {
                assert(bar_at(s, 0));
            }
        }
        let d = s.drop_first();
        assert forall|t: int| 0 <= t < k - 1 implies !bar_at(d, t) by {
            assert(!bar_at(s, t + 1));
        }
        if k - 1 + 1 < d.len() {
            assert(bar_at(s, k));
        }
        lemma_first_bar_of_run(d, k - 1);
    } else if s.len() >= 2 {
        assert(bar_at(s, 0));
    }
}

proof fn lemma_clean_append(a: Seq<Seq<char>>, b: Seq<Seq<char>>)
    ensures
        clean(a + b) == clean(a) + clean(b),
    decreases a.len(),
{
    if a.len() == 0 {
        assert(a + b =~= b);
        assert(clean(a) + clean(b) =~= clean(b));
    } else {
        lemma_clean_append(a.drop_first(), b);
        assert((a + b).drop_first() =~= a.drop_first() + b);
        assert((a + b)[0] == a[0]);
        let t = trim_ws(a[0]);
        if t.len() > 0 {
            assert(seq![t] + (clean(a.drop_first()) + clean(b)) =~= (seq![t] + clean(
                a.drop_first(),
            )) + clean(b));
        }
    }
}

proof fn lemma_clean_single(x: Seq<char>)
    ensures
        clean(seq![x]) == (if trim_ws(x).len() > 0 {
            seq![trim_ws(x)]
        } else {
            Seq::<Seq<char>>::empty()
        }),
{
    assert(seq![x].drop_first() =~= Seq::<Seq<char>>::empty());
    assert(clean(Seq::<Seq<char>>::empty()) == Seq::<Seq<char>>::empty());
    assert(seq![trim_ws(x)] + Seq::<Seq<char>>::empty() =~= seq![trim_ws(x)]);
}

fn copy_range(v: &Vec<char>, from: usize, to: usize) -> (r: Vec<char>)
    requires
        from <= to <= v@.len(),
    ensures
        r@ == v@.subrange(from as int, to as int),
{
    let mut out: Vec<char> = Vec::new();
    let mut k: usize = from;
    while k < to
        invariant
            from <= k <= to <= v@.len(),
            out@ == v@.subrange(from as int, k as int),
        decreases to - k,
    {
        out.push(v[k]);
        proof {
            assert(v@.subrange(from as int, k + 1) =~= v@.subrange(from as int, k as int).push(
                v@[k as int],
            ));
        }
        k = k + 1;
    }
    out
}

/// Splits a stored `||`-separated text into its tokens: each trimmed, empty ones
/// dropped, order kept.
pub fn split_tokens(s: &str) -> (r: Vec<String>)
    ensures
        views(r@) == stored_tokens(s@),
{
    let v = chars_of(s);
    let n = v.len();
    let mut out: Vec<String> = Vec::new();
    let mut i: usize = 0;
    let mut finished = false;
    proof {
        assert(v@.subrange(0, n as int) =~= v@);
    }
    while !finished
        invariant
            i <= n == v@.len(),
            finished ==> views(out@) == stored_tokens(v@),
            !finished ==> stored_tokens(v@) == views(out@) + stored_tokens(
                v@.subrange(i as int, n as int),
            ),
        decreases n - i + (if finished { 0int } else { 1int }),
    {
        let ghost w = v@.subrange(i as int, n as int);
        let mut k: usize = i;
        while k < n && k + 1 < n && !(v[k] == '|' && v[k + 1] == '|')
            invariant
                i <= k <= n == v@.len(),
                w == v@.subrange(i as int, n as int),
                forall|t: int| 0 <= t < k - i ==> !bar_at(w, t),
            decreases n - k,
        {
            k = k + 1;
        }
        let at_bar = k < n && k + 1 < n;
        let end = if at_bar { k } else { n };
        proof {
            assert forall|t: int| 0 <= t < end - i implies !bar_at(w, t) by {
                if t >= k - i {
                    assert(!bar_at(w, t));
                }
            }
            if at_bar {
                assert(bar_at(w, k - i));
            }
            lemma_first_bar_of_run(w, end - i);
        }
        let piece = copy_range(&v, i, end);
        let t = trim_chars(&piece, false);
        let ghost before = views(out@);
        proof {
            lemma_clean_single(piece@);
            if at_bar {
                assert(w.subrange(0, end - i) =~= piece@);
                assert(w.subrange(end - i + 2, w.len() as int) =~= v@.subrange(end + 2, n as int));
                lemma_clean_append(seq![piece@], pieces(v@.subrange(end + 2, n as int)));
            } else {
                assert(w =~= piece@);
            }
        }
        if t.len() > 0 {
            out.push(string_of(t.as_slice()));
            proof {
                assert(views(out@) =~= before + seq![t@]);
            }
        } else {
            assert(views(out@) =~= before);
        }
        if at_bar {
            proof {
                assert(before + (clean(seq![piece@]) + stored_tokens(v@.subrange(end + 2, n as int)))
                    =~= views(out@) + stored_tokens(v@.subrange(end + 2, n as int)));
            }
            i = end + 2;
        } else {
            proof {
                assert(before + clean(seq![piece@]) =~= views(out@));
            }
            finished = true;
            i = n;
        }
    }
    out
}

proof fn lemma_join_push(ts: Seq<Seq<char>>, x: Seq<char>, sep: Seq<char>)
    ensures
        join_with(ts.push(x), sep) == if ts.len() == 0 {
            x
        } else {
            join_with(ts, sep) + sep + x
        },
{
    assert(ts.push(x).drop_last() =~= ts);
}

/// Stores a token list as one text: each token trimmed, empty ones dropped,
/// the rest joined by `||`.
pub fn join_tokens(values: &Vec<String>) -> (r: String)
    ensures
        r@ == stored_text(views(values@)),
{
    let ghost vs = views(values@);
    let mut out: Vec<char> = Vec::new();
    let mut count: usize = 0;
    let mut i: usize = 0;
    while i < values.len()
        invariant
            i <= values@.len(),
            vs == views(values@),
            count <= i,
            count == clean(vs.subrange(0, i as int)).len(),
            out@ == join_with(clean(vs.subrange(0, i as int)), bars()),
        decreases values@.len() - i,
    {
        let cv = chars_of(values[i].as_str());
        let t = trim_chars(&cv, false);
        proof {
            assert(vs.subrange(0, i + 1) =~= vs.subrange(0, i as int) + seq![vs[i as int]]);
            lemma_clean_append(vs.subrange(0, i as int), seq![vs[i as int]]);
            lemma_clean_single(vs[i as int]);
        }
        if t.len() > 0 {
            let ghost prev = clean(vs.subrange(0, i as int));
            proof {
                lemma_join_push(prev, t@, bars());
                assert(prev + seq![t@] =~= prev.push(t@));
            }
            if count > 0 {
                out.push('|');
                out.push('|');
            }
            let mut k: usize = 0;
            let ghost base = out@;
            while k < t.len()
                invariant
                    k <= t@.len(),
                    out@ == base + t@.subrange(0, k as int),
                decreases t@.len() - k,
            {
                out.push(t[k]);
                proof {
                    assert(t@.subrange(0, k + 1) =~= t@.subrange(0, k as int).push(t@[k as int]));
                }
                k = k + 1;
            }
            proof {
                assert(t@.subrange(0, t@.len() as int) =~= t@);
                if count > 0 {
                    assert(base =~= join_with(prev, bars()) + bars());
                } else {
                    assert(base =~= Seq::<char>::empty());
                }
                assert(out@ =~= join_with(prev.push(t@), bars()));
            }
            count = count + 1;
        } else {
            proof {
                let prev = clean(vs.subrange(0, i as int));
                assert(prev + Seq::<Seq<char>>::empty() =~= prev);
            }
        }
        i = i + 1;
    }
    proof {
        assert(vs.subrange(0, values@.len() as int) =~= vs);
    }
    string_of(out.as_slice())
}

// ---------------------------------------------------------------------------
// Full-text query expressions
// ---------------------------------------------------------------------------

/// Characters that carry an operator meaning in a boolean full-text query.
pub open spec fn is_operator_char(c: char) -> bool {
    c == '+' || c == '-' || c == '>' || c == '<' || c == '(' || c == ')' || c == '~' || c == '*'
        || c == '"' || c == '@' || c == '\\'
}

/// The query with every operator character replaced by a blank.
pub open spec fn strip_operators(s: Seq<char>) -> Seq<char> {
    s.map_values(|c: char| if is_operator_char(c) { ' ' } else { c })
}

/// The words of the query once operators are stripped.
pub open spec fn query_words(s: Seq<char>) -> Seq<Seq<char>> {
    words(strip_operators(s))
}

/// The words of at least `min` characters, each followed by `*`.
pub open spec fn prefix_terms(ws: Seq<Seq<char>>, min: nat) -> Seq<Seq<char>>
    decreases ws.len(),
{
    if ws.len() == 0 {
        seq![]
    } else {
        let rest = prefix_terms(ws.drop_last(), min);
        if ws.last().len() >= min {
            rest.push(ws.last().push('*'))
        } else {
            rest
        }
    }
}

/// The boolean-mode expression: one prefix term per word of two or more
/// characters, separated by blanks.
pub open spec fn fulltext_expression(q: Seq<char>) -> Seq<char> {
    join_with(prefix_terms(query_words(q), 2), seq![' '])
}

fn strip_operator_chars(v: &Vec<char>) -> (r: Vec<char>)
    ensures
        r@ == strip_operators(v@),
{
    let mut out: Vec<char> = Vec::new();
    let mut i: usize = 0;
    while i < v.len()
        invariant
            i <= v@.len(),
            out@ == strip_operators(v@.subrange(0, i as int)),
        decreases v@.len() - i,
    {
        let c = v[i];
        let is_op = c == '+' || c == '-' || c == '>' || c == '<' || c == '(' || c == ')' || c
            == '~' || c == '*' || c == '"' || c == '@' || c == '\\';
        if is_op {
            out.push(' ');
        } else {
            out.push(c);
        }
        proof {
            assert(strip_operators(v@.subrange(0, i + 1)) =~= strip_operators(
                v@.subrange(0, i as int),
            ).push(if is_operator_char(c) { ' ' } else { c }));
        }
        i = i + 1;
    }
    assert(v@.subrange(0, v@.len() as int) =~= v@);
    out
}

/// The words of a query after its operator characters are blanked.
pub fn query_word_list(query: &str) -> (r: Vec<Vec<char>>)
    ensures
        r@.len() == query_words(query@).len(),
        forall|t: int| 0 <= t < r@.len() ==> (#[trigger] r@[t])@ == query_words(query@)[t],
{
    let v = chars_of(query);
    let s = strip_operator_chars(&v);
    split_words(&s)
}

/// Turns a free-text query into a boolean-mode full-text expression in which
/// each word of two or more characters becomes a prefix term (`word*`).
pub fn to_fulltext_boolean(query: &str) -> (r: String)
    ensures
        r@ == fulltext_expression(query@),
{
    let ws = query_word_list(query);
    let ghost qw = query_words(query@);
    let mut out: Vec<char> = Vec::new();
    let mut count: usize = 0;
    let mut i: usize = 0;
    while i < ws.len()
        invariant
            i <= ws@.len() == qw.len(),
            qw == query_words(query@),
            forall|t: int| 0 <= t < ws@.len() ==> (#[trigger] ws@[t])@ == qw[t],
            count <= i,
            count == prefix_terms(qw.subrange(0, i as int), 2).len(),
            out@ == join_with(prefix_terms(qw.subrange(0, i as int), 2), seq![' ']),
        decreases ws@.len() - i,
    {
        let w = &ws[i];
        let ghost prev = prefix_terms(qw.subrange(0, i as int), 2);
        proof {
            assert(qw.subrange(0, i + 1).drop_last() =~= qw.subrange(0, i as int));
            assert(qw.subrange(0, i + 1).last() == w@);
        }
        if w.len() >= 2 {
            if count > 0 {
                out.push(' ');
            }
            let ghost base = out@;
            let mut k: usize = 0;
            while k < w.len()
                invariant
                    k <= w@.len(),
                    out@ == base + w@.subrange(0, k as int),
                decreases w@.len() - k,
            {
                out.push(w[k]);
                proof {
                    assert(w@.subrange(0, k + 1) =~= w@.subrange(0, k as int).push(w@[k as int]));
                }
                k = k + 1;
            }
            out.push('*');
            proof {
                assert(w@.subrange(0, w@.len() as int) =~= w@);
                lemma_join_push(prev, w@.push('*'), seq![' ']);
                if count > 0 {
                    assert(base =~= join_with(prev, seq![' ']) + seq![' ']);
                } else {
                    assert(base =~= Seq::<char>::empty());
                }
                assert(out@ =~= join_with(prev.push(w@.push('*')), seq![' ']));
            }
            count = count + 1;
        }
        i = i + 1;
    }
    proof {
        assert(qw.subrange(0, ws@.len() as int) =~= qw);
    }
    string_of(out.as_slice())
}

/// Whether every word has at least `min` characters.
pub open spec fn all_words_at_least(ws: Seq<Seq<char>>, min: nat) -> bool {
    forall|t: int| 0 <= t < ws.len() ==> (#[trigger] ws[t]).len() >= min
}

/// Whether the Local Store's structured full-text search may serve `query`:
/// the query has at least `min_query_chars` characters, it has at least one
/// whitespace-separated token, and every token has at least
/// `min_word_chars`. Any other query is served by substring matching.
pub open spec fn structured_search_applies(
    q: Seq<char>,
    min_query_chars: nat,
    min_word_chars: nat,
) -> bool {
    q.len() >= min_query_chars && words(q).len() > 0 && all_words_at_least(words(q), min_word_chars)
}

pub fn uses_structured_search(query: &str, min_query_chars: usize, min_word_chars: usize) -> (r:
    bool)
    ensures
        r == structured_search_applies(query@, min_query_chars as nat, min_word_chars as nat),
{
    let v = chars_of(query);
    if v.len() < min_query_chars {
        return false;
    }
    let ws = split_words(&v);
    if ws.len() == 0 {
        return false;
    }
    let mut i: usize = 0;
    while i < ws.len()
        invariant
            v@ == query@,
            i <= ws@.len() == words(query@).len(),
            forall|t: int| 0 <= t < ws@.len() ==> (#[trigger] ws@[t])@ == words(query@)[t],
            forall|t: int| 0 <= t < i ==> (#[trigger] words(query@)[t]).len() >= min_word_chars,
        decreases ws@.len() - i,
    {
        if ws[i].len() < min_word_chars {
            assert(ws@[i as int]@ == words(query@)[i as int]);
            return false;
        }
        i = i + 1;
    }
    true
}

/// The query length from which structured search may serve a query.
pub const MIN_STRUCTURED_QUERY_CHARS: usize = 4;

/// The shortest word that the structured index holds.
pub const MIN_INDEXED_WORD_CHARS: usize = 2;

/// A query shorter than the structured search's minimum is always served by
/// substring matching.
pub proof fn lemma_short_query_uses_substring(q: Seq<char>)
    requires
        q.len() < MIN_STRUCTURED_QUERY_CHARS,
    ensures
        !structured_search_applies(
            q,
            MIN_STRUCTURED_QUERY_CHARS as nat,
            MIN_INDEXED_WORD_CHARS as nat,
        ),
{
}

/// What `str::to_lowercase` makes of a text: Unicode lower case.
pub uninterp spec fn lower_of(s: Seq<char>) -> Seq<char>;

/// Relies on `str::to_lowercase`: the result depends on the text alone, and
/// the empty text stays empty.
#[verifier::external_body]
fn lowercase(s: &str) -> (r: String)
    ensures
        r@ == lower_of(s@),
        s@.len() == 0 ==> r@.len() == 0,
{
    s.to_lowercase()
}

/// The pattern of a case-insensitive substring match on lower-cased columns:
/// the lower-cased query between two `%`.
pub fn substring_pattern(query: &str) -> (r: String)
    ensures
        r@ == seq!['%'] + lower_of(query@) + seq!['%'],
{
    let mut out: Vec<char> = Vec::new();
    out.push('%');
    let l = lowercase(query);
    crate::text::push_text(&mut out, l.as_str());
    out.push('%');
    string_of(out.as_slice())
}

} // verus!
