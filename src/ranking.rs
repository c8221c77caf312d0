use vstd::prelude::*;

use crate::model::PictogramDto;
use crate::text::{
    chars_of, contains, contains_chars, lower_chars, lower_seq, matches_at, split_words,
    starts_with, string_of, words,
};
use crate::tokens::{join_with, views};

verus! {

// ---------------------------------------------------------------------------
// Scores
// ---------------------------------------------------------------------------

/// How many of the words `ws` occur in `h`.
pub open spec fn word_hits(ws: Seq<Seq<char>>, h: Seq<char>) -> nat
    decreases ws.len(),
{
    if ws.len() == 0 {
        0
    } else {
        word_hits(ws.drop_last(), h) + if contains(h, ws.last()) {
            1nat
        } else {
            0nat
        }
    }
}

/// The relevance of `h` to the query `q`, both compared without ASCII case:
/// 1000 when equal, 700 when `h` starts with `q`, 400 when it contains `q`,
/// otherwise 80 for each word of `q` that `h` contains, at most `i32::MAX`.
pub open spec fn fuzzy(q: Seq<char>, h: Seq<char>) -> int {
    let ql = lower_seq(q);
    let hl = lower_seq(h);
    if hl == ql {
        1000
    } else if starts_with(hl, ql) {
        700
    } else if contains(hl, ql) {
        400
    } else {
        let raw = 80 * (word_hits(words(ql), hl) as int);
        if raw > i32::MAX {
            i32::MAX as int
        } else {
            raw
        }
    }
}

proof fn lemma_words_len(s: Seq<char>)
    ensures
        words(s).len() <= s.len(),
    decreases s.len(),
{
    if s.len() > 0 {
        if crate::text::is_space(s[0]) {
            lemma_words_len(s.drop_first());
        } else {
            let n = crate::text::word_len(s);
            if 0 < n <= s.len() {
                lemma_words_len(s.subrange(n as int, s.len() as int));
            }
        }
    }
}

pub fn fuzzy_score(query: &str, haystack: &str) -> (r: i32)
    ensures
        r == fuzzy(query@, haystack@),
{
    let q = lower_chars(&chars_of(query));
    let h = lower_chars(&chars_of(haystack));
    if q.len() == h.len() && matches_at(&h, &q, 0) {
        assert(h@ =~= q@) by {
            assert(h@.subrange(0, q@.len() as int) =~= h@);
        }
        return 1000;
    }
    proof {
        if h@ == q@ {
            assert(h@.subrange(0, q@.len() as int) =~= h@);
        }
    }
    if matches_at(&h, &q, 0) {
        return 700;
    }
    if contains_chars(&h, &q) {
        return 400;
    }
    let ws = split_words(&q);
    proof {
        lemma_words_len(q@);
    }
    let mut hits: u64 = 0;
    let mut i: usize = 0;
    while i < ws.len()
        invariant
            i <= ws@.len() == words(q@).len(),
            forall|t: int| 0 <= t < ws@.len() ==> (#[trigger] ws@[t])@ == words(q@)[t],
            hits == word_hits(words(q@).subrange(0, i as int), h@),
            hits <= i,
        decreases ws@.len() - i,
    {
        let found = contains_chars(&h, &ws[i]);
        proof {
            assert(words(q@).subrange(0, i + 1).drop_last() =~= words(q@).subrange(0, i as int));
        }
        if found {
            hits = hits + 1;
        }
        i = i + 1;
    }
    proof {
        assert(words(q@).subrange(0, ws@.len() as int) =~= words(q@));
    }
    if hits > (i32::MAX / 80) as u64 {
        i32::MAX
    } else {
        (hits * 80) as i32
    }
}

// ---------------------------------------------------------------------------
// The text a record is ranked by
// ---------------------------------------------------------------------------

pub open spec fn description_part(d: Option<String>) -> Seq<Seq<char>> {
    match d {
        Some(s) => seq![s@],
        None => seq![],
    }
}

/// Keywords, categories, tags and description of a record, in this order.
pub open spec fn haystack_parts(p: PictogramDto) -> Seq<Seq<char>> {
    views(p.keywords@) + views(p.categories@) + views(p.tags@) + description_part(p.description)
}

/// The text a record is ranked by: its parts joined by single blanks.
pub open spec fn haystack(p: PictogramDto) -> Seq<char> {
    join_with(haystack_parts(p), seq![' '])
}

pub open spec fn item_score(p: PictogramDto, q: Seq<char>) -> int {
    fuzzy(q, haystack(p))
}

fn push_strings(parts: &mut Vec<String>, from: &Vec<String>)
    ensures
        views(final(parts)@) == views(old(parts)@) + views(from@),
{
    let ghost start = views(parts@);
    let mut i: usize = 0;
    while i < from.len()
        invariant
            i <= from@.len(),
            views(parts@) == start + views(from@.subrange(0, i as int)),
        decreases from@.len() - i,
    {
        let s = from[i].clone();
        let ghost before = parts@;
        parts.push(s);
        proof {
            assert(views(parts@) =~= views(before) + seq![s@]);
            assert(views(from@.subrange(0, i + 1)) =~= views(from@.subrange(0, i as int)) + seq![
                from@[i as int]@,
            ]);
        }
        i = i + 1;
    }
    assert(from@.subrange(0, from@.len() as int) =~= from@);
}

proof fn lemma_join_push_blank(ts: Seq<Seq<char>>, x: Seq<char>)
    ensures
        join_with(ts.push(x), seq![' ']) == if ts.len() == 0 {
            x
        } else {
            join_with(ts, seq![' ']) + seq![' '] + x
        },
{
    assert(ts.push(x).drop_last() =~= ts);
}

fn join_blank(parts: &Vec<String>) -> (r: Vec<char>)
    ensures
        r@ == join_with(views(parts@), seq![' ']),
{
    let ghost vs = views(parts@);
    let mut out: Vec<char> = Vec::new();
    let mut i: usize = 0;
    while i < parts.len()
        invariant
            i <= parts@.len() == vs.len(),
            vs == views(parts@),
            out@ == join_with(vs.subrange(0, i as int), seq![' ']),
        decreases parts@.len() - i,
    {
        let cs = chars_of(parts[i].as_str());
        let ghost prev = vs.subrange(0, i as int);
        if i > 0 {
            out.push(' ');
        }
        let ghost base = out@;
        let mut k: usize = 0;
        while k < cs.len()
            invariant
                k <= cs@.len(),
                out@ == base + cs@.subrange(0, k as int),
            decreases cs@.len() - k,
        {
            out.push(cs[k]);
            proof {
                assert(cs@.subrange(0, k + 1) =~= cs@.subrange(0, k as int).push(cs@[k as int]));
            }
            k = k + 1;
        }
        proof {
            assert(cs@.subrange(0, cs@.len() as int) =~= cs@);
            assert(vs.subrange(0, i + 1) =~= prev.push(vs[i as int]));
            lemma_join_push_blank(prev, vs[i as int]);
            if i > 0 {
                assert(base =~= join_with(prev, seq![' ']) + seq![' ']);
            } else {
                assert(base =~= Seq::<char>::empty());
            }
            assert(out@ =~= join_with(vs.subrange(0, i + 1), seq![' ']));
        }
        i = i + 1;
    }
    assert(vs.subrange(0, parts@.len() as int) =~= vs);
    out
}

/// The text that `p` is ranked by.
pub fn haystack_text(p: &PictogramDto) -> (r: String)
    ensures
        r@ == haystack(*p),
{
    let mut parts: Vec<String> = Vec::new();
    push_strings(&mut parts, &p.keywords);
    push_strings(&mut parts, &p.categories);
    push_strings(&mut parts, &p.tags);
    match &p.description {
        Some(d) => {
            let ghost before = parts@;
            parts.push(d.clone());
            assert(views(parts@) =~= views(before) + seq![d@]);
        },
        None => {
            assert(views(parts@) =~= views(parts@) + Seq::<Seq<char>>::empty());
        },
    }
    let v = join_blank(&parts);
    string_of(v.as_slice())
}

pub fn item_fuzzy_score(p: &PictogramDto, query: &str) -> (r: i32)
    ensures
        r == item_score(*p, query@),
{
    let h = haystack_text(p);
    fuzzy_score(query, h.as_str())
}

// ---------------------------------------------------------------------------
// Stable ranking
// ---------------------------------------------------------------------------

/// `perm` lists each index below its length exactly once.
pub open spec fn is_permutation(perm: Seq<int>) -> bool {
    &&& forall|k: int| 0 <= k < perm.len() ==> 0 <= #[trigger] perm[k] < perm.len()
    &&& forall|a: int, b: int| 0 <= a < b < perm.len() ==> perm[a] != perm[b]
}

/// Input position `a` goes before `b`: a higher score, or an equal score
/// and an earlier position.
pub open spec fn ranks_before(s: Seq<PictogramDto>, q: Seq<char>, a: int, b: int) -> bool {
    item_score(s[a], q) > item_score(s[b], q) || (item_score(s[a], q) == item_score(s[b], q)
        && a < b)
}

/// `r` is `s` ordered by descending score, records of equal score in their
/// input order.
pub open spec fn is_ranking_by(s: Seq<PictogramDto>, r: Seq<PictogramDto>, q: Seq<char>) -> bool {
    exists|perm: Seq<int>|
        {
            &&& perm.len() == s.len()
            &&& r.len() == s.len()
            &&& is_permutation(perm)
            &&& forall|k: int| 0 <= k < r.len() ==> #[trigger] r[k] == s[perm[k]]
            &&& forall|a: int, b: int|
                0 <= a < b < r.len() ==> ranks_before(s, q, #[trigger] perm[a], #[trigger] perm[b])
        }
}

/// Orders `items` by descending fuzzy score against `query`; records of equal
/// score keep their relative order.
pub fn rank_by_fuzzy_score(items: Vec<PictogramDto>, query: &str) -> (r: Vec<PictogramDto>)
    ensures
        is_ranking_by(items@, r@, query@),
{
    let ghost s = items@;
    let ghost q = query@;
    let n = items.len();
    let mut rest = items;
    let mut out: Vec<PictogramDto> = Vec::new();
    let mut scores: Vec<i32> = Vec::new();
    let ghost mut perm: Seq<int> = seq![];
    let mut i: usize = 0;
    while i < n
        invariant
            n == s.len(),
            q == query@,
            i <= n,
            rest@ == s.subrange(i as int, n as int),
            out@.len() == i,
            scores@.len() == i,
            perm.len() == i,
            forall|k: int| 0 <= k < i ==> 0 <= #[trigger] perm[k] < i,
            forall|a: int, b: int| 0 <= a < b < i ==> perm[a] != perm[b],
            forall|k: int| 0 <= k < i ==> #[trigger] out@[k] == s[perm[k]],
            forall|k: int| 0 <= k < i ==> #[trigger] scores@[k] == item_score(s[perm[k]], q),
            forall|a: int, b: int|
                0 <= a < b < i ==> ranks_before(s, q, #[trigger] perm[a], #[trigger] perm[b]),
        decreases n - i,
    {
        let x = rest.remove(0);
        proof {
            assert(x == s[i as int]);
            assert(rest@ =~= s.subrange(i + 1, n as int));
        }
        let sx = item_fuzzy_score(&x, query);
        let mut j: usize = i;
        while j > 0 && scores[j - 1] < sx
            invariant
                j <= i == scores@.len(),
                forall|k: int| j <= k < i ==> scores@[k] < sx,
            decreases j,
        {
            j = j - 1;
        }
        let ghost old_perm = perm;
        let ghost old_out = out@;
        let ghost old_scores = scores@;
        out.insert(j, x);
        scores.insert(j, sx);
        proof {
            perm = old_perm.insert(j as int, i as int);
            old_perm.insert_ensures(j as int, i as int);
            old_out.insert_ensures(j as int, x);
            old_scores.insert_ensures(j as int, sx);
            assert forall|k: int| 0 <= k < i + 1 implies #[trigger] out@[k] == s[perm[k]] by {
                if k > j {
                    assert(out@[k] == old_out[k - 1]);
                    assert(perm[k] == old_perm[k - 1]);
                }
            }
            assert forall|k: int| 0 <= k < i + 1 implies #[trigger] scores@[k] == item_score(
                s[perm[k]],
                q,
            ) by {
                if k == j {
                    assert(scores@[k] == sx);
                    assert(perm[k] == i);
                } else if k > j {
                    assert(scores@[k] == old_scores[k - 1]);
                    assert(perm[k] == old_perm[k - 1]);
                }
            }
            assert forall|k: int| 0 <= k < i + 1 implies 0 <= #[trigger] perm[k] < i + 1 by {
                if k > j {
                    assert(perm[k] == old_perm[k - 1]);
                }
            }
            assert forall|a: int, b: int| 0 <= a < b < i + 1 implies perm[a] != perm[b] by {
                if a < j && b > j {
                    assert(perm[b] == old_perm[b - 1]);
                } else if a > j {
                    assert(perm[a] == old_perm[a - 1]);
                    assert(perm[b] == old_perm[b - 1]);
                } else if b == j {
                    assert(old_perm[a] < i);
                } else if a == j {
                    assert(perm[b] == old_perm[b - 1]);
                    assert(old_perm[b - 1] < i);
                }
            }
            assert forall|a: int, b: int| 0 <= a < b < i + 1 implies ranks_before(
                s,
                q,
                #[trigger] perm[a],
                #[trigger] perm[b],
            ) by {
                if a < j && b > j {
                    assert(perm[b] == old_perm[b - 1]);
                    assert(ranks_before(s, q, old_perm[a], old_perm[b - 1]));
                } else if a > j {
                    assert(perm[a] == old_perm[a - 1]);
                    assert(perm[b] == old_perm[b - 1]);
                    assert(ranks_before(s, q, old_perm[a - 1], old_perm[b - 1]));
                } else if b == j {
                    // everything before the new record scores at least as high
                    assert(old_scores[j - 1] >= sx);
                    if a < j - 1 {
                        assert(ranks_before(s, q, old_perm[a], old_perm[j - 1]));
                    }
                    assert(old_perm[a] < i);
                } else if a == j {
                    assert(perm[b] == old_perm[b - 1]);
                    assert(old_scores[b - 1] < sx);
                }
            }
        }
        i = i + 1;
    }
    assert(is_permutation(perm));
    out
}

/// Ranks `items` in place, as `rank_by_fuzzy_score` does.
pub fn sort_by_fuzzy_score(items: &mut Vec<PictogramDto>, query: &str)
    ensures
        is_ranking_by(old(items)@, final(items)@, query@),
{
    let mut taken: Vec<PictogramDto> = Vec::new();
    std::mem::swap(items, &mut taken);
    let ranked = rank_by_fuzzy_score(taken, query);
    *items = ranked;
}

} // verus!
