//! Rankings computed from the view counts: the genres with most views.
use vstd::prelude::*;
use crate::constants::TOP_GENRES_LIMIT;
use crate::shard_processor::{AnimeDataWrapper, TallyMap};
use crate::text::{lex_lt, lemma_lex_order, str_lt, views};

verus! {

/// The anime of `t` has genre `g`.
pub open spec fn has_genre(t: AnimeDataWrapper, g: Seq<char>) -> bool {
    t.anime_data.genre_views().contains(g)
}

/// The views of all animes of genre `g`.
pub open spec fn genre_total(s: Seq<AnimeDataWrapper>, g: Seq<char>) -> nat
    decreases s.len(),
{
    if s.len() == 0 {
        0
    } else {
        genre_total(s.drop_last(), g) + if has_genre(s.last(), g) {
            s.last().count as nat
        } else {
            0nat
        }
    }
}

/// Every genre of some anime.
pub open spec fn all_genres(s: Seq<AnimeDataWrapper>) -> Set<Seq<char>> {
    Set::new(|g: Seq<char>| exists|i: int| 0 <= i < s.len() && #[trigger] has_genre(s[i], g))
}

/// Each genre with its total views.
pub open spec fn genre_counts(s: Seq<AnimeDataWrapper>) -> Set<(Seq<char>, nat)> {
    Set::new(|p: (Seq<char>, nat)| all_genres(s).contains(p.0) && p.1 == genre_total(s, p.0))
}

/// `a` ranks before `b`: more views, or as many views and a name that comes
/// first.
pub open spec fn ranks_before(a: (Seq<char>, nat), b: (Seq<char>, nat)) -> bool {
    a.1 > b.1 || (a.1 == b.1 && lex_lt(a.0, b.0))
}

/// The texts and numbers of a list of (name, count) pairs.
pub open spec fn pair_views(v: Seq<(String, u32)>) -> Seq<(Seq<char>, nat)> {
    v.map_values(|p: (String, u32)| (p.0@, p.1 as nat))
}

/// `r` is the first `limit` elements of `e` in ranking order.
pub open spec fn is_top_ranking(r: Seq<(Seq<char>, nat)>, e: Set<(Seq<char>, nat)>, limit: nat) -> bool {
    &&& r.len() <= limit
    &&& r.len() < limit ==> forall|x: (Seq<char>, nat)| e.contains(x) ==> r.contains(x)
    &&& forall|i: int| 0 <= i < r.len() ==> e.contains(#[trigger] r[i])
    &&& forall|i: int, j: int| 0 <= i < j < r.len() ==> ranks_before(#[trigger] r[i], #[trigger] r[j])
    &&& forall|x: (Seq<char>, nat)|
        e.contains(x) && !r.contains(x) ==> forall|i: int| 0 <= i < r.len() ==> ranks_before(#[trigger] r[i], x)
}

/// `ranks_before` is a strict total order.
pub proof fn lemma_rank_order(a: (Seq<char>, nat), b: (Seq<char>, nat), c: (Seq<char>, nat))
    ensures
        !ranks_before(a, a),
        ranks_before(a, b) ==> !ranks_before(b, a),
        a != b ==> ranks_before(a, b) || ranks_before(b, a),
        ranks_before(a, b) && ranks_before(b, c) ==> ranks_before(a, c),
{
    lemma_lex_order(a.0, b.0, c.0);
}

proof fn lemma_total_step(s: Seq<AnimeDataWrapper>, k: int, g: Seq<char>)
    requires
        0 <= k < s.len(),
    ensures
        genre_total(s.take(k + 1), g) == genre_total(s.take(k), g) + if has_genre(s[k], g) {
            s[k].count as nat
        } else {
            0nat
        },
        all_genres(s.take(k + 1)).contains(g) <==> (all_genres(s.take(k)).contains(g) || has_genre(s[k], g)),
{
    assert(s.take(k + 1).drop_last() =~= s.take(k));
    assert(s.take(k + 1).last() == s[k]);
    if all_genres(s.take(k + 1)).contains(g) {
        let i = choose|i: int| 0 <= i < k + 1 && #[trigger] has_genre(s.take(k + 1)[i], g);
        if i < k {
            assert(s.take(k)[i] == s.take(k + 1)[i]);
        }
    }
    if all_genres(s.take(k)).contains(g) {
        let i = choose|i: int| 0 <= i < k && #[trigger] has_genre(s.take(k)[i], g);
        assert(s.take(k + 1)[i] == s.take(k)[i]);
    }
    if has_genre(s[k], g) {
        assert(s.take(k + 1)[k] == s[k]);
    }
}

proof fn lemma_total_mono(s: Seq<AnimeDataWrapper>, k: int, g: Seq<char>)
    requires
        0 <= k <= s.len(),
    ensures
        genre_total(s.take(k), g) <= genre_total(s, g),
    decreases s.len() - k,
{
    if k < s.len() {
        lemma_total_step(s, k, g);
        lemma_total_mono(s, k + 1, g);
    } else {
        assert(s.take(k) =~= s);
    }
}

proof fn lemma_total_absent(s: Seq<AnimeDataWrapper>, g: Seq<char>)
    requires
        !all_genres(s).contains(g),
    ensures
        genre_total(s, g) == 0,
    decreases s.len(),
{
    if s.len() > 0 {
        assert(!has_genre(s[s.len() - 1], g));
        assert forall|i: int| 0 <= i < s.drop_last().len() implies !#[trigger] has_genre(s.drop_last()[i], g) by {
            assert(s.drop_last()[i] == s[i]);
        }
        lemma_total_absent(s.drop_last(), g);
    }
}

/// The position of the pair named `x`, if any.
fn find_name(acc: &Vec<(String, u32)>, x: &String) -> (r: Option<usize>)
    ensures
        r matches Some(p) ==> p < acc@.len() && acc@[p as int].0@ == x@,
        r is None ==> forall|p: int| 0 <= p < acc@.len() ==> acc@[p].0@ != x@,
{
    let mut p: usize = 0;
    while p < acc.len()
        invariant
            p <= acc@.len(),
            forall|q: int| 0 <= q < p ==> acc@[q].0@ != x@,
        decreases acc.len() - p,
    {
        if acc[p].0 == *x {
            return Some(p);
        }
        p = p + 1;
    }
    None
}

/// The names of a list of (name, count) pairs.
pub open spec fn pair_names(v: Seq<(String, u32)>) -> Seq<Seq<char>> {
    v.map_values(|p: (String, u32)| p.0@)
}

/// Each genre with its total views, in no particular order; `None` when a
/// total passes `u32::MAX`.
fn genre_totals(map: &TallyMap) -> (r: Option<Vec<(String, u32)>>)
    requires
        map.wf(),
    ensures
        r is None <==> exists|g: Seq<char>| all_genres(map.entries()).contains(g) && genre_total(map.entries(), g) > u32::MAX,
        r matches Some(v) ==> pair_names(v@).no_duplicates() && pair_views(v@).to_set() == genre_counts(map.entries()),
{
    proof {
        map.lemma_wf();
    }
    let ghost s = map.entries();
    let mut acc: Vec<(String, u32)> = Vec::new();
    let mut k: usize = 0;
    while k < map.len()
        invariant
            k <= s.len(),
            s == map.entries(),
            TallyMap::wf_entries(s),
            pair_names(acc@).no_duplicates(),
            forall|g: Seq<char>| pair_names(acc@).contains(g) <==> all_genres(s.take(k as int)).contains(g),
            forall|p: int| 0 <= p < acc@.len() ==> (#[trigger] acc@[p]).1 == genre_total(s.take(k as int), acc@[p].0@),
        decreases s.len() - k,
    {
        let t = map.entry(k);
        let ghost gk = t.anime_data.genre_views();
        let count = t.count;
        let mut j: usize = 0;
        while j < t.anime_data.genres.len()
            invariant
                0 <= k < s.len(),
                *t == s[k as int],
                s == map.entries(),
                TallyMap::wf_entries(s),
                count == t.count,
                gk == t.anime_data.genre_views(),
                gk.no_duplicates(),
                j <= gk.len(),
                pair_names(acc@).no_duplicates(),
                forall|g: Seq<char>| pair_names(acc@).contains(g) <==> (all_genres(s.take(k as int)).contains(g) || gk.take(j as int).contains(g)),
                forall|p: int| 0 <= p < acc@.len() ==> (#[trigger] acc@[p]).1 == genre_total(s.take(k as int), acc@[p].0@) + if gk.take(j as int).contains(acc@[p].0@) {
                    count as nat
                } else {
                    0nat
                },
            decreases gk.len() - j,
        {
            let x = &t.anime_data.genres[j];
            let ghost xs = x@;
            assert(gk[j as int] == xs);
            assert(!gk.take(j as int).contains(xs)) by {
                if gk.take(j as int).contains(xs) {
                    let q = choose|q: int| 0 <= q < j && #[trigger] gk.take(j as int)[q] == xs;
                    assert(gk[q] == gk[j as int]);
                }
            }
            assert(gk.take(j + 1) =~= gk.take(j as int).push(xs));
            let ghost old_acc = acc@;
            match find_name(&acc, x) {
                Some(p) => {
                    assert(pair_names(acc@)[p as int] == xs);
                    let v = acc[p].1;
                    if v > u32::MAX - count {
                        proof {
                            lemma_total_step(s, k as int, xs);
                            assert(has_genre(s[k as int], xs));
                            lemma_total_mono(s, k + 1, xs);
                            assert(all_genres(s).contains(xs)) by {
                                assert(has_genre(s[k as int], xs));
                            }
                        }
                        return None;
                    }
                    acc.set(p, (x.clone(), v + count));
                    proof {
                        assert(pair_names(acc@) =~= pair_names(old_acc));
                        assert forall|q: int| 0 <= q < acc@.len() implies (#[trigger] acc@[q]).1 == genre_total(s.take(k as int), acc@[q].0@) + if gk.take(j + 1).contains(acc@[q].0@) {
                            count as nat
                        } else {
                            0nat
                        } by {
                            if q != p {
                                assert(acc@[q] == old_acc[q]);
                                assert(pair_names(old_acc)[q] != pair_names(old_acc)[p as int]);
                                assert(gk.take(j + 1).contains(acc@[q].0@) == gk.take(j as int).contains(acc@[q].0@));
                            } else {
                                assert(gk.take(j + 1)[j as int] == xs);
                            }
                        }
                    }
                },
                None => {
                    proof {
                        assert(!pair_names(acc@).contains(xs)) by {
                            if pair_names(acc@).contains(xs) {
                                let q = choose|q: int| 0 <= q < pair_names(acc@).len() && #[trigger] pair_names(acc@)[q] == xs;
                                assert(acc@[q].0@ == xs);
                            }
                        }
                        lemma_total_absent(s.take(k as int), xs);
                    }
                    acc.push((x.clone(), count));
                    proof {
                        assert(pair_names(acc@) =~= pair_names(old_acc).push(xs));
                        assert forall|q: int| 0 <= q < acc@.len() implies (#[trigger] acc@[q]).1 == genre_total(s.take(k as int), acc@[q].0@) + if gk.take(j + 1).contains(acc@[q].0@) {
                            count as nat
                        } else {
                            0nat
                        } by {
                            if q < old_acc.len() {
                                assert(acc@[q] == old_acc[q]);
                                assert(pair_names(old_acc)[q] == acc@[q].0@);
                                assert(acc@[q].0@ != xs);
                                assert(gk.take(j + 1).contains(acc@[q].0@) == gk.take(j as int).contains(acc@[q].0@));
                            } else {
                                assert(gk.take(j + 1)[j as int] == xs);
                            }
                        }
                    }
                },
            }
            proof {
                assert forall|g: Seq<char>| pair_names(acc@).contains(g) <==> (all_genres(s.take(k as int)).contains(g) || gk.take(j + 1).contains(g)) by {
                    if g != xs {
                        if pair_names(acc@).contains(g) {
                            let q = choose|q: int| 0 <= q < pair_names(acc@).len() && #[trigger] pair_names(acc@)[q] == g;
                            if q < old_acc.len() {
                                assert(pair_names(old_acc)[q] == g);
                            }
                        }
                        if pair_names(old_acc).contains(g) {
                            let q = choose|q: int| 0 <= q < pair_names(old_acc).len() && #[trigger] pair_names(old_acc)[q] == g;
                            assert(pair_names(acc@)[q] == g);
                        }
                        assert(gk.take(j + 1).contains(g) == gk.take(j as int).contains(g));
                    } else {
                        assert(gk.take(j + 1)[j as int] == xs);
                        if pair_names(old_acc).contains(g) {
                            let q = choose|q: int| 0 <= q < pair_names(old_acc).len() && #[trigger] pair_names(old_acc)[q] == g;
                            assert(pair_names(acc@)[q] == g);
                        } else {
                            assert(pair_names(acc@)[acc@.len() - 1] == g);
                        }
                    }
                }
            }
            j = j + 1;
        }
        proof {
            assert(gk.take(j as int) =~= gk);
            assert forall|g: Seq<char>| pair_names(acc@).contains(g) <==> all_genres(s.take(k + 1)).contains(g) by {
                lemma_total_step(s, k as int, g);
            }
            assert forall|p: int| 0 <= p < acc@.len() implies (#[trigger] acc@[p]).1 == genre_total(s.take(k + 1), acc@[p].0@) by {
                lemma_total_step(s, k as int, acc@[p].0@);
            }
        }
        k = k + 1;
    }
    proof {
        assert(s.take(k as int) =~= s);
        assert forall|g: Seq<char>| all_genres(s).contains(g) implies genre_total(s, g) <= u32::MAX by {
            assert(all_genres(s.take(k as int)).contains(g));
            assert(pair_names(acc@).contains(g));
            let q = choose|q: int| 0 <= q < pair_names(acc@).len() && #[trigger] pair_names(acc@)[q] == g;
            assert(acc@[q].0@ == g);
        }
        assert forall|x: (Seq<char>, nat)| pair_views(acc@).to_set().contains(x) <==> genre_counts(s).contains(x) by {
            if pair_views(acc@).to_set().contains(x) {
                let q = choose|q: int| 0 <= q < pair_views(acc@).len() && #[trigger] pair_views(acc@)[q] == x;
                assert(pair_names(acc@)[q] == x.0);
                assert(pair_names(acc@).contains(x.0));
                assert(all_genres(s.take(k as int)).contains(x.0));
                assert(acc@[q].1 == genre_total(s.take(k as int), acc@[q].0@));
            }
            if genre_counts(s).contains(x) {
                assert(all_genres(s.take(k as int)).contains(x.0));
                assert(pair_names(acc@).contains(x.0));
                let q = choose|q: int| 0 <= q < pair_names(acc@).len() && #[trigger] pair_names(acc@)[q] == x.0;
                assert(acc@[q].0@ == x.0);
                assert(acc@[q].1 == genre_total(s.take(k as int), acc@[q].0@));
                assert(pair_views(acc@)[q] == x);
            }
        }
        assert(pair_views(acc@).to_set() =~= genre_counts(s));
    }
    Some(acc)
}

/// Whether `a` ranks before `b`.
fn ranks_before_exec(a: &(String, u32), b: &(String, u32)) -> (r: bool)
    ensures
        r == ranks_before((a.0@, a.1 as nat), (b.0@, b.1 as nat)),
{
    a.1 > b.1 || (a.1 == b.1 && str_lt(a.0.as_str(), b.0.as_str()))
}

/// Each element comes strictly before the next ones in ranking order.
pub open spec fn ranked(s: Seq<(Seq<char>, nat)>) -> bool {
    forall|i: int, j: int| 0 <= i < j < s.len() ==> ranks_before(#[trigger] s[i], #[trigger] s[j])
}

/// The pairs of `v` in ranking order.
fn sort_ranking(v: Vec<(String, u32)>) -> (r: Vec<(String, u32)>)
    requires
        pair_views(v@).no_duplicates(),
    ensures
        ranked(pair_views(r@)),
        pair_views(r@).to_set() == pair_views(v@).to_set(),
{
    let mut r: Vec<(String, u32)> = Vec::new();
    let ghost pv = pair_views(v@);
    for x in it: v
        invariant
            it.seq() == v@,
            pv == pair_views(v@),
            pv.no_duplicates(),
            ranked(pair_views(r@)),
            pair_views(r@).to_set() == pv.take(it.index()).to_set(),
    {
        let ghost i = it.index();
        let ghost xs = (x.0@, x.1 as nat);
        assert(pv[i] == xs);
        let mut p: usize = 0;
        while p < r.len() && ranks_before_exec(&r[p], &x)
            invariant
                p <= r@.len(),
                xs == (x.0@, x.1 as nat),
                forall|k: int| 0 <= k < p ==> ranks_before(#[trigger] pair_views(r@)[k], xs),
            decreases r.len() - p,
        {
            assert(pair_views(r@)[p as int] == (r@[p as int].0@, r@[p as int].1 as nat));
            p = p + 1;
        }
        proof {
            assert(!pair_views(r@).contains(xs)) by {
                if pair_views(r@).contains(xs) {
                    assert(pair_views(r@).to_set().contains(xs));
                    let k = choose|k: int| 0 <= k < pv.take(i).len() && #[trigger] pv.take(i)[k] == xs;
                    assert(pv[k] == pv[i]);
                }
            }
            if p < r@.len() {
                assert(pair_views(r@)[p as int] == (r@[p as int].0@, r@[p as int].1 as nat));
            }
            assert forall|k: int| p <= k < r@.len() implies ranks_before(xs, #[trigger] pair_views(r@)[k]) by {
                let a = pair_views(r@)[p as int];
                let b = pair_views(r@)[k];
                lemma_rank_order(a, xs, b);
                lemma_rank_order(xs, a, b);
            }
        }
        let ghost old_r = pair_views(r@);
        r.insert(p, x);
        proof {
            assert(pair_views(r@) =~= old_r.insert(p as int, xs));
            assert forall|a: int, b: int| 0 <= a < b < pair_views(r@).len() implies ranks_before(
                #[trigger] pair_views(r@)[a],
                #[trigger] pair_views(r@)[b],
            ) by {
                if a < p && b > p {
                    lemma_rank_order(old_r[a], xs, old_r[b - 1]);
                }
            }
            assert(pv.take(i + 1) =~= pv.take(i).push(xs));
            crate::shard_processor::lemma_push_to_set(pv.take(i), xs);
            assert(pair_views(r@).to_set() =~= old_r.to_set().insert(xs)) by {
                assert forall|t: (Seq<char>, nat)| pair_views(r@).to_set().contains(t) implies old_r.to_set().insert(xs).contains(t) by {
                    let k = choose|k: int| 0 <= k < pair_views(r@).len() && #[trigger] pair_views(r@)[k] == t;
                    if k < p {
                        assert(old_r[k] == t);
                    } else if k > p {
                        assert(old_r[k - 1] == t);
                    }
                }
                assert forall|t: (Seq<char>, nat)| old_r.to_set().insert(xs).contains(t) implies pair_views(r@).to_set().contains(t) by {
                    if t == xs {
                        assert(pair_views(r@)[p as int] == t);
                    } else {
                        let k = choose|k: int| 0 <= k < old_r.len() && #[trigger] old_r[k] == t;
                        if k < p {
                            assert(pair_views(r@)[k] == t);
                        } else {
                            assert(pair_views(r@)[k + 1] == t);
                        }
                    }
                }
            }
        }
    }
    assert(pv.take(pv.len() as int) =~= pv);
    r
}

/// A strictly ranked sequence has no element twice.
proof fn lemma_ranked_no_duplicates(s: Seq<(Seq<char>, nat)>)
    requires
        ranked(s),
    ensures
        s.no_duplicates(),
{
    assert forall|i: int, j: int| 0 <= i < s.len() && 0 <= j < s.len() && i != j implies s[i] != s[j] by {
        lemma_rank_order(s[i], s[j], s[j]);
        lemma_rank_order(s[j], s[i], s[i]);
    }
}

/// A ranked sequence with the elements of `e`, cut to `limit` elements, is
/// the top of `e`.
proof fn lemma_take_top(q: Seq<(Seq<char>, nat)>, e: Set<(Seq<char>, nat)>, limit: nat)
    requires
        ranked(q),
        q.to_set() == e,
    ensures
        is_top_ranking(q.take(if q.len() < limit { q.len() as int } else { limit as int }), e, limit),
{
    let n: int = if q.len() < limit { q.len() as int } else { limit as int };
    let r = q.take(n);
    lemma_ranked_no_duplicates(q);
    assert forall|i: int| 0 <= i < r.len() implies e.contains(#[trigger] r[i]) by {
        assert(r[i] == q[i]);
        assert(q.to_set().contains(q[i]));
    }
    assert forall|i: int, j: int| 0 <= i < j < r.len() implies ranks_before(#[trigger] r[i], #[trigger] r[j]) by {
        assert(r[i] == q[i]);
        assert(r[j] == q[j]);
    }
    assert forall|x: (Seq<char>, nat)| e.contains(x) && !r.contains(x) implies forall|i: int| 0 <= i < r.len() ==> ranks_before(#[trigger] r[i], x) by {
        assert(q.to_set().contains(x));
        let m = choose|m: int| 0 <= m < q.len() && #[trigger] q[m] == x;
        if m < n {
            assert(r[m] == x);
        }
        assert forall|i: int| 0 <= i < r.len() implies ranks_before(#[trigger] r[i], x) by {
            assert(r[i] == q[i]);
        }
    }
    if r.len() < limit {
        assert(r =~= q);
        assert forall|x: (Seq<char>, nat)| e.contains(x) implies r.contains(x) by {
            assert(q.to_set().contains(x));
        }
    }
}

/// The ranking computations over the view counts.
#[derive(Debug, Clone)]
pub struct DataTransformer;

impl DataTransformer {
    /// The genres with the most views, at most `TOP_GENRES_LIMIT` of them:
    /// more views first, then by name. `None` when the views of a genre pass
    /// `u32::MAX`.
    pub fn get_top_genres(map: &TallyMap) -> (r: Option<Vec<(String, u32)>>)
        requires
            map.wf(),
        ensures
            r is None <==> exists|g: Seq<char>| all_genres(map.entries()).contains(g) && genre_total(map.entries(), g) > u32::MAX,
            r matches Some(v) ==> is_top_ranking(pair_views(v@), genre_counts(map.entries()), TOP_GENRES_LIMIT as nat),
    {
        let totals = match genre_totals(map) {
            Some(t) => t,
            None => return None,
        };
        proof {
            assert(pair_views(totals@).no_duplicates()) by {
                assert forall|i: int, j: int| 0 <= i < pair_views(totals@).len() && 0 <= j < pair_views(totals@).len() && i != j implies pair_views(totals@)[i] != pair_views(totals@)[j] by {
                    assert(pair_names(totals@)[i] != pair_names(totals@)[j]);
                }
            }
        }
        let mut sorted = sort_ranking(totals);
        let ghost q = pair_views(sorted@);
        let n = if sorted.len() < TOP_GENRES_LIMIT {
            sorted.len()
        } else {
            TOP_GENRES_LIMIT
        };
        sorted.truncate(n);
        proof {
            lemma_take_top(q, genre_counts(map.entries()), TOP_GENRES_LIMIT as nat);
            assert(pair_views(sorted@) =~= q.take(n as int));
        }
        Some(sorted)
    }
}

} // verus!
