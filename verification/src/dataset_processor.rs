//! Putting together the tallies that the shards of a dataset produced.
use vstd::prelude::*;
use crate::dataset_splitter::{base_name, path_file_name, shard_path, shard_path_of};
use crate::shard_processor::{merge_all, merge_step, ids_of, counted_row, views_in, tallies_rows, AnimeDataWrapper, TallyMap};
use crate::text::push_str;

verus! {

/// The views counted for the anime `id` in a list of tallies.
pub open spec fn tally_count(s: Seq<AnimeDataWrapper>, id: u32) -> nat
    decreases s.len(),
{
    if s.len() == 0 {
        0
    } else {
        tally_count(s.drop_last(), id) + if s.last().anime_data.anime_id == id {
            s.last().count as nat
        } else {
            0
        }
    }
}

/// The views of `id` that one tally holds.
pub open spec fn views_of(t: AnimeDataWrapper, id: u32) -> nat {
    if t.anime_data.anime_id == id {
        t.count as nat
    } else {
        0
    }
}

/// The tallies of several shards added up, in order, starting from none;
/// `None` when some count would pass `u32::MAX`.
pub open spec fn merge_each(maps: Seq<Seq<AnimeDataWrapper>>) -> Option<Seq<AnimeDataWrapper>>
    decreases maps.len(),
{
    if maps.len() == 0 {
        Some(Seq::empty())
    } else {
        match merge_each(maps.drop_last()) {
            Some(m) => merge_all(m, maps.last()),
            None => None,
        }
    }
}

/// The views of `id` over all the lists.
pub open spec fn total_count(maps: Seq<Seq<AnimeDataWrapper>>, id: u32) -> nat
    decreases maps.len(),
{
    if maps.len() == 0 {
        0
    } else {
        total_count(maps.drop_last(), id) + tally_count(maps.last(), id)
    }
}

/// The tallies that several maps hold.
pub open spec fn entries_of(maps: Seq<TallyMap>) -> Seq<Seq<AnimeDataWrapper>> {
    maps.map_values(|t: TallyMap| t.entries())
}

pub proof fn lemma_tally_count_update(s: Seq<AnimeDataWrapper>, i: int, x: AnimeDataWrapper, id: u32)
    requires
        0 <= i < s.len(),
    ensures
        tally_count(s.update(i, x), id) + views_of(s[i], id) == tally_count(s, id) + views_of(x, id),
    decreases s.len(),
{
    if i == s.len() - 1 {
        assert(s.update(i, x).drop_last() =~= s.drop_last());
    } else {
        assert(s.update(i, x).drop_last() =~= s.drop_last().update(i, x));
        lemma_tally_count_update(s.drop_last(), i, x, id);
    }
}

proof fn lemma_merge_step_count(a: Seq<AnimeDataWrapper>, t: AnimeDataWrapper, id: u32)
    requires
        merge_step(a, t) is Some,
    ensures
        tally_count(merge_step(a, t)->0, id) == tally_count(a, id) + views_of(t, id),
{
    let tid = t.anime_data.anime_id;
    if ids_of(a).contains(tid) {
        let i = choose|i: int| 0 <= i < a.len() && #[trigger] a[i].anime_data.anime_id == tid;
        let x = AnimeDataWrapper { count: (a[i].count + t.count) as u32, ..a[i] };
        lemma_tally_count_update(a, i, x, id);
    } else {
        assert(a.push(t).drop_last() =~= a);
    }
}

proof fn lemma_merge_all_count(a: Seq<AnimeDataWrapper>, b: Seq<AnimeDataWrapper>, id: u32)
    requires
        merge_all(a, b) is Some,
    ensures
        tally_count(merge_all(a, b)->0, id) == tally_count(a, id) + tally_count(b, id),
    decreases b.len(),
{
    if b.len() > 0 {
        lemma_merge_all_count(a, b.drop_last(), id);
        lemma_merge_step_count(merge_all(a, b.drop_last())->0, b.last(), id);
    }
}

/// Merging the tallies of the shards loses no view and counts none twice:
/// for every anime, the merged tally holds as many views as all the shards'
/// tallies together.
pub proof fn law_merge_counts_every_view(maps: Seq<Seq<AnimeDataWrapper>>, id: u32)
    requires
        merge_each(maps) is Some,
    ensures
        tally_count(merge_each(maps)->0, id) == total_count(maps, id),
    decreases maps.len(),
{
    if maps.len() > 0 {
        law_merge_counts_every_view(maps.drop_last(), id);
        lemma_merge_all_count(merge_each(maps.drop_last())->0, maps.last(), id);
    }
}

/// The records of several shards one after another.
pub open spec fn concat_all<A>(s: Seq<Seq<A>>) -> Seq<A>
    decreases s.len(),
{
    if s.len() == 0 {
        Seq::empty()
    } else {
        concat_all(s.drop_last()) + s.last()
    }
}

proof fn lemma_views_prefix(
    a: Seq<Seq<Seq<char>>>,
    sa: Seq<bool>,
    b: Seq<Seq<Seq<char>>>,
    sb: Seq<bool>,
    header: bool,
    n: int,
    id: u32,
)
    requires
        0 <= n <= a.len(),
        a.len() == sa.len(),
    ensures
        views_in(a + b, sa + sb, header, n, id) == views_in(a, sa, header, n, id),
    decreases n,
{
    if n > 0 {
        lemma_views_prefix(a, sa, b, sb, header, n - 1, id);
        assert((a + b)[n - 1] == a[n - 1]);
        assert((sa + sb)[n - 1] == sa[n - 1]);
        assert(counted_row(a + b, sa + sb, header, n - 1) == counted_row(a, sa, header, n - 1));
    }
}

proof fn lemma_views_concat(
    a: Seq<Seq<Seq<char>>>,
    sa: Seq<bool>,
    b: Seq<Seq<Seq<char>>>,
    sb: Seq<bool>,
    header: bool,
    m: int,
    id: u32,
)
    requires
        a.len() == sa.len(),
        b.len() == sb.len(),
        0 <= m <= b.len(),
        header ==> a.len() > 0,
    ensures
        views_in(a + b, sa + sb, header, a.len() + m, id) == views_in(a, sa, header, a.len() as int, id)
            + views_in(b, sb, false, m, id),
    decreases m,
{
    if m == 0 {
        lemma_views_prefix(a, sa, b, sb, header, a.len() as int, id);
    } else {
        lemma_views_concat(a, sa, b, sb, header, m - 1, id);
        let i = a.len() + m - 1;
        assert((a + b)[i] == b[m - 1]);
        assert((sa + sb)[i] == sb[m - 1]);
        assert(counted_row(a + b, sa + sb, header, i) == counted_row(b, sb, false, m - 1));
    }
}

proof fn lemma_total_is_views(
    maps: Seq<Seq<AnimeDataWrapper>>,
    recs: Seq<Seq<Seq<Seq<char>>>>,
    scores: Seq<Seq<bool>>,
    id: u32,
)
    requires
        maps.len() == recs.len(),
        recs.len() == scores.len(),
        recs.len() > 0 ==> recs[0].len() > 0,
        forall|j: int|
            0 <= j < recs.len() ==> (#[trigger] recs[j]).len() == scores[j].len() && tallies_rows(
                maps[j],
                recs[j],
                scores[j],
                j == 0,
                recs[j].len() as int,
            ),
    ensures
        concat_all(recs).len() == concat_all(scores).len(),
        recs.len() > 0 ==> concat_all(recs).len() >= recs[0].len(),
        total_count(maps, id) == views_in(
            concat_all(recs),
            concat_all(scores),
            true,
            concat_all(recs).len() as int,
            id,
        ),
    decreases maps.len(),
{
    let k = maps.len();
    if k == 0 {
    } else if k == 1 {
        assert(recs[0].len() == scores[0].len());
        assert(concat_all(recs) =~= recs[0]) by {
            assert(concat_all(recs.drop_last()) =~= Seq::<Seq<Seq<char>>>::empty());
        }
        assert(concat_all(scores) =~= scores[0]) by {
            assert(concat_all(scores.drop_last()) =~= Seq::<bool>::empty());
        }
        assert(total_count(maps.drop_last(), id) == 0);
        assert(maps.last() == maps[0]);
        assert(tally_count(maps[0], id) == views_in(recs[0], scores[0], true, recs[0].len() as int, id));
    } else {
        let (m0, r0, s0) = (maps.drop_last(), recs.drop_last(), scores.drop_last());
        assert forall|j: int| 0 <= j < r0.len() implies (#[trigger] r0[j]).len() == s0[j].len() && tallies_rows(
            m0[j],
            r0[j],
            s0[j],
            j == 0,
            r0[j].len() as int,
        ) by {
            assert(r0[j] == recs[j]);
            assert(s0[j] == scores[j]);
            assert(m0[j] == maps[j]);
        }
        assert(r0[0] == recs[0]);
        lemma_total_is_views(m0, r0, s0, id);
        let last = k - 1;
        assert(recs[last].len() == scores[last].len());
        assert(tallies_rows(maps[last], recs[last], scores[last], last == 0, recs[last].len() as int));
        assert(tally_count(maps.last(), id) == views_in(recs.last(), scores.last(), false, recs.last().len() as int, id));
        lemma_views_concat(
            concat_all(r0),
            concat_all(s0),
            recs.last(),
            scores.last(),
            true,
            recs.last().len() as int,
            id,
        );
    }
}

/// Every data row of a dataset is counted once, however many shards it was
/// split into: when each shard's tally counts its rows, only the first
/// shard's first row being the dataset's header, the tallies merged hold
/// for every anime as many views as the rows of all the shards, one after
/// another and but for that header, count for it.
pub proof fn law_shards_count_every_data_row(
    maps: Seq<Seq<AnimeDataWrapper>>,
    recs: Seq<Seq<Seq<Seq<char>>>>,
    scores: Seq<Seq<bool>>,
    id: u32,
)
    requires
        maps.len() == recs.len(),
        recs.len() == scores.len(),
        recs.len() > 0 ==> recs[0].len() > 0,
        forall|j: int|
            0 <= j < recs.len() ==> (#[trigger] recs[j]).len() == scores[j].len() && tallies_rows(
                maps[j],
                recs[j],
                scores[j],
                j == 0,
                recs[j].len() as int,
            ),
        merge_each(maps) is Some,
    ensures
        tally_count(merge_each(maps)->0, id) == views_in(
            concat_all(recs),
            concat_all(scores),
            true,
            concat_all(recs).len() as int,
            id,
        ),
{
    law_merge_counts_every_view(maps, id);
    lemma_total_is_views(maps, recs, scores, id);
}

proof fn lemma_merge_each_none_extends(maps: Seq<Seq<AnimeDataWrapper>>, k: int)
    requires
        0 <= k <= maps.len(),
        merge_each(maps.take(k)) is None,
    ensures
        merge_each(maps) is None,
    decreases maps.len() - k,
{
    if k < maps.len() {
        assert(maps.take(k + 1).drop_last() =~= maps.take(k));
        lemma_merge_each_none_extends(maps, k + 1);
    } else {
        assert(maps.take(k) =~= maps);
    }
}

/// What the search for a dataset's shard files does next.
#[derive(Debug, Clone, Copy, PartialEq, Eq, Structural)]
pub enum ShardSearch {
    /// Take this shard file and look for the next one.
    Take,
    /// The shards found so far are all of them.
    Done,
    /// Not even the first shard exists.
    NoShards,
}

/// The shard files are numbered from 0 and taken up to the first one that
/// is missing; finding none at all is an error.
pub open spec fn shard_search_spec(found: u64, exists: bool) -> ShardSearch {
    if exists {
        ShardSearch::Take
    } else if found == 0 {
        ShardSearch::NoShards
    } else {
        ShardSearch::Done
    }
}

/// The next step of the search, once `found` shard files have been taken
/// and shard file number `found` does or does not exist.
pub fn shard_search_step(found: u64, exists: bool) -> (r: ShardSearch)
    ensures
        r == shard_search_spec(found, exists),
{
    if exists {
        ShardSearch::Take
    } else if found == 0 {
        ShardSearch::NoShards
    } else {
        ShardSearch::Done
    }
}

/// The views counted over a whole dataset.
pub struct DatasetProcessor {
    anime_data_map: TallyMap,
}

impl DatasetProcessor {
    /// No views counted yet.
    pub fn new() -> (r: Self)
        ensures
            r.wf(),
            r.tally().entries() == Seq::<AnimeDataWrapper>::empty(),
    {
        DatasetProcessor { anime_data_map: TallyMap::new() }
    }

    pub closed spec fn tally(&self) -> TallyMap {
        self.anime_data_map
    }

    pub closed spec fn wf(&self) -> bool {
        self.anime_data_map.wf()
    }

    /// The views counted so far.
    pub fn anime_data_map(&self) -> (r: &TallyMap)
        ensures
            *r == self.tally(),
    {
        &self.anime_data_map
    }

    /// Replaces the counted views with the tallies of the shards added up in
    /// order; with no tallies at all, nothing changes. `Err` names an anime
    /// whose count would pass `u32::MAX`, and then nothing changes either.
    pub fn merge_local_maps(&mut self, local_maps: Vec<TallyMap>) -> (r: Result<(), u32>)
        requires
            old(self).wf(),
            forall|i: int| 0 <= i < local_maps.len() ==> (#[trigger] local_maps@[i]).wf(),
        ensures
            final(self).wf(),
            local_maps.len() == 0 ==> r is Ok && final(self).tally() == old(self).tally(),
            local_maps.len() > 0 ==> (r is Ok <==> merge_each(entries_of(local_maps@)) is Some),
            local_maps.len() > 0 && r is Ok ==> Some(final(self).tally().entries()) == merge_each(
                entries_of(local_maps@),
            ),
            r is Err ==> final(self).tally() == old(self).tally(),
    {
        if local_maps.len() == 0 {
            return Ok(());
        }
        let ghost maps = local_maps@;
        let ghost all = entries_of(maps);
        let mut merged = TallyMap::new();
        for m in it: local_maps
            invariant
                it.seq() == maps,
                all == entries_of(maps),
                forall|i: int| 0 <= i < maps.len() ==> (#[trigger] maps[i]).wf(),
                merged.wf(),
                merge_each(all.take(it.index() as int)) == Some(merged.entries()),
                self.wf(),
                self.tally() == old(self).tally(),
        {
            let ghost k = it.index() as int;
            assert(m == maps[k]);
            assert(all.take(k + 1).drop_last() =~= all.take(k));
            assert(all.take(k + 1).last() == m.entries());
            match merged.merge(m) {
                Ok(()) => {},
                Err(id) => {
                    proof {
                        lemma_merge_each_none_extends(all, k + 1);
                    }
                    return Err(id);
                },
            }
        }
        assert(all.take(all.len() as int) =~= all);
        self.anime_data_map = merged;
        Ok(())
    }

    /// The path of shard number `index` of the dataset at `dataset_path`, in
    /// the directory `shard_dir`. `Err` when the dataset's path has no file
    /// name.
    pub fn shard_file(shard_dir: &str, dataset_path: &str, index: u64) -> (r: Result<String, String>)
        ensures
            r is Ok <==> path_file_name(dataset_path@) is Some,
            r matches Ok(p) ==> p@ == shard_path_of(shard_dir@, path_file_name(dataset_path@)->0, index as nat),
            r matches Err(e) ==> e@ == "Nombre de archivo inválido"@,
    {
        Self::shard_file_named(shard_dir, base_name(dataset_path), index)
    }

    /// The path of shard number `index` in the directory `shard_dir`, for a
    /// dataset whose file name is `file_name`; `Err` when it has none.
    pub fn shard_file_named(shard_dir: &str, file_name: Option<String>, index: u64) -> (r: Result<String, String>)
        ensures
            match file_name {
                Some(n) => r matches Ok(p) && p@ == shard_path_of(shard_dir@, n@, index as nat),
                None => r matches Err(e) && e@ == "Nombre de archivo inválido"@,
            },
    {
        match file_name {
            Some(base) => Ok(shard_path(shard_dir, base.as_str(), index)),
            None => {
                let mut e = String::new();
                push_str(&mut e, "Nombre de archivo inválido");
                Err(e)
            },
        }
    }
}

} // verus!
