//! Turning the rows of a dataset shard into per-anime view counts, and
//! merging the counts of several shards.
use vstd::prelude::*;
use std::collections::HashMap;
use crate::anime_data::AnimeData;
use crate::text::{parse_u32, parse_unsigned, views};
use crate::anime_data::genre_set;
use crate::dataset_processor::{lemma_tally_count_update, tally_count, views_of};

verus! {

broadcast use vstd::std_specs::hash::group_hash_axioms;

/// The columns of a dataset row that the processing reads.
pub enum CsvIndex {
    AnimeId,
    UserScore,
    Title,
    AnimeType,
    Source,
    Genres,
}

impl CsvIndex {
    /// The zero-based column of the field.
    pub open spec fn spec_column(&self) -> nat {
        match self {
            CsvIndex::AnimeId => 1,
            CsvIndex::UserScore => 2,
            CsvIndex::Title => 5,
            CsvIndex::AnimeType => 6,
            CsvIndex::Source => 7,
            CsvIndex::Genres => 12,
        }
    }

    /// The zero-based column of the field.
    pub fn column(&self) -> (r: usize)
        ensures
            r == self.spec_column(),
    {
        match self {
            CsvIndex::AnimeId => 1,
            CsvIndex::UserScore => 2,
            CsvIndex::Title => 5,
            CsvIndex::AnimeType => 6,
            CsvIndex::Source => 7,
            CsvIndex::Genres => 12,
        }
    }
}

/// One anime and the number of views of it that were counted.
#[derive(Debug, Clone)]
pub struct AnimeDataWrapper {
    pub anime_data: AnimeData,
    pub count: u32,
}

impl AnimeDataWrapper {
    /// An anime with `count` views counted.
    pub fn new(anime_data: AnimeData, count: u32) -> (r: Self)
        ensures
            r.anime_data == anime_data,
            r.count == count,
    {
        AnimeDataWrapper { anime_data, count }
    }

    /// The anime.
    pub fn get_anime_data(&self) -> (r: &AnimeData)
        ensures
            *r == self.anime_data,
    {
        &self.anime_data
    }

    /// The views counted.
    pub fn get_count(&self) -> (r: u32)
        ensures
            r == self.count,
    {
        self.count
    }

    /// Counts one more view.
    pub fn add_count(&mut self)
        requires
            old(self).count < u32::MAX,
        ensures
            final(self).count == old(self).count + 1,
            final(self).anime_data == old(self).anime_data,
    {
        self.count = self.count + 1;
    }

    /// Counts `amount` more views.
    pub fn add_count_by(&mut self, amount: u32)
        requires
            old(self).count + amount <= u32::MAX,
        ensures
            final(self).count == old(self).count + amount,
            final(self).anime_data == old(self).anime_data,
    {
        self.count = self.count + amount;
    }
}

/// Views counted per anime: one entry per anime id.
#[derive(Debug)]
pub struct TallyMap {
    entries: Vec<AnimeDataWrapper>,
    index: HashMap<u32, usize>,
}

/// The ids of a list of tallies.
pub open spec fn ids_of(s: Seq<AnimeDataWrapper>) -> Seq<u32> {
    s.map_values(|t: AnimeDataWrapper| t.anime_data.anime_id)
}

/// The elements of `s.push(x)` are those of `s` and `x`.
pub proof fn lemma_push_to_set<A>(s: Seq<A>, x: A)
    ensures
        s.push(x).to_set() == s.to_set().insert(x),
{
    assert forall|y: A| s.push(x).to_set().contains(y) implies s.to_set().insert(x).contains(y) by {
        let k = choose|k: int| 0 <= k < s.push(x).len() && #[trigger] s.push(x)[k] == y;
        if k < s.len() {
            assert(s[k] == y);
        }
    }
    assert forall|y: A| s.to_set().insert(x).contains(y) implies s.push(x).to_set().contains(y) by {
        if y == x {
            assert(s.push(x)[s.len() as int] == y);
        } else {
            let k = choose|k: int| 0 <= k < s.len() && #[trigger] s[k] == y;
            assert(s.push(x)[k] == y);
        }
    }
    assert(s.push(x).to_set() =~= s.to_set().insert(x));
}

impl TallyMap {
    /// The tallies, in the order in which their animes were first seen.
    pub closed spec fn entries(&self) -> Seq<AnimeDataWrapper> {
        self.entries@
    }

    /// Each anime appears once, with well-formed data and at least one view.
    pub open spec fn wf_entries(s: Seq<AnimeDataWrapper>) -> bool {
        &&& ids_of(s).no_duplicates()
        &&& forall|i: int| 0 <= i < s.len() ==> (#[trigger] s[i]).anime_data.wf() && s[i].count >= 1
    }

    pub closed spec fn wf(&self) -> bool {
        &&& Self::wf_entries(self.entries@)
        &&& self.index@.dom() == ids_of(self.entries@).to_set()
        &&& forall|id: u32|
            #[trigger] self.index@.contains_key(id) ==> {
                &&& self.index@[id] < self.entries@.len()
                &&& self.entries@[self.index@[id] as int].anime_data.anime_id == id
            }
    }

    pub proof fn lemma_wf(&self)
        requires
            self.wf(),
        ensures
            Self::wf_entries(self.entries()),
    {
    }

    /// No anime counted yet.
    pub fn new() -> (r: Self)
        ensures
            r.wf(),
            r.entries() == Seq::<AnimeDataWrapper>::empty(),
    {
        let r = TallyMap { entries: Vec::new(), index: HashMap::new() };
        assert(ids_of(r.entries@).to_set() =~= Set::<u32>::empty());
        r
    }

    /// The number of animes.
    pub fn len(&self) -> (r: usize)
        ensures
            r == self.entries().len(),
    {
        self.entries.len()
    }

    /// The tally at position `i`.
    pub fn entry(&self, i: usize) -> (r: &AnimeDataWrapper)
        requires
            i < self.entries().len(),
        ensures
            *r == self.entries()[i as int],
    {
        &self.entries[i]
    }

    /// The position of the tally of `anime_id`, if it has one.
    pub fn position(&self, anime_id: u32) -> (r: Option<usize>)
        requires
            self.wf(),
        ensures
            r matches Some(i) ==> i < self.entries().len() && self.entries()[i as int].anime_data.anime_id == anime_id,
            r is None ==> !ids_of(self.entries()).contains(anime_id),
    {
        match self.index.get(&anime_id) {
            Some(i) => Some(*i),
            None => {
                proof {
                    if ids_of(self.entries@).contains(anime_id) {
                        assert(ids_of(self.entries@).to_set().contains(anime_id));
                    }
                }
                None
            }
        }
    }

    /// The tally of `anime_id`, if it has one.
    pub fn get(&self, anime_id: u32) -> (r: Option<&AnimeDataWrapper>)
        requires
            self.wf(),
        ensures
            r matches Some(t) ==> ids_of(self.entries()).contains(anime_id) && t.anime_data.anime_id == anime_id
                && exists|i: int| 0 <= i < self.entries().len() && self.entries()[i] == *t,
            r is None ==> !ids_of(self.entries()).contains(anime_id),
    {
        match self.position(anime_id) {
            Some(i) => {
                assert(ids_of(self.entries@)[i as int] == anime_id);
                Some(&self.entries[i])
            },
            None => None,
        }
    }

    /// Adds `extra` views to the tally at position `i`; `None` when the count
    /// would pass `u32::MAX`, and then nothing changes.
    fn add_views_at(&mut self, i: usize, extra: u32) -> (r: Option<()>)
        requires
            old(self).wf(),
            i < old(self).entries().len(),
        ensures
            final(self).wf(),
            r is Some <==> old(self).entries()[i as int].count + extra <= u32::MAX,
            r is Some ==> final(self).entries() == old(self).entries().update(
                i as int,
                AnimeDataWrapper { count: (old(self).entries()[i as int].count + extra) as u32, ..old(self).entries()[i as int] },
            ),
            r is None ==> final(self).entries() == old(self).entries(),
    {
        let c = self.entries[i].count;
        if c > u32::MAX - extra {
            return None;
        }
        let ghost old_entries = self.entries@;
        self.entries[i].count = c + extra;
        proof {
            assert(self.entries@ =~= old_entries.update(
                i as int,
                AnimeDataWrapper { count: (c + extra) as u32, ..old_entries[i as int] },
            ));
            assert(ids_of(self.entries@) =~= ids_of(old_entries));
        }
        Some(())
    }

    /// Appends a tally for an anime that has none yet.
    fn push_new(&mut self, t: AnimeDataWrapper)
        requires
            old(self).wf(),
            t.anime_data.wf(),
            t.count >= 1,
            !ids_of(old(self).entries()).contains(t.anime_data.anime_id),
        ensures
            final(self).wf(),
            final(self).entries() == old(self).entries().push(t),
    {
        let ghost old_entries = self.entries@;
        let id = t.anime_data.anime_id;
        let n = self.entries.len();
        self.entries.push(t);
        self.index.insert(id, n);
        proof {
            assert(ids_of(self.entries@) =~= ids_of(old_entries).push(id));
            lemma_push_to_set(ids_of(old_entries), id);
            assert(self.index@.dom() =~= ids_of(self.entries@).to_set());
            assert forall|k: u32| #[trigger] self.index@.contains_key(k) implies {
                &&& self.index@[k] < self.entries@.len()
                &&& self.entries@[self.index@[k] as int].anime_data.anime_id == k
            } by {
                if k != id {
                    assert(old_entries[self.index@[k] as int] == self.entries@[self.index@[k] as int]);
                }
            }
        }
    }
}

/// The anime id of a dataset row: the row has a genres column, and its id
/// column reads as a `u32`.
pub open spec fn record_anime_id(fields: Seq<String>) -> Option<u32> {
    if fields.len() > 12 {
        match parse_unsigned(fields[1]@, u32::MAX as nat) {
            Some(n) => Some(n as u32),
            None => None,
        }
    } else {
        None
    }
}

/// The anime that a row describes when its id is first seen.
pub open spec fn describes_row(d: AnimeData, id: u32, fields: Seq<String>) -> bool {
    &&& d.wf()
    &&& d.anime_id == id
    &&& d.title@ == fields[5]@
    &&& d.anime_type@ == fields[6]@
    &&& d.source@ == fields[7]@
    &&& d.genre_views().to_set() == crate::anime_data::genre_set(fields[12]@)
}

/// What happened to one row.
#[derive(Debug, Clone, Copy, PartialEq, Eq)]
pub enum RecordOutcome {
    /// The row was not counted.
    Skipped,
    /// One view of this anime was counted; its score belongs to it.
    Counted(u32),
    /// The anime already has `u32::MAX` views.
    CountOverflow(u32),
}

/// Counts the rows of one shard; the first shard of a dataset starts with
/// its header row.
pub struct ShardProcessor {
    tally: TallyMap,
    is_first_line: bool,
}

impl ShardProcessor {
    pub closed spec fn tally(&self) -> TallyMap {
        self.tally
    }

    pub closed spec fn at_header(&self) -> bool {
        self.is_first_line
    }

    pub closed spec fn wf(&self) -> bool {
        self.tally.wf()
    }

    /// Nothing read yet, the first row to come being the header.
    pub fn new() -> (r: Self)
        ensures
            r.wf(),
            r.at_header(),
            r.tally().entries() == Seq::<AnimeDataWrapper>::empty(),
    {
        Self::with_header(true)
    }

    /// Nothing read yet; the first row to come is a header exactly when
    /// `has_header` holds (only the first shard of a dataset starts with one).
    pub fn with_header(has_header: bool) -> (r: Self)
        ensures
            r.wf(),
            r.at_header() == has_header,
            r.tally().entries() == Seq::<AnimeDataWrapper>::empty(),
    {
        ShardProcessor { tally: TallyMap::new(), is_first_line: has_header }
    }

    /// Takes one row, split into its fields. `score_parses` tells whether the
    /// score column reads as a number. The header row, rows without a genres
    /// column, and rows whose id or score does not parse are skipped;
    /// otherwise one view of the anime is counted, and the anime is recorded
    /// from this row when it is new.
    pub fn process_record(&mut self, fields: &Vec<String>, score_parses: bool) -> (r: RecordOutcome)
        requires
            old(self).wf(),
        ensures
            final(self).wf(),
            !final(self).at_header(),
            old(self).at_header() ==> r == RecordOutcome::Skipped && final(self).tally().entries()
                == old(self).tally().entries(),
            !old(self).at_header() ==> {
                let old_e = old(self).tally().entries();
                let new_e = final(self).tally().entries();
                match record_anime_id(fields@) {
                    None => r == RecordOutcome::Skipped && new_e == old_e,
                    Some(id) => if !score_parses {
                        r == RecordOutcome::Skipped && new_e == old_e
                    } else if ids_of(old_e).contains(id) {
                        exists|i: int| #![trigger old_e[i]] 0 <= i < old_e.len() && old_e[i].anime_data.anime_id == id && (
                            if old_e[i].count < u32::MAX {
                                r == RecordOutcome::Counted(id) && new_e == old_e.update(
                                    i,
                                    AnimeDataWrapper { count: (old_e[i].count + 1) as u32, ..old_e[i] },
                                )
                            } else {
                                r == RecordOutcome::CountOverflow(id) && new_e == old_e
                            })
                    } else {
                        &&& r == RecordOutcome::Counted(id)
                        &&& new_e.len() == old_e.len() + 1
                        &&& new_e.take(old_e.len() as int) == old_e
                        &&& new_e.last().count == 1
                        &&& describes_row(new_e.last().anime_data, id, fields@)
                    },
                }
            },
    {
        if self.is_first_line {
            self.is_first_line = false;
            return RecordOutcome::Skipped;
        }
        if fields.len() <= CsvIndex::Genres.column() {
            return RecordOutcome::Skipped;
        }
        let id = match parse_u32(fields[CsvIndex::AnimeId.column()].as_str()) {
            Some(id) => id,
            None => return RecordOutcome::Skipped,
        };
        if !score_parses {
            return RecordOutcome::Skipped;
        }
        match self.tally.position(id) {
            Some(i) => {
                let ghost old_e = self.tally.entries();
                assert(old_e[i as int].anime_data.anime_id == id);
                assert(ids_of(old_e)[i as int] == id);
                match self.tally.add_views_at(i, 1) {
                    Some(()) => {
                        assert(old_e[i as int].count < u32::MAX);
                        RecordOutcome::Counted(id)
                    },
                    None => RecordOutcome::CountOverflow(id),
                }
            },
            None => {
                let title = fields[CsvIndex::Title.column()].clone();
                let anime_type = fields[CsvIndex::AnimeType.column()].clone();
                let source = fields[CsvIndex::Source.column()].clone();
                let anime_data = AnimeData::new(
                    id,
                    title,
                    anime_type,
                    source,
                    fields[CsvIndex::Genres.column()].as_str(),
                );
                let ghost old_e = self.tally.entries();
                self.tally.push_new(AnimeDataWrapper { anime_data, count: 1 });
                assert(self.tally.entries().take(old_e.len() as int) =~= old_e);
                RecordOutcome::Counted(id)
            },
        }
    }

    /// The counts of the rows read so far.
    pub fn into_tally(self) -> (r: TallyMap)
        requires
            self.wf(),
        ensures
            r == self.tally(),
            r.wf(),
    {
        self.tally
    }
}

/// Adds the views of `t` to those of `a`: to the tally of the same anime
/// if there is one (`None` when that count would pass `u32::MAX`), else as a
/// new tally at the end.
pub open spec fn merge_step(a: Seq<AnimeDataWrapper>, t: AnimeDataWrapper) -> Option<Seq<AnimeDataWrapper>> {
    let id = t.anime_data.anime_id;
    if ids_of(a).contains(id) {
        let i = choose|i: int| 0 <= i < a.len() && #[trigger] a[i].anime_data.anime_id == id;
        if a[i].count + t.count <= u32::MAX {
            Some(a.update(i, AnimeDataWrapper { count: (a[i].count + t.count) as u32, ..a[i] }))
        } else {
            None
        }
    } else {
        Some(a.push(t))
    }
}

/// Adds the tallies of `b`, in order, to `a`.
pub open spec fn merge_all(a: Seq<AnimeDataWrapper>, b: Seq<AnimeDataWrapper>) -> Option<Seq<AnimeDataWrapper>>
    decreases b.len(),
{
    if b.len() == 0 {
        Some(a)
    } else {
        match merge_all(a, b.drop_last()) {
            Some(m) => merge_step(m, b.last()),
            None => None,
        }
    }
}

impl TallyMap {
    /// Adds the views counted in `other` to those of `self`; an anime that
    /// `self` has keeps its data. `Err` names an anime whose count would pass
    /// `u32::MAX`.
    #[verifier::loop_isolation(false)]
    pub fn merge(&mut self, other: TallyMap) -> (r: Result<(), u32>)
        requires
            old(self).wf(),
            other.wf(),
        ensures
            final(self).wf(),
            r is Ok <==> merge_all(old(self).entries(), other.entries()) is Some,
            r is Ok ==> merge_all(old(self).entries(), other.entries()) == Some(final(self).entries()),
    {
        let ghost start = self.entries@;
        let ghost b = other.entries@;
        let TallyMap { entries, index: _ } = other;
        for t in it: entries
            invariant
                it.seq() == b,
                Self::wf_entries(b),
                self.wf(),
                merge_all(start, b.take(it.index())) == Some(self.entries@),
        {
            let ghost k = it.index();
            let id = t.anime_data.anime_id;
            assert(t == b[k]);
            assert(b.take(k + 1).drop_last() =~= b.take(k));
            assert(b.take(k + 1).last() == b[k]);
            let ghost a = self.entries@;
            match self.position(id) {
                Some(i) => {
                    proof {
                        assert(ids_of(a)[i as int] == id);
                        let j = choose|j: int| 0 <= j < a.len() && #[trigger] a[j].anime_data.anime_id == id;
                        assert(ids_of(a)[j] == id);
                        assert(i == j);
                    }
                    if self.add_views_at(i, t.count).is_none() {
                        proof {
                            assert(merge_step(a, b[k]) is None);
                            assert(merge_all(start, b.take(k + 1)) is None);
                            lemma_merge_all_none_extends(start, b, k + 1);
                        }
                        return Err(id);
                    }
                },
                None => {
                    self.push_new(t);
                },
            }
        }
        assert(b.take(b.len() as int) =~= b);
        Ok(())
    }
}

proof fn lemma_merge_all_none_extends(a: Seq<AnimeDataWrapper>, b: Seq<AnimeDataWrapper>, k: int)
    requires
        0 <= k <= b.len(),
        merge_all(a, b.take(k)) is None,
    ensures
        merge_all(a, b) is None,
    decreases b.len() - k,
{
    if k < b.len() {
        assert(b.take(k + 1).drop_last() =~= b.take(k));
        lemma_merge_all_none_extends(a, b, k + 1);
    } else {
        assert(b.take(k) =~= b);
    }
}


/// The records of a CSV text, read without a header row and with rows of
/// any length: the text of each field of each record; `None` when the text
/// is not CSV (or not UTF-8).
pub uninterp spec fn csv_records(bytes: Seq<u8>) -> Option<Seq<Seq<Seq<char>>>>;

/// The texts of the fields of each record.
pub open spec fn rows_of(recs: Seq<Vec<String>>) -> Seq<Seq<Seq<char>>> {
    recs.map_values(|rec: Vec<String>| views(rec@))
}

/// `csv::ReaderBuilder::new().has_headers(false).flexible(true)` reading
/// `bytes`, each record's fields collected as `String`s; `None` when a record
/// fails to read. What the records are for given bytes is the CSV grammar
/// of that crate, and is only named here (`csv_records`).
#[verifier::external_body]
fn read_csv_records(bytes: &[u8]) -> (r: Option<Vec<Vec<String>>>)
    ensures
        match r {
            Some(v) => csv_records(bytes@) == Some(rows_of(v@)),
            None => csv_records(bytes@) is None,
        },
{
    let mut reader = csv::ReaderBuilder::new().has_headers(false).flexible(true).from_reader(bytes);
    let mut out = Vec::new();
    for record in reader.records() {
        match record {
            Ok(rec) => out.push(rec.iter().map(|f| f.to_string()).collect()),
            Err(_) => return None,
        }
    }
    Some(out)
}

/// The anime id of a row given by the texts of its fields: the row has a
/// genres column, and its id column reads as a `u32`.
pub open spec fn row_anime_id(row: Seq<Seq<char>>) -> Option<u32> {
    if row.len() > 12 {
        match parse_unsigned(row[1], u32::MAX as nat) {
            Some(n) => Some(n as u32),
            None => None,
        }
    } else {
        None
    }
}

/// The anime whose view row `i` of a shard counts: not the header row (row
/// 0 when the shard has one), its score reads as a number (`scores[i]`), and
/// its id reads.
pub open spec fn counted_row(recs: Seq<Seq<Seq<char>>>, scores: Seq<bool>, header: bool, i: int) -> Option<u32> {
    if (!header || 1 <= i) && scores[i] {
        row_anime_id(recs[i])
    } else {
        None
    }
}

/// The views of `id` counted in the first `n` rows.
pub open spec fn views_in(recs: Seq<Seq<Seq<char>>>, scores: Seq<bool>, header: bool, n: int, id: u32) -> nat
    decreases n,
{
    if n <= 0 {
        0
    } else {
        views_in(recs, scores, header, n - 1, id) + if counted_row(recs, scores, header, n - 1) == Some(id) {
            1nat
        } else {
            0nat
        }
    }
}

/// The anime that a row gives: its id, title, type, source and genres.
pub open spec fn describes_fields(d: AnimeData, id: u32, row: Seq<Seq<char>>) -> bool {
    &&& d.wf()
    &&& d.anime_id == id
    &&& d.title@ == row[5]
    &&& d.anime_type@ == row[6]
    &&& d.source@ == row[7]
    &&& d.genre_views().to_set() == genre_set(row[12])
}

/// `t` tallies the first `n` rows: each anime once, with as many views as
/// those rows count, and described by the first row that counts it.
pub open spec fn tallies_rows(t: Seq<AnimeDataWrapper>, recs: Seq<Seq<Seq<char>>>, scores: Seq<bool>, header: bool, n: int) -> bool {
    &&& TallyMap::wf_entries(t)
    &&& forall|id: u32| #[trigger] tally_count(t, id) == views_in(recs, scores, header, n, id)
    &&& forall|k: int|
        0 <= k < t.len() ==> exists|j: int|
            #![trigger counted_row(recs, scores, header, j)]
            0 <= j < n && counted_row(recs, scores, header, j) == Some((#[trigger] t[k]).anime_data.anime_id)
                && describes_fields(t[k].anime_data, t[k].anime_data.anime_id, recs[j]) && forall|j2: int|
                0 <= j2 < j ==> counted_row(recs, scores, header, j2) != Some(t[k].anime_data.anime_id)
}

proof fn lemma_tally_count_absent(s: Seq<AnimeDataWrapper>, id: u32)
    requires
        !ids_of(s).contains(id),
    ensures
        tally_count(s, id) == 0,
    decreases s.len(),
{
    if s.len() > 0 {
        assert(ids_of(s)[s.len() - 1] == s.last().anime_data.anime_id);
        assert forall|k: int| 0 <= k < s.drop_last().len() implies ids_of(s.drop_last())[k] != id by {
            assert(ids_of(s.drop_last())[k] == ids_of(s)[k]);
        }
        lemma_tally_count_absent(s.drop_last(), id);
    }
}

proof fn lemma_tally_count_at(s: Seq<AnimeDataWrapper>, i: int)
    requires
        ids_of(s).no_duplicates(),
        0 <= i < s.len(),
    ensures
        tally_count(s, s[i].anime_data.anime_id) == s[i].count,
    decreases s.len(),
{
    let id = s[i].anime_data.anime_id;
    let init = s.drop_last();
    assert(ids_of(init) =~= ids_of(s).drop_last());
    if i == s.len() - 1 {
        assert forall|k: int| 0 <= k < init.len() implies ids_of(init)[k] != id by {
            assert(ids_of(s)[k] == ids_of(init)[k]);
            assert(ids_of(s)[s.len() - 1] == id);
        }
        lemma_tally_count_absent(init, id);
    } else {
        assert(ids_of(s)[i] == id);
        assert(ids_of(s)[s.len() - 1] == s.last().anime_data.anime_id);
        assert(init[i] == s[i]);
        lemma_tally_count_at(init, i);
    }
}

proof fn lemma_tally_count_bounded(s: Seq<AnimeDataWrapper>, id: u32)
    requires
        ids_of(s).no_duplicates(),
    ensures
        tally_count(s, id) <= u32::MAX,
{
    if ids_of(s).contains(id) {
        let i = choose|i: int| 0 <= i < ids_of(s).len() && ids_of(s)[i] == id;
        lemma_tally_count_at(s, i);
    } else {
        lemma_tally_count_absent(s, id);
    }
}

proof fn lemma_views_monotone(recs: Seq<Seq<Seq<char>>>, scores: Seq<bool>, header: bool, n: int, m: int, id: u32)
    requires
        n <= m,
    ensures
        views_in(recs, scores, header, n, id) <= views_in(recs, scores, header, m, id),
    decreases m - n,
{
    if n < m {
        lemma_views_monotone(recs, scores, header, n, m - 1, id);
    }
}

proof fn lemma_views_zero(recs: Seq<Seq<Seq<char>>>, scores: Seq<bool>, header: bool, n: int, id: u32)
    requires
        views_in(recs, scores, header, n, id) == 0,
    ensures
        forall|j: int| 0 <= j < n ==> counted_row(recs, scores, header, j) != Some(id),
    decreases n,
{
    if n > 0 {
        lemma_views_zero(recs, scores, header, n - 1, id);
    }
}

/// Why a shard cannot be counted.
#[derive(Debug, Clone, Copy, PartialEq, Eq, Structural)]
pub enum ShardError {
    /// The shard's text is not CSV.
    Unreadable,
    /// This anime would have more than `u32::MAX` views.
    TooManyViews(u32),
    /// The scores given are not one per record.
    ScoreCountMismatch,
}

/// The counts of one shard, and the anime whose view each row counted.
pub struct ShardCount {
    pub tally: TallyMap,
    /// For each row, the anime whose view it counted, if any: the row's
    /// score belongs to that anime.
    pub counted: Vec<Option<u32>>,
}

impl ShardProcessor {
    /// The records of a shard's text, each as the texts of its fields.
    pub fn read_records(bytes: &[u8]) -> (r: Option<Vec<Vec<String>>>)
        ensures
            match r {
                Some(v) => csv_records(bytes@) == Some(rows_of(v@)),
                None => csv_records(bytes@) is None,
            },
    {
        read_csv_records(bytes)
    }

    /// Counts the records of a shard, in order; the first is a header, and
    /// not counted, exactly when `has_header` holds (the dataset's first
    /// shard). `score_parses[i]` tells whether the score of record `i` reads
    /// as a number.
    pub fn count_records(recs: &Vec<Vec<String>>, score_parses: &Vec<bool>, has_header: bool) -> (r: Result<ShardCount, ShardError>)
        ensures
            recs.len() != score_parses.len() <==> r == Err::<ShardCount, ShardError>(ShardError::ScoreCountMismatch),
            r != Err::<ShardCount, ShardError>(ShardError::Unreadable),
            recs.len() == score_parses.len() ==> {
                let rows = rows_of(recs@);
                let n = recs.len() as int;
                &&& r is Ok <==> forall|id: u32| #[trigger] views_in(rows, score_parses@, has_header, n, id) <= u32::MAX
                &&& r matches Err(ShardError::TooManyViews(id)) ==> views_in(rows, score_parses@, has_header, n, id) > u32::MAX
                &&& r matches Ok(c) ==> {
                    &&& c.tally.wf()
                    &&& tallies_rows(c.tally.entries(), rows, score_parses@, has_header, n)
                    &&& c.counted@.len() == n
                    &&& forall|i: int| 0 <= i < n ==> #[trigger] c.counted@[i] == counted_row(rows, score_parses@, has_header, i)
                }
            },
    {
        if recs.len() != score_parses.len() {
            return Err(ShardError::ScoreCountMismatch);
        }
        let ghost rows = rows_of(recs@);
        let ghost scores = score_parses@;
        let mut processor = ShardProcessor::with_header(has_header);
        let mut counted: Vec<Option<u32>> = Vec::new();
        let mut k: usize = 0;
        while k < recs.len()
            invariant
                recs.len() == score_parses.len(),
                rows == rows_of(recs@),
                scores == score_parses@,
                k <= recs.len(),
                processor.wf(),
                processor.at_header() == (has_header && k == 0),
                tallies_rows(processor.tally().entries(), rows, scores, has_header, k as int),
                counted@.len() == k,
                forall|i: int| 0 <= i < k ==> #[trigger] counted@[i] == counted_row(rows, scores, has_header, i),
            decreases recs.len() - k,
        {
            let ghost old_e = processor.tally().entries();
            let ghost row = rows[k as int];
            proof {
                assert(row == views(recs@[k as int]@));
                assert(record_anime_id(recs@[k as int]@) == row_anime_id(row)) by {
                    let f = recs@[k as int]@;
                    if f.len() > 12 {
                        assert(views(f)[1] == f[1]@);
                    }
                }
            }
            let outcome = processor.process_record(&recs[k], score_parses[k]);
            let ghost new_e = processor.tally().entries();
            match outcome {
                RecordOutcome::CountOverflow(id) => {
                    proof {
                        let i = choose|i: int| #![trigger old_e[i]] 0 <= i < old_e.len() && old_e[i].anime_data.anime_id == id
                            && old_e[i].count == u32::MAX;
                        lemma_tally_count_at(old_e, i);
                        assert(counted_row(rows, scores, has_header, k as int) == Some(id));
                        assert(views_in(rows, scores, has_header, k + 1, id) == u32::MAX + 1);
                        lemma_views_monotone(rows, scores, has_header, k + 1, recs.len() as int, id);
                    }
                    return Err(ShardError::TooManyViews(id));
                },
                RecordOutcome::Skipped => {
                    counted.push(None);
                    proof {
                        assert(counted_row(rows, scores, has_header, k as int) is None);
                        assert forall|id: u32| #[trigger] tally_count(new_e, id) == views_in(rows, scores, has_header, k + 1, id) by {
                            assert(tally_count(old_e, id) == views_in(rows, scores, has_header, k as int, id));
                        }
                        assert forall|q: int| 0 <= q < new_e.len() implies exists|j: int|
                            #![trigger counted_row(rows, scores, has_header, j)]
                            0 <= j < k + 1 && counted_row(rows, scores, has_header, j) == Some((#[trigger] new_e[q]).anime_data.anime_id)
                                && describes_fields(new_e[q].anime_data, new_e[q].anime_data.anime_id, rows[j])
                                && forall|j2: int| 0 <= j2 < j ==> counted_row(rows, scores, has_header, j2) != Some(new_e[q].anime_data.anime_id) by {
                            assert(new_e[q] == old_e[q]);
                        }
                    }
                },
                RecordOutcome::Counted(id) => {
                    counted.push(Some(id));
                    proof {
                        assert(counted_row(rows, scores, has_header, k as int) == Some(id));
                        if ids_of(old_e).contains(id) {
                            let i = choose|i: int| #![trigger old_e[i]] 0 <= i < old_e.len() && old_e[i].anime_data.anime_id == id
                                && old_e[i].count < u32::MAX && new_e == old_e.update(
                                i,
                                AnimeDataWrapper { count: (old_e[i].count + 1) as u32, ..old_e[i] },
                            );
                            assert forall|x: u32| #[trigger] tally_count(new_e, x) == views_in(rows, scores, has_header, k + 1, x) by {
                                lemma_tally_count_update(old_e, i, new_e[i], x);
                                assert(tally_count(old_e, x) == views_in(rows, scores, has_header, k as int, x));
                            }
                            assert forall|q: int| 0 <= q < new_e.len() implies exists|j: int|
                                #![trigger counted_row(rows, scores, has_header, j)]
                                0 <= j < k + 1 && counted_row(rows, scores, has_header, j) == Some((#[trigger] new_e[q]).anime_data.anime_id)
                                    && describes_fields(new_e[q].anime_data, new_e[q].anime_data.anime_id, rows[j])
                                    && forall|j2: int| 0 <= j2 < j ==> counted_row(rows, scores, has_header, j2) != Some(new_e[q].anime_data.anime_id) by {
                                assert(new_e[q].anime_data == old_e[q].anime_data);
                                assert(old_e[q] == old_e[q]);
                            }
                        } else {
                            let t = new_e.last();
                            assert(new_e.drop_last() =~= old_e);
                            assert forall|x: u32| #[trigger] tally_count(new_e, x) == views_in(rows, scores, has_header, k + 1, x) by {
                                assert(tally_count(old_e, x) == views_in(rows, scores, has_header, k as int, x));
                            }
                            lemma_tally_count_absent(old_e, id);
                            lemma_views_zero(rows, scores, has_header, k as int, id);
                            assert(describes_row(t.anime_data, id, recs@[k as int]@));
                            let f = recs@[k as int]@;
                            assert(views(f)[5] == f[5]@);
                            assert(views(f)[6] == f[6]@);
                            assert(views(f)[7] == f[7]@);
                            assert(views(f)[12] == f[12]@);
                            assert forall|q: int| 0 <= q < new_e.len() implies exists|j: int|
                                #![trigger counted_row(rows, scores, has_header, j)]
                                0 <= j < k + 1 && counted_row(rows, scores, has_header, j) == Some((#[trigger] new_e[q]).anime_data.anime_id)
                                    && describes_fields(new_e[q].anime_data, new_e[q].anime_data.anime_id, rows[j])
                                    && forall|j2: int| 0 <= j2 < j ==> counted_row(rows, scores, has_header, j2) != Some(new_e[q].anime_data.anime_id) by {
                                if q < old_e.len() {
                                    assert(new_e[q] == old_e[q]);
                                } else {
                                    assert(counted_row(rows, scores, has_header, k as int) == Some(new_e[q].anime_data.anime_id));
                                }
                            }
                        }
                    }
                },
            }
            k = k + 1;
        }
        proof {
            let ghost e = processor.tally().entries();
            processor.tally().lemma_wf();
            assert forall|id: u32| #[trigger] views_in(rows, scores, has_header, recs.len() as int, id) <= u32::MAX by {
                lemma_tally_count_bounded(e, id);
            }
        }
        Ok(ShardCount { tally: processor.into_tally(), counted })
    }

    /// Counts a shard from its text: `Unreadable` when the text is not CSV,
    /// else the counts of its records (see `count_records`).
    pub fn count_shard(bytes: &[u8], score_parses: &Vec<bool>, has_header: bool) -> (r: Result<ShardCount, ShardError>)
        ensures
            csv_records(bytes@) is None <==> r == Err::<ShardCount, ShardError>(ShardError::Unreadable),
            csv_records(bytes@) matches Some(rows) ==> {
                let n = rows.len() as int;
                &&& rows.len() != score_parses.len() <==> r == Err::<ShardCount, ShardError>(ShardError::ScoreCountMismatch)
                &&& rows.len() == score_parses.len() ==> {
                    &&& r is Ok <==> forall|id: u32| #[trigger] views_in(rows, score_parses@, has_header, n, id) <= u32::MAX
                    &&& r matches Err(ShardError::TooManyViews(id)) ==> views_in(rows, score_parses@, has_header, n, id) > u32::MAX
                    &&& r matches Ok(c) ==> {
                        &&& c.tally.wf()
                        &&& tallies_rows(c.tally.entries(), rows, score_parses@, has_header, n)
                        &&& c.counted@.len() == n
                        &&& forall|i: int| 0 <= i < n ==> #[trigger] c.counted@[i] == counted_row(rows, score_parses@, has_header, i)
                    }
                }
            },
    {
        match read_csv_records(bytes) {
            Some(recs) => Self::count_records(&recs, score_parses, has_header),
            None => Err(ShardError::Unreadable),
        }
    }
}

} // verus!
