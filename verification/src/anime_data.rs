//! The description of one anime as read from a dataset row.
use vstd::prelude::*;
use crate::text::{chars_of, contains_string, sort_strings, split, split_bounds, string_from_chars, strictly_sorted, trim, trim_bounds, views};

verus! {

/// The genres named by a comma-separated list: each piece between commas,
/// trimmed, and kept when it is not empty.
pub open spec fn genre_set(genres_str: Seq<char>) -> Set<Seq<char>> {
    Set::new(
        |g: Seq<char>|
            g.len() > 0 && exists|i: int|
                0 <= i < split(genres_str, ',').len() && #[trigger] trim(split(genres_str, ',')[i])
                    == g,
    )
}

/// One anime: its id, title, type, source and its set of genres.
#[derive(Debug, Clone)]
pub struct AnimeData {
    pub anime_id: u32,
    pub title: String,
    pub anime_type: String,
    pub source: String,
    /// Each genre once, never empty.
    pub genres: Vec<String>,
}

impl AnimeData {
    /// The texts of the genres.
    pub open spec fn genre_views(&self) -> Seq<Seq<char>> {
        views(self.genres@)
    }

    /// The genres form a set: no genre twice, and none empty.
    pub open spec fn wf(&self) -> bool {
        &&& self.genre_views().no_duplicates()
        &&& forall|i: int| 0 <= i < self.genre_views().len() ==> (#[trigger] self.genre_views()[i]).len() > 0
    }

    /// Builds an anime from its fields and a comma-separated list of genres.
    pub fn new(
        anime_id: u32,
        title: String,
        anime_type: String,
        source: String,
        genres_str: &str,
    ) -> (r: Self)
        ensures
            r.wf(),
            r.anime_id == anime_id,
            r.title@ == title@,
            r.anime_type@ == anime_type@,
            r.source@ == source@,
            r.genre_views().to_set() == genre_set(genres_str@),
    {
        let genres = Self::parse_genres(genres_str);
        Self { anime_id, title, anime_type, source, genres }
    }

    /// The distinct non-empty trimmed pieces of a comma-separated list.
    fn parse_genres(genres_str: &str) -> (r: Vec<String>)
        ensures
            views(r@).no_duplicates(),
            forall|i: int| 0 <= i < views(r@).len() ==> (#[trigger] views(r@)[i]).len() > 0,
            views(r@).to_set() == genre_set(genres_str@),
    {
        let v = chars_of(genres_str);
        let pieces = split_bounds(&v, ',');
        let ghost sp = split(v@, ',');
        let mut r: Vec<String> = Vec::new();
        let mut k: usize = 0;
        while k < pieces.len()
            invariant
                k <= pieces@.len(),
                v@ == genres_str@,
                sp == split(v@, ','),
                pieces@.len() == sp.len(),
                forall|i: int|
                    0 <= i < pieces@.len() ==> {
                        &&& (#[trigger] pieces@[i]).0 <= pieces@[i].1 <= v@.len()
                        &&& v@.subrange(pieces@[i].0 as int, pieces@[i].1 as int) == sp[i]
                    },
                views(r@).no_duplicates(),
                forall|i: int| 0 <= i < views(r@).len() ==> (#[trigger] views(r@)[i]).len() > 0,
                forall|g: Seq<char>|
                    views(r@).contains(g) <==> (g.len() > 0 && exists|i: int|
                        0 <= i < k && #[trigger] trim(sp[i]) == g),
            decreases pieces.len() - k,
        {
            let (from, to) = pieces[k];
            assert(pieces@[k as int].0 <= pieces@[k as int].1);
            let (a, b) = trim_bounds(&v, from, to);
            let ghost t = trim(sp[k as int]);
            assert(v@.subrange(a as int, b as int) == t);
            if a < b {
                let g = string_from_chars(&v, a, b);
                if !contains_string(&r, &g) {
                    let ghost old_r = r@;
                    r.push(g);
                    proof {
                        assert(views(r@) =~= views(old_r).push(t));
                        assert forall|x: Seq<char>|
                            views(r@).contains(x) <==> (x.len() > 0 && exists|i: int|
                                0 <= i < k + 1 && #[trigger] trim(sp[i]) == x) by {
                            if views(r@).contains(x) {
                                let j = choose|j: int| 0 <= j < views(r@).len() && #[trigger] views(r@)[j] == x;
                                if j < old_r.len() {
                                    assert(views(old_r)[j] == x);
                                    assert(views(old_r).contains(x));
                                }
                            }
                            if x.len() > 0 && exists|i: int| 0 <= i < k + 1 && #[trigger] trim(sp[i]) == x {
                                if x == t {
                                    assert(views(r@)[old_r.len() as int] == x);
                                } else {
                                    let i = choose|i: int| 0 <= i < k + 1 && #[trigger] trim(sp[i]) == x;
                                    assert(i < k);
                                    assert(views(old_r).contains(x));
                                    let j = choose|j: int| 0 <= j < views(old_r).len() && #[trigger] views(old_r)[j] == x;
                                    assert(views(r@)[j] == x);
                                }
                            }
                        }
                    }
                } else {
                    proof {
                        assert forall|x: Seq<char>|
                            views(r@).contains(x) <==> (x.len() > 0 && exists|i: int|
                                0 <= i < k + 1 && #[trigger] trim(sp[i]) == x) by {
                            if x.len() > 0 && exists|i: int| 0 <= i < k + 1 && #[trigger] trim(sp[i]) == x {
                                if x != t {
                                    let i = choose|i: int| 0 <= i < k + 1 && #[trigger] trim(sp[i]) == x;
                                    assert(i < k);
                                }
                            }
                            if views(r@).contains(x) {
                                let i = choose|i: int| 0 <= i < k && #[trigger] trim(sp[i]) == x;
                                assert(0 <= i < k + 1);
                            }
                        }
                    }
                }
            } else {
                proof {
                    assert forall|x: Seq<char>|
                        views(r@).contains(x) <==> (x.len() > 0 && exists|i: int|
                            0 <= i < k + 1 && #[trigger] trim(sp[i]) == x) by {
                        if x.len() > 0 && exists|i: int| 0 <= i < k + 1 && #[trigger] trim(sp[i]) == x {
                            let i = choose|i: int| 0 <= i < k + 1 && #[trigger] trim(sp[i]) == x;
                            assert(i < k);
                        }
                        if views(r@).contains(x) {
                            let i = choose|i: int| 0 <= i < k && #[trigger] trim(sp[i]) == x;
                            assert(0 <= i < k + 1);
                        }
                    }
                }
            }
            k = k + 1;
        }
        assert(views(r@).to_set() =~= genre_set(genres_str@));
        r
    }

    /// The genres in increasing lexicographic order.
    pub fn get_sorted_genres(&self) -> (r: Vec<String>)
        requires
            self.genre_views().no_duplicates(),
        ensures
            strictly_sorted(views(r@)),
            views(r@).to_set() == self.genre_views().to_set(),
            r@.len() == self.genres@.len(),
    {
        sort_strings(&self.genres)
    }
}

} // verus!
