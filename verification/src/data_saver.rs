//! What the results file says of each anime of the ranking.
use vstd::prelude::*;
use crate::anime_data::AnimeData;
use crate::text::{strictly_sorted, views};

verus! {

/// The fields written for one anime of the ranking, beside its average
/// score.
#[derive(Debug, Clone)]
pub struct AnimeRecord {
    pub title: String,
    pub anime_id: u32,
    pub anime_type: String,
    pub source: String,
    /// The genres in increasing lexicographic order.
    pub genres: Vec<String>,
}

/// Writes the results of the analysis.
#[derive(Debug, Clone)]
pub struct DataSaver;

impl DataSaver {
    /// The record of an anime: its fields as they are, and its genres sorted.
    pub fn anime_record(&self, anime: &AnimeData) -> (r: AnimeRecord)
        requires
            anime.genre_views().no_duplicates(),
        ensures
            r.title@ == anime.title@,
            r.anime_id == anime.anime_id,
            r.anime_type@ == anime.anime_type@,
            r.source@ == anime.source@,
            strictly_sorted(views(r.genres@)),
            views(r.genres@).to_set() == anime.genre_views().to_set(),
            r.genres@.len() == anime.genres@.len(),
    {
        AnimeRecord {
            title: anime.title.clone(),
            anime_id: anime.anime_id,
            anime_type: anime.anime_type.clone(),
            source: anime.source.clone(),
            genres: anime.get_sorted_genres(),
        }
    }
}

} // verus!
