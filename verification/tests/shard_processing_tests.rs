use anime_cluster::data_transformer::DataTransformer;
use anime_cluster::dataset_processor::{shard_search_step, DatasetProcessor, ShardSearch};
use anime_cluster::shard_processor::{RecordOutcome, ShardError, ShardProcessor, TallyMap};

fn row(fields: &[&str]) -> Vec<String> {
    fields.iter().map(|f| f.to_string()).collect()
}

fn header() -> Vec<String> {
    row(&["username", "anime_id", "my_score", "user_id", "gender", "title", "type", "source", "score", "scored_by", "rank", "popularity", "genre"])
}

fn naruto(user: &str) -> Vec<String> {
    row(&[user, "1", "8.5", "1", "male", "Naruto", "TV", "Manga", "PG-13", "1000", "5000", "100", "Action, Adventure, Shounen"])
}

fn death_note() -> Vec<String> {
    row(&["3", "2", "7.5", "1", "male", "Death Note", "TV", "Manga", "R", "2000", "8000", "200", "Mystery, Thriller, Psychological"])
}

fn shard_tally(rows: &[Vec<String>]) -> TallyMap {
    let mut p = ShardProcessor::new();
    for r in rows {
        p.process_record(r, true);
    }
    p.into_tally()
}

#[test]
fn header_row_is_skipped() {
    let mut p = ShardProcessor::new();
    assert_eq!(p.process_record(&naruto("1"), true), RecordOutcome::Skipped);
    assert_eq!(p.process_record(&naruto("1"), true), RecordOutcome::Counted(1));
    assert_eq!(p.into_tally().len(), 1);
}

#[test]
fn views_of_one_anime_are_aggregated() {
    let t = shard_tally(&[header(), naruto("1"), naruto("2"), death_note()]);
    assert_eq!(t.len(), 2);
    assert_eq!(t.get(1).unwrap().count, 2);
    assert_eq!(t.get(2).unwrap().count, 1);
}

#[test]
fn genres_are_extracted_from_the_row() {
    let t = shard_tally(&[header(), naruto("1")]);
    let anime = &t.get(1).unwrap().anime_data;
    assert!(anime.genres.contains(&"Action".to_string()));
    assert!(anime.genres.contains(&"Adventure".to_string()));
    assert!(anime.genres.contains(&"Shounen".to_string()));
    assert_eq!(anime.genres.len(), 3);
    assert_eq!(anime.title, "Naruto");
}

#[test]
fn short_rows_and_bad_numbers_are_skipped() {
    let mut p = ShardProcessor::new();
    p.process_record(&header(), true);
    assert_eq!(p.process_record(&row(&["1", "1", "8.5"]), true), RecordOutcome::Skipped);
    let mut bad_id = naruto("1");
    bad_id[1] = "x1".to_string();
    assert_eq!(p.process_record(&bad_id, true), RecordOutcome::Skipped);
    assert_eq!(p.process_record(&naruto("1"), false), RecordOutcome::Skipped);
    assert_eq!(p.into_tally().len(), 0);
}

#[test]
fn merging_shards_adds_their_views() {
    let a = shard_tally(&[header(), naruto("1"), death_note()]);
    let b = shard_tally(&[header(), naruto("2"), naruto("3")]);
    let mut processor = DatasetProcessor::new();
    assert!(processor.merge_local_maps(vec![a, b]).is_ok());
    let merged = processor.anime_data_map();
    assert_eq!(merged.len(), 2);
    assert_eq!(merged.get(1).unwrap().count, 3);
    assert_eq!(merged.get(2).unwrap().count, 1);
}

#[test]
fn merging_no_shard_changes_nothing() {
    let mut processor = DatasetProcessor::new();
    assert!(processor.merge_local_maps(vec![shard_tally(&[header(), naruto("1")])]).is_ok());
    assert!(processor.merge_local_maps(Vec::new()).is_ok());
    assert_eq!(processor.anime_data_map().get(1).unwrap().count, 1);
}

#[test]
fn tally_merge_adds_counts() {
    let mut a = shard_tally(&[header(), naruto("1")]);
    let b = shard_tally(&[header(), naruto("2"), death_note()]);
    assert_eq!(a.merge(b), Ok(()));
    assert_eq!(a.get(1).unwrap().count, 2);
    assert_eq!(a.get(2).unwrap().count, 1);
}

fn anime_row(id: &str, title: &str, genres: &str) -> Vec<String> {
    row(&["u", id, "9", "1", "x", title, "TV", "Manga", "PG", "1", "1", "1", genres])
}

#[test]
fn top_genres_rank_by_views_then_name() {
    let t = shard_tally(&[
        header(),
        anime_row("1", "A", "Action, Drama"),
        anime_row("1", "A", "Action, Drama"),
        anime_row("2", "B", "Comedy, Drama"),
        anime_row("3", "C", "Zombie"),
    ]);
    let top = DataTransformer::get_top_genres(&t).unwrap();
    assert_eq!(
        top,
        vec![
            ("Drama".to_string(), 3),
            ("Action".to_string(), 2),
            ("Comedy".to_string(), 1),
            ("Zombie".to_string(), 1),
        ]
    );
}

#[test]
fn top_genres_keep_at_most_five() {
    let t = shard_tally(&[header(), anime_row("1", "A", "G1, G2, G3, G4, G5, G6, G7")]);
    let top = DataTransformer::get_top_genres(&t).unwrap();
    assert_eq!(top.len(), 5);
    assert_eq!(top[0], ("G1".to_string(), 1));
    assert_eq!(top[4], ("G5".to_string(), 1));
}

#[test]
fn top_genres_of_nothing_is_empty() {
    let t = TallyMap::new();
    assert_eq!(DataTransformer::get_top_genres(&t).unwrap(), Vec::<(String, u32)>::new());
}

const SHARD_TEXT: &str = "username,anime_id,my_score,user_id,gender,title,type,source,score,scored_by,rank,popularity,genre\n\
1,1,8.5,1,male,Naruto,TV,Manga,PG-13,1000,5000,100,\"Action, Adventure, Shounen\"\n\
2,1,9.0,1,male,Naruto,TV,Manga,PG-13,1000,5000,100,\"Action, Adventure, Shounen\"\n\
3,2,7.5,1,male,Death Note,TV,Manga,R,2000,8000,200,\"Mystery, Thriller, Psychological\"\n";

#[test]
fn shard_text_is_read_into_records() {
    let recs = ShardProcessor::read_records(SHARD_TEXT.as_bytes()).unwrap();
    assert_eq!(recs.len(), 4);
    assert_eq!(recs[1][5], "Naruto");
    assert_eq!(recs[1][12], "Action, Adventure, Shounen");
}

#[test]
fn shard_text_is_counted() {
    let scores = vec![false, true, true, true];
    let c = ShardProcessor::count_shard(SHARD_TEXT.as_bytes(), &scores, true).unwrap();
    assert_eq!(c.counted, vec![None, Some(1), Some(1), Some(2)]);
    assert_eq!(c.tally.get(1).unwrap().get_count(), 2);
    assert_eq!(c.tally.get(2).unwrap().get_count(), 1);
    assert_eq!(c.tally.get(2).unwrap().get_anime_data().title, "Death Note");
}

#[test]
fn shard_rows_without_score_are_not_counted() {
    let scores = vec![true, true, false, true];
    let c = ShardProcessor::count_shard(SHARD_TEXT.as_bytes(), &scores, true).unwrap();
    assert_eq!(c.counted, vec![None, Some(1), None, Some(2)]);
    assert_eq!(c.tally.get(1).unwrap().get_count(), 1);
}

#[test]
fn shard_errors_say_why() {
    assert_eq!(
        ShardProcessor::count_shard(SHARD_TEXT.as_bytes(), &vec![true], true).err(),
        Some(ShardError::ScoreCountMismatch)
    );
    assert_eq!(
        ShardProcessor::count_shard(&[0xff, 0xfe, b'\n'], &vec![true], true).err(),
        Some(ShardError::Unreadable)
    );
}

const LATER_SHARD_TEXT: &str = "4,2,8.0,1,male,Death Note,TV,Manga,R,2000,8000,200,\"Mystery, Thriller, Psychological\"\n\
5,1,6.0,1,male,Naruto,TV,Manga,PG-13,1000,5000,100,\"Action, Adventure, Shounen\"\n";

#[test]
fn a_later_shard_counts_its_first_row() {
    let c = ShardProcessor::count_shard(LATER_SHARD_TEXT.as_bytes(), &vec![true, true], false).unwrap();
    assert_eq!(c.counted, vec![Some(2), Some(1)]);
    let mut p = ShardProcessor::with_header(false);
    assert_eq!(p.process_record(&naruto("1"), true), RecordOutcome::Counted(1));
}

#[test]
fn every_data_row_of_a_split_dataset_is_counted() {
    let first = ShardProcessor::count_shard(SHARD_TEXT.as_bytes(), &vec![true; 4], true).unwrap();
    let later = ShardProcessor::count_shard(LATER_SHARD_TEXT.as_bytes(), &vec![true; 2], false).unwrap();
    let mut processor = DatasetProcessor::new();
    assert!(processor.merge_local_maps(vec![first.tally, later.tally]).is_ok());
    let merged = processor.anime_data_map();
    assert_eq!(merged.get(1).unwrap().get_count(), 3);
    assert_eq!(merged.get(2).unwrap().get_count(), 2);
}

#[test]
fn shard_search_stops_at_the_first_missing_file() {
    assert_eq!(shard_search_step(0, true), ShardSearch::Take);
    assert_eq!(shard_search_step(3, true), ShardSearch::Take);
    assert_eq!(shard_search_step(3, false), ShardSearch::Done);
    assert_eq!(shard_search_step(0, false), ShardSearch::NoShards);
}
