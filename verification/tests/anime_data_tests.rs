use anime_cluster::anime_data::AnimeData;
use anime_cluster::data_saver::DataSaver;

fn genre(s: &str) -> String {
    s.to_string()
}

#[test]
fn test_parse_genres_multiple() {
    let genres_str = "Action, Drama, Comedy, Slice of Life";
    let anime = AnimeData::new(
        1,
        "Test".to_string(),
        "TV".to_string(),
        "Original".to_string(),
        genres_str,
    );

    assert_eq!(anime.genres.len(), 4);
    assert!(anime.genres.contains(&genre("Action")));
    assert!(anime.genres.contains(&genre("Drama")));
    assert!(anime.genres.contains(&genre("Comedy")));
    assert!(anime.genres.contains(&genre("Slice of Life")));
}

#[test]
fn genres_are_trimmed_deduplicated_and_never_empty() {
    let anime = AnimeData::new(7, "T".to_string(), "TV".to_string(), "Manga".to_string(), " Action ,, Drama,Action, ");
    assert_eq!(anime.genres.len(), 2);
    assert!(anime.genres.contains(&genre("Action")));
    assert!(anime.genres.contains(&genre("Drama")));
}

#[test]
fn empty_genre_list_gives_no_genre() {
    let anime = AnimeData::new(7, "T".to_string(), "TV".to_string(), "Manga".to_string(), "");
    assert!(anime.genres.is_empty());
    let anime = AnimeData::new(7, "T".to_string(), "TV".to_string(), "Manga".to_string(), " , ,");
    assert!(anime.genres.is_empty());
}

#[test]
fn fields_are_kept_as_given() {
    let anime = AnimeData::new(42, "Naruto".to_string(), "TV".to_string(), "Manga".to_string(), "Action");
    assert_eq!(anime.anime_id, 42);
    assert_eq!(anime.title, "Naruto");
    assert_eq!(anime.anime_type, "TV");
    assert_eq!(anime.source, "Manga");
}

#[test]
fn sorted_genres_are_in_lexicographic_order() {
    let anime = AnimeData::new(1, "T".to_string(), "TV".to_string(), "Manga".to_string(), "Shounen, Action, Drama, Adventure");
    assert_eq!(anime.get_sorted_genres(), vec![genre("Action"), genre("Adventure"), genre("Drama"), genre("Shounen")]);
}

#[test]
fn anime_record_keeps_fields_and_sorts_genres() {
    let anime = AnimeData::new(3, "Bleach".to_string(), "TV".to_string(), "Manga".to_string(), "Drama, Action");
    let record = DataSaver.anime_record(&anime);
    assert_eq!(record.title, "Bleach");
    assert_eq!(record.anime_id, 3);
    assert_eq!(record.anime_type, "TV");
    assert_eq!(record.source, "Manga");
    assert_eq!(record.genres, vec![genre("Action"), genre("Drama")]);
}

#[test]
fn any_distinct_genres_are_sorted_even_an_empty_one() {
    let anime = AnimeData {
        anime_id: 1,
        title: "T".to_string(),
        anime_type: "TV".to_string(),
        source: "Manga".to_string(),
        genres: vec![genre("Drama"), genre(""), genre("Action")],
    };
    assert_eq!(anime.get_sorted_genres(), vec![genre(""), genre("Action"), genre("Drama")]);
}
