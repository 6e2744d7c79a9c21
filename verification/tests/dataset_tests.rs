use anime_cluster::args::{num_threads, verify_args};
use anime_cluster::dataset_processor::DatasetProcessor;
use anime_cluster::dataset_splitter::{base_name, shard_path, DatasetSplitter};

fn args(v: &[&str]) -> Vec<String> {
    v.iter().map(|s| s.to_string()).collect()
}

#[test]
fn wrong_number_of_arguments_is_refused() {
    let e = verify_args(&args(&["prog", "data.csv"]), true).unwrap_err();
    assert_eq!(e, "Usar: cargo run <ruta dataset> <cantidad de threads> <nombre de salida>");
}

#[test]
fn missing_dataset_is_refused() {
    let e = verify_args(&args(&["prog", "data.csv", "4", "out.json"]), false).unwrap_err();
    assert_eq!(e, "Archivo de dataset no encontrado");
}

#[test]
fn bad_thread_count_is_refused() {
    let e = verify_args(&args(&["prog", "data.csv", "four", "out.json"]), true).unwrap_err();
    assert_eq!(e, "Cantidad de threads inválida");
    let e = verify_args(&args(&["prog", "data.csv", "-1", "out.json"]), true).unwrap_err();
    assert_eq!(e, "Cantidad de threads inválida");
}

#[test]
fn good_arguments_pass() {
    assert_eq!(verify_args(&args(&["prog", "data.csv", "4", "out.json"]), true), Ok(()));
    assert_eq!(verify_args(&args(&["prog", "data.csv", "+8", "out.json"]), true), Ok(()));
    assert_eq!(num_threads(&args(&["prog", "data.csv", "12", "out.json"])), Some(12));
    assert_eq!(num_threads(&args(&["prog", "data.csv"])), None);
}

#[test]
fn shard_paths_follow_the_naming() {
    assert_eq!(shard_path("temp_shards/", "anime.csv", 0), "temp_shards/anime.csv-0.csv");
    assert_eq!(shard_path("out/", "d", 12), "out/d-12.csv");
}

#[test]
fn base_name_is_the_file_name() {
    assert_eq!(base_name("data/mini_dataset1.csv"), Some("mini_dataset1.csv".to_string()));
    assert_eq!(base_name("plain.csv"), Some("plain.csv".to_string()));
    assert_eq!(base_name("data/.."), None);
}

#[test]
fn shard_file_of_the_processor() {
    assert_eq!(
        DatasetProcessor::shard_file("temp_shards/", "tests/mini.csv", 3),
        Ok("temp_shards/mini.csv-3.csv".to_string())
    );
    assert_eq!(
        DatasetProcessor::shard_file("temp_shards/", "..", 0),
        Err("Nombre de archivo inválido".to_string())
    );
}

#[test]
fn splitter_normalises_the_output_directory() {
    let s = DatasetSplitter::new(10, "data/d.csv".to_string(), "out".to_string());
    assert_eq!(s.output(), "out/");
    let s = DatasetSplitter::new(10, "data/d.csv".to_string(), "out/".to_string());
    assert_eq!(s.output(), "out/");
    assert_eq!(s.input(), "data/d.csv");
}

#[test]
fn splitter_begins_a_shard_once_the_current_one_is_full() {
    let mut s = DatasetSplitter::new(10, "data/d.csv".to_string(), "out".to_string());
    assert_eq!(s.start(), Some("out/d.csv-0.csv".to_string()));
    let a = s.on_line("abcd\n");
    assert_eq!(a.new_shard, None);
    assert_eq!(a.content, "abcd");
    assert_eq!(s.count_of_bytes(), 5);
    let b = s.on_line("efghij\r\n");
    assert_eq!(b.new_shard, None);
    assert_eq!(b.content, "efghij");
    assert_eq!(s.count_of_bytes(), 12);
    let c = s.on_line("k\n");
    assert_eq!(c.new_shard, Some("out/d.csv-1.csv".to_string()));
    assert_eq!(s.count_of_bytes(), 2);
    assert_eq!(s.count_of_shards(), 2);
    assert_eq!(s.finish(), Ok(()));
}

#[test]
fn line_size_counts_utf8_bytes() {
    let mut s = DatasetSplitter::new(100, "d.csv".to_string(), "o/".to_string());
    s.start();
    s.on_line("ñ\n");
    assert_eq!(s.count_of_bytes(), 3);
}

#[test]
fn splitter_without_any_shard_fails() {
    let mut s = DatasetSplitter::new(10, "d.csv".to_string(), "o".to_string());
    assert_eq!(s.finish(), Err("No se generaron shards".to_string()));
}

#[test]
fn start_twice_begins_one_shard() {
    let mut s = DatasetSplitter::new(10, "d.csv".to_string(), "o".to_string());
    assert!(s.start().is_some());
    assert_eq!(s.start(), None);
    assert_eq!(s.count_of_shards(), 1);
}

#[test]
fn shard_file_from_a_known_file_name() {
    assert_eq!(
        DatasetProcessor::shard_file_named("dir/", Some("x.csv".to_string()), 5),
        Ok("dir/x.csv-5.csv".to_string())
    );
    assert_eq!(
        DatasetProcessor::shard_file_named("dir/", None, 5),
        Err("Nombre de archivo inválido".to_string())
    );
}

#[test]
fn splitter_without_a_file_name_uses_shard() {
    let mut s = DatasetSplitter::with_file_name(4, "..".to_string(), "out".to_string(), None);
    assert_eq!(s.start(), Some("out/shard-0.csv".to_string()));
    let mut t = DatasetSplitter::with_file_name(4, "a/b.csv".to_string(), "o/".to_string(), Some("b.csv".to_string()));
    assert_eq!(t.start(), Some("o/b.csv-0.csv".to_string()));
}
