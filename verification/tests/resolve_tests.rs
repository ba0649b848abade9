use brf::naming::{file_extension, sequential_file_name};
use brf::resolve::{first_free_index, join_path, resolve_collision};

#[test]
fn join_path_builds_full_path() {
    assert_eq!(join_path("./files", "img_0", ".jpg"), "./files/img_0.jpg");
    assert_eq!(join_path("d", "name", ""), "d/name");
}

#[test]
fn first_free_index_takes_start_when_free() {
    let existing: Vec<String> = vec!["photo.JPG".to_string(), "doc.txt".to_string()];
    assert_eq!(first_free_index(&existing, "img", ".jpg", 0), Some(0));
}

#[test]
fn first_free_index_skips_taken_candidate() {
    // A pre-existing `img_0.jpg` must push the resolver to index 1.
    let existing: Vec<String> = vec!["img_0.jpg".to_string()];
    assert_eq!(first_free_index(&existing, "img", ".jpg", 0), Some(1));
}

#[test]
fn first_free_index_skips_a_run_of_taken_candidates() {
    let existing: Vec<String> = vec![
        "img_2.jpg".to_string(),
        "img_3.jpg".to_string(),
        "img_4.jpg".to_string(),
    ];
    assert_eq!(first_free_index(&existing, "img", ".jpg", 2), Some(5));
}

#[test]
fn first_free_index_respects_extension() {
    // The taken name has another extension, so index 0 stays free.
    let existing: Vec<String> = vec!["img_0.png".to_string()];
    assert_eq!(first_free_index(&existing, "img", ".jpg", 0), Some(0));
}

#[test]
fn sequential_run_assigns_distinct_names_in_listing_order() {
    // A sequential rename over `photo.JPG`, `photo2.jpg`, `doc.txt` with
    // prefix `img`, probing against the names present so far.
    let originals = vec![
        "photo.JPG".to_string(),
        "photo2.jpg".to_string(),
        "doc.txt".to_string(),
    ];
    let mut present = originals.clone();
    let mut number: u64 = 0;
    let mut results: Vec<String> = Vec::new();
    for name in &originals {
        let ext = file_extension(name);
        let index = first_free_index(&present, "img", &ext, number).unwrap();
        let new_name = format!("{}{}", sequential_file_name("img", index), ext);
        present.retain(|n| n != name);
        present.push(new_name.clone());
        results.push(new_name);
        number = index + 1;
    }
    assert_eq!(results, vec!["img_0.JPG", "img_1.jpg", "img_2.txt"]);
    for i in 0..results.len() {
        for j in (i + 1)..results.len() {
            assert_ne!(results[i], results[j]);
        }
    }
}

#[test]
fn resolve_collision_returns_candidate_in_missing_directory() {
    // No file can exist under a directory that is not there, so the
    // first probe succeeds and the counter stays put.
    let mut counter: u64 = 5;
    let path = resolve_collision("no_such_directory_here", "img", ".jpg", &mut counter);
    assert_eq!(path.as_deref(), Some("no_such_directory_here/img_5.jpg"));
    assert_eq!(counter, 5);
}
