use shape_canvas::file_operations::{has_json_extension, initialize_sample_files, saved_files, string_le};

fn strings(names: &[&str]) -> Vec<String> {
    names.iter().map(|n| n.to_string()).collect()
}

#[test]
fn json_extension_is_detected() {
    assert!(has_json_extension(&"a.json".to_string()));
    assert!(has_json_extension(&"sample_circle.json".to_string()));
    assert!(!has_json_extension(&"a.jso".to_string()));
    assert!(!has_json_extension(&"json".to_string()));
    assert!(!has_json_extension(&"a.JSON".to_string()));
    assert!(!has_json_extension(&"".to_string()));
    assert!(has_json_extension(&".json".to_string()));
}

#[test]
fn string_le_is_lexicographic() {
    assert!(string_le(&"a".to_string(), &"b".to_string()));
    assert!(!string_le(&"b".to_string(), &"a".to_string()));
    assert!(string_le(&"abc".to_string(), &"abc".to_string()));
    assert!(string_le(&"ab".to_string(), &"abc".to_string()));
    assert!(!string_le(&"abc".to_string(), &"ab".to_string()));
    assert!(string_le(&"".to_string(), &"a".to_string()));
    assert!(string_le(&"A".to_string(), &"a".to_string()));
}

#[test]
fn saved_files_filters_and_sorts() {
    let names = strings(&["zeta.json", "notes.txt", "alpha.json", "readme", "mid.json"]);
    let files = saved_files(&names);
    assert_eq!(files, strings(&["alpha.json", "mid.json", "zeta.json"]));
}

#[test]
fn saved_files_keeps_duplicates() {
    let names = strings(&["b.json", "a.json", "b.json"]);
    let files = saved_files(&names);
    assert_eq!(files, strings(&["a.json", "b.json", "b.json"]));
}

#[test]
fn saved_files_of_listing_without_documents_is_empty() {
    let names = strings(&["a.txt", "b.png"]);
    assert!(saved_files(&names).is_empty());
    assert!(saved_files(&Vec::new()).is_empty());
}

#[test]
fn sample_files_seed_the_storage() {
    let samples = initialize_sample_files();
    assert_eq!(samples.len(), 2);
    assert_eq!(samples[0].0, "sample_circle.json");
    assert_eq!(samples[1].0, "sample_square.json");
    assert!(samples[0].1.contains("<circle cx=\\\"35\\\" cy=\\\"35\\\" r=\\\"25\\\""));
    assert!(samples[0].1.contains("Circle Doc"));
    assert!(samples[1].1.contains("<rect x=\\\"15\\\" y=\\\"15\\\""));
    assert!(samples[1].1.contains("Square Doc"));
    // Both samples are JSON documents with an html field.
    assert!(samples[0].1.starts_with("{\n  \"html\": \""));
    assert!(samples[1].1.ends_with("</svg>\"\n}"));
    // The sample names themselves pass the saved-document filter.
    let names: Vec<String> = samples.iter().map(|(name, _)| name.clone()).collect();
    assert_eq!(saved_files(&names), names);
}
