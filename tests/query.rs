use filescan::query::{advanced_search, basic_search, extension_matches, AdvancedFilterOptions, MAX_RESULTS};
use filescan::record::{FileMetadata, SearchResult};
use filescan::scan::Catalogue;

fn rec(path: &str, name: &str, size: u64) -> FileMetadata {
    FileMetadata::new(path.to_string(), name.to_string(), size, 1_700_000_000)
}

fn sample() -> Vec<FileMetadata> {
    vec![
        rec("/a/report.txt", "report.txt", 10),
        rec("/a/report.csv", "report.csv", 2000),
        rec("/b/image.png", "image.png", 500),
    ]
}

fn paths(r: &[SearchResult]) -> Vec<String> {
    r.iter().map(|x| x.file_path.clone()).collect()
}

fn no_filters() -> AdvancedFilterOptions {
    AdvancedFilterOptions::new(None, None, None)
}

#[test]
fn advanced_report_csv_scenario() {
    let f = AdvancedFilterOptions::new(Some("csv".to_string()), None, None);
    let r = advanced_search(&sample(), "report", &f);
    assert_eq!(paths(&r), vec!["/a/report.csv".to_string()]);
    assert_eq!(r[0].name, "report.csv");
    assert_eq!(r[0].size, 2000);
    assert_eq!(r[0].modified_time, 1_700_000_000);
    assert!(r[0].line_number.is_none() && r[0].content.is_none() && r[0].matches.is_none());
}

#[test]
fn basic_path_fragment_scenario() {
    let r = basic_search(&sample(), "b/");
    assert_eq!(paths(&r), vec!["/b/image.png".to_string()]);
}

#[test]
fn basic_empty_query_returns_everything() {
    let r = basic_search(&sample(), "");
    assert_eq!(r.len(), 3);
    assert_eq!(paths(&r), vec!["/a/report.txt", "/a/report.csv", "/b/image.png"]);
}

#[test]
fn basic_empty_query_on_empty_catalogue() {
    assert!(basic_search(&Vec::new(), "").is_empty());
}

#[test]
fn advanced_empty_query_without_filters_returns_everything() {
    let r = advanced_search(&sample(), "", &no_filters());
    assert_eq!(r.len(), 3);
}

#[test]
fn basic_query_ignores_case() {
    let r = basic_search(&sample(), "REPORT");
    assert_eq!(paths(&r), vec!["/a/report.txt", "/a/report.csv"]);
    let r = basic_search(&vec![rec("/x/Photo.JPG", "Photo.JPG", 1)], "photo.jpg");
    assert_eq!(r.len(), 1);
}

#[test]
fn basic_query_without_match() {
    assert!(basic_search(&sample(), "nothing-here").is_empty());
}

#[test]
fn results_capped_at_limit() {
    let files: Vec<FileMetadata> =
        (0..1200).map(|i| rec(&format!("/d/f{}.txt", i), &format!("f{}.txt", i), i)).collect();
    let r = basic_search(&files, "");
    assert_eq!(r.len(), MAX_RESULTS);
    assert_eq!(r.len(), 500);
    assert_eq!(r[0].file_path, "/d/f0.txt");
    assert_eq!(r[499].file_path, "/d/f499.txt");
    let r = advanced_search(&files, "f", &no_filters());
    assert_eq!(r.len(), 500);
    let r = advanced_search(&files, "", &AdvancedFilterOptions::new(None, Some(1000), None));
    assert_eq!(r.len(), 200);
    assert_eq!(r[0].file_path, "/d/f1000.txt");
}

#[test]
fn equal_size_bounds_pin_size() {
    let files = vec![rec("/a/x", "x", 499), rec("/a/y", "y", 500), rec("/a/z", "z", 501), rec("/b/w", "w", 500)];
    let r = advanced_search(&files, "", &AdvancedFilterOptions::new(None, Some(500), Some(500)));
    assert_eq!(paths(&r), vec!["/a/y", "/b/w"]);
    assert!(r.iter().all(|x| x.size == 500));
}

#[test]
fn size_bounds_are_inclusive() {
    let r = advanced_search(&sample(), "", &AdvancedFilterOptions::new(None, Some(10), Some(500)));
    assert_eq!(paths(&r), vec!["/a/report.txt", "/b/image.png"]);
}

#[test]
fn extension_filter_excludes_paths_without_extension() {
    let files = vec![
        rec("/a/README", "README", 1),
        rec("/a/.bashrc", ".bashrc", 1),
        rec("/a/notes.md", "notes.md", 1),
        rec("/a/dir.md/plain", "plain", 1),
    ];
    let r = advanced_search(&files, "", &AdvancedFilterOptions::new(Some("md".to_string()), None, None));
    assert_eq!(paths(&r), vec!["/a/notes.md"]);
}

#[test]
fn extension_filter_ignores_ascii_case() {
    let r = advanced_search(&sample(), "", &AdvancedFilterOptions::new(Some("CSV".to_string()), None, None));
    assert_eq!(paths(&r), vec!["/a/report.csv"]);
}

#[test]
fn empty_extension_filter_is_no_filter() {
    let r = advanced_search(&sample(), "", &AdvancedFilterOptions::new(Some(String::new()), None, None));
    assert_eq!(r.len(), 3);
}

#[test]
fn advanced_query_and_filters_combine() {
    let f = AdvancedFilterOptions::new(Some("txt".to_string()), Some(5), None);
    let r = advanced_search(&sample(), "report", &f);
    assert_eq!(paths(&r), vec!["/a/report.txt"]);
    let f = AdvancedFilterOptions::new(Some("png".to_string()), None, None);
    assert!(advanced_search(&sample(), "report", &f).is_empty());
}

#[test]
fn catalogue_queries_read_its_records() {
    let mut c = Catalogue::new();
    c.merge(sample());
    assert_eq!(c.len(), 3);
    assert_eq!(paths(&c.basic_search("image")), vec!["/b/image.png"]);
    let f = AdvancedFilterOptions::new(Some("csv".to_string()), None, None);
    assert_eq!(paths(&c.advanced_search("report", &f)), vec!["/a/report.csv"]);
}

#[test]
fn search_result_from_record() {
    let r = SearchResult::from(rec("/a/report.txt", "report.txt", 10));
    assert_eq!(r.file_path, "/a/report.txt");
    assert_eq!(r.name, "report.txt");
    assert_eq!(r.size, 10);
    assert!(r.line_number.is_none() && r.content.is_none() && r.matches.is_none());
}

#[test]
fn extension_filter_values() {
    let some = |s: &str| Some(s.to_string());
    assert!(extension_matches(&None, &None));
    assert!(extension_matches(&some(""), &None));
    assert!(extension_matches(&some("csv"), &some("CSV")));
    assert!(!extension_matches(&some("csv"), &some("txt")));
    assert!(!extension_matches(&some("csv"), &None));
    assert!(!extension_matches(&some("csv"), &some("csv.gz")));
}
