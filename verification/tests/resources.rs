use kdownloader::resources::{retain_downloadable, sum_sizes};
use kdownloader::{FileResource, ResourceInfo};

fn entry(path: &str, size: i32, url: &str) -> FileResource {
    FileResource {
        path: path.to_string(),
        version: 1,
        size,
        sum: String::new(),
        url: url.to_string(),
    }
}

#[test]
fn filter_drops_entries_without_url() {
    let files = vec![
        entry("a", 1, "http://x/a"),
        entry("b", 2, ""),
        entry("c", 3, "http://x/c"),
        entry("", 4, ""),
        entry("e", 5, "http://x/e"),
    ];
    let kept = retain_downloadable(&files);
    assert_eq!(
        kept,
        vec![entry("a", 1, "http://x/a"), entry("c", 3, "http://x/c"), entry("e", 5, "http://x/e")]
    );
    assert!(kept.iter().all(|f| !f.url.is_empty()));
}

#[test]
fn filter_keeps_order_and_duplicates() {
    let files = vec![
        entry("z", 0, "u3"),
        entry("a", 0, "u1"),
        entry("z", 0, "u3"),
        entry("m", 0, "u2"),
    ];
    let kept = retain_downloadable(&files);
    assert_eq!(kept, files);
}

#[test]
fn filter_of_nothing_is_nothing() {
    let kept = retain_downloadable(&Vec::new());
    assert!(kept.is_empty());
    let none = retain_downloadable(&vec![entry("a", 1, ""), entry("b", 2, "")]);
    assert!(none.is_empty());
}

#[test]
fn filter_keeps_entry_with_empty_path_and_checksum() {
    let files = vec![entry("", 7, "http://x/")];
    assert_eq!(retain_downloadable(&files), files);
}

#[test]
fn filter_leaves_its_input_alone() {
    let files = vec![entry("a", 1, ""), entry("b", 2, "u")];
    let before = files.clone();
    let _ = retain_downloadable(&files);
    assert_eq!(files, before);
}

#[test]
fn total_is_the_sum_of_the_sizes() {
    let files = vec![entry("a", 10, "u"), entry("b", 0, "u"), entry("c", 32, "u")];
    assert_eq!(sum_sizes(&files), 42);
    assert_eq!(sum_sizes(&Vec::new()), 0);
    assert_eq!(sum_sizes(&vec![entry("a", i32::MAX, "u")]), i32::MAX as usize);
}

#[test]
fn total_of_two_largest_sizes_does_not_wrap_a_word() {
    let files = vec![entry("a", i32::MAX, "u"), entry("b", i32::MAX, "u")];
    assert_eq!(sum_sizes(&files), 2 * (i32::MAX as usize));
}

#[test]
fn negative_size_counts_as_its_unsigned_word() {
    assert_eq!(sum_sizes(&vec![entry("a", -1, "u")]), usize::MAX);
    assert_eq!(sum_sizes(&vec![entry("a", i32::MIN, "u")]), usize::MAX - (i32::MAX as usize));
}

#[test]
fn total_wraps_around_the_word() {
    assert_eq!(sum_sizes(&vec![entry("a", -1, "u"), entry("b", 2, "u")]), 1);
    assert_eq!(sum_sizes(&vec![entry("a", 5, "u"), entry("b", -5, "u")]), 0);
    assert_eq!(sum_sizes(&vec![entry("a", -1, "u"), entry("b", -1, "u")]), usize::MAX - 1);
}

#[test]
fn size_word_of_one_entry() {
    assert_eq!(entry("a", 0, "u").size_word(), 0);
    assert_eq!(entry("a", 77, "u").size_word(), 77);
    assert_eq!(entry("a", -2, "u").size_word(), usize::MAX - 1);
}

#[test]
fn downloadable_is_about_the_url_alone() {
    assert!(entry("", 0, "u").is_downloadable());
    assert!(!entry("a.txt", 5, "").is_downloadable());
    assert!(entry("a", 0, " ").is_downloadable());
}

#[test]
fn duplicate_is_equal() {
    let file = FileResource {
        path: "dir/a.bin".to_string(),
        version: -3,
        size: 9,
        sum: "00ff".to_string(),
        url: "http://x/a".to_string(),
    };
    assert_eq!(file.duplicate(), file);
}

#[test]
fn default_entry_is_empty() {
    let file = FileResource::default();
    assert_eq!(
        file,
        FileResource {
            path: String::new(),
            version: 0,
            size: 0,
            sum: String::new(),
            url: String::new(),
        }
    );
    assert!(!file.is_downloadable());
    assert!(ResourceInfo::default().files.is_empty());
}
