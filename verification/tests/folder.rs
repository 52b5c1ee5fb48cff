use fire::folder::{is_supported_extension, is_supported_image, scan, scan_order, Folder, Listed};
use fire::natural::natural_cmp;
use std::cmp::Ordering;

fn paths(list: &[&str]) -> Vec<String> {
    list.iter().map(|s| s.to_string()).collect()
}

fn listed(path: &str, is_dir: bool) -> Listed {
    Listed { path: path.to_string(), is_dir }
}

#[test]
fn supported_image_is_case_insensitive() {
    assert!(is_supported_image("a.png"));
    assert!(is_supported_image("a.PNG"));
    assert!(is_supported_image(r"C:\x\photo.JpEg"));
    assert!(is_supported_image("a.avif"));
    assert!(!is_supported_image("a.txt"));
    assert!(!is_supported_image("noext"));
}

#[test]
fn natural_sort_orders_numbers_by_value() {
    let mut names = vec!["img10.png", "img2.png", "img1.png", "img12.png"];
    names.sort_by(|a, b| natural_cmp(a, b));
    assert_eq!(names, vec!["img1.png", "img2.png", "img10.png", "img12.png"]);
}

#[test]
fn natural_sort_is_case_insensitive() {
    let mut names = vec!["Banana.jpg", "apple.jpg", "cherry.JPG"];
    names.sort_by(|a, b| natural_cmp(a, b));
    assert_eq!(names, vec!["apple.jpg", "Banana.jpg", "cherry.JPG"]);
}

#[test]
fn cursor_finds_current_and_wraps() {
    let entries = paths(&[r"C:\d\a.png", r"C:\d\b.png", r"C:\d\c.png"]);
    // Match is case-insensitive on the file name.
    let mut f = Folder::new(entries, r"C:\d\B.PNG").unwrap();
    assert_eq!(f.len(), 3);
    assert_eq!(f.position(), 2);
    assert_eq!(f.advance(1), r"C:\d\c.png");
    assert_eq!(f.position(), 3);
    assert_eq!(f.advance(1), r"C:\d\a.png"); // wraps past the end
    assert_eq!(f.position(), 1);
    assert_eq!(f.advance(-1), r"C:\d\c.png"); // wraps past the start
    assert_eq!(f.position(), 3);
}

#[test]
fn cursor_none_when_current_absent() {
    let entries = paths(&[r"C:\d\a.png"]);
    assert!(Folder::new(entries, r"C:\d\missing.png").is_none());
}

#[test]
fn cursor_matches_names_in_unicode_lower_case() {
    let f = Folder::new(paths(&["/d/a.png", "/d/ÄRGER.PNG"]), "/other/ärger.png").unwrap();
    assert_eq!(f.position(), 2);
    // A path that ends in `..` has no file name to look for.
    assert!(Folder::new(paths(&["/d/a.png"]), "/d/..").is_none());
    assert!(Folder::new(Vec::new(), "/d/a.png").is_none());
}

#[test]
fn cursor_stops_at_the_first_of_two_names() {
    let f = Folder::new(paths(&["/d/x.png", "/d/A.png", "/d/a.png"]), "/d/a.png").unwrap();
    assert_eq!(f.position(), 2);
}

#[test]
fn paging_adds_up_and_undoes() {
    let mut f = Folder::new(paths(&["/d/a.png", "/d/b.png", "/d/c.png", "/d/d.png"]), "/d/c.png").unwrap();
    assert_eq!(f.advance(7), "/d/b.png");
    assert_eq!(f.advance(-7), "/d/c.png");
    assert_eq!(f.advance(4), "/d/c.png");
    assert_eq!(f.advance(-9), "/d/b.png");
    assert_eq!(f.advance(isize::MAX), "/d/a.png");
    assert_eq!(f.advance(isize::MIN), "/d/a.png");
}

#[test]
fn extensions_are_matched_whole() {
    assert!(is_supported_extension("Cr2"));
    assert!(is_supported_extension("raw"));
    assert!(!is_supported_extension("pn"));
    assert!(!is_supported_extension("pngx"));
    assert!(!is_supported_extension(""));
    assert!(!is_supported_image(".png"));
    assert!(is_supported_image("..png"));
    assert!(is_supported_image("/d/a.tar.PNG"));
    assert!(!is_supported_image("/d/a.png."));
    assert!(!is_supported_image("/d.png/a"));
}

#[test]
fn natural_order_on_values_runs_and_case() {
    assert_eq!(natural_cmp("", ""), Ordering::Equal);
    assert_eq!(natural_cmp("", "a"), Ordering::Less);
    assert_eq!(natural_cmp("a", ""), Ordering::Greater);
    assert_eq!(natural_cmp("IMG1", "img1"), Ordering::Equal);
    assert_eq!(natural_cmp("img1", "img01"), Ordering::Less);
    assert_eq!(natural_cmp("img01", "img1b"), Ordering::Greater);
    assert_eq!(natural_cmp("img007", "img08"), Ordering::Less);
    assert_eq!(natural_cmp("a-", "a0"), Ordering::Less);
    assert_eq!(natural_cmp("a0", "a_"), Ordering::Less);
    assert_eq!(
        natural_cmp("x99999999999999999999999", "x100000000000000000000000"),
        Ordering::Less
    );
}

#[test]
fn a_scan_keeps_images_in_order() {
    let listing = vec![
        listed("/d/img10.png", false),
        listed("/d/notes.txt", false),
        listed("/d/IMG2.png", false),
        listed("/d/folder.png", true),
        listed("/d/img2.PNG", false),
        listed("/d/img1.jpg", false),
    ];
    assert_eq!(scan_order(&listing), vec![5, 2, 4, 0]);
    assert_eq!(
        scan(&listing),
        paths(&["/d/img1.jpg", "/d/IMG2.png", "/d/img2.PNG", "/d/img10.png"])
    );
    assert!(scan(&Vec::new()).is_empty());
}
