use comik::providers::file_system::{FileSystemCollectionProvider, FileSystemComicProvider};
use comik::providers::{ArchiveSource, ProviderError};

fn png_bytes(r: u8, g: u8, b: u8) -> Vec<u8> {
    let img = image::RgbImage::from_pixel(1, 1, image::Rgb([r, g, b]));
    let mut buf = std::io::Cursor::new(Vec::new());
    image::DynamicImage::ImageRgb8(img)
        .write_to(&mut buf, image::ImageFormat::Png)
        .unwrap();
    buf.into_inner()
}

fn pixel_of(img: &image::DynamicImage) -> (u8, u8, u8) {
    let rgb = img.to_rgb8();
    let p = rgb.get_pixel(0, 0);
    (p[0], p[1], p[2])
}

/// An in-memory archive container with fixed entries.
struct StubArchive {
    entries: Vec<(String, Vec<u8>)>,
    extract_calls: usize,
}

impl StubArchive {
    fn new(entries: Vec<(&str, Vec<u8>)>) -> Self {
        StubArchive {
            entries: entries
                .into_iter()
                .map(|(n, d)| (n.to_string(), d))
                .collect(),
            extract_calls: 0,
        }
    }
}

impl ArchiveSource for StubArchive {
    fn list_entries(&mut self) -> Result<Vec<String>, ProviderError> {
        Ok(self.entries.iter().map(|(n, _)| n.clone()).collect())
    }

    fn extract_entry(&mut self, name: &String) -> Result<Vec<u8>, ProviderError> {
        self.extract_calls += 1;
        self.entries
            .iter()
            .find(|(n, _)| n == name)
            .map(|(_, d)| d.clone())
            .ok_or(ProviderError::ArchiveReadError)
    }
}

/// A container that must never be touched: opening an unsupported path has
/// to fail before any I/O is attempted.
struct PanickingArchive;

impl ArchiveSource for PanickingArchive {
    fn list_entries(&mut self) -> Result<Vec<String>, ProviderError> {
        panic!("the container was touched");
    }

    fn extract_entry(&mut self, _name: &String) -> Result<Vec<u8>, ProviderError> {
        panic!("the container was touched");
    }
}

/// A container that fails on listing or extraction.
struct FailingArchive {
    fail_listing: bool,
    names: Vec<String>,
}

impl ArchiveSource for FailingArchive {
    fn list_entries(&mut self) -> Result<Vec<String>, ProviderError> {
        if self.fail_listing {
            Err(ProviderError::ArchiveReadError)
        } else {
            Ok(self.names.clone())
        }
    }

    fn extract_entry(&mut self, _name: &String) -> Result<Vec<u8>, ProviderError> {
        Err(ProviderError::ArchiveReadError)
    }
}

/// A container that hands back a differently colored image on every real
/// extraction call; cached bytes must therefore decode to the first color.
struct CountingArchive {
    name: String,
    calls: usize,
}

impl ArchiveSource for CountingArchive {
    fn list_entries(&mut self) -> Result<Vec<String>, ProviderError> {
        Ok(vec![self.name.clone()])
    }

    fn extract_entry(&mut self, _name: &String) -> Result<Vec<u8>, ProviderError> {
        self.calls += 1;
        Ok(png_bytes(self.calls as u8, 0, 0))
    }
}

#[test]
fn collection_reports_name_size_and_paths() {
    let c = FileSystemCollectionProvider::new(
        "shelf".to_string(),
        vec!["a.cbz".to_string(), "b.zip".to_string()],
    )
    .unwrap();
    assert_eq!(c.get_name(), "shelf");
    assert_eq!(c.get_size(), 2);
    assert_eq!(c.get_path(1).unwrap(), "b.zip");
    assert!(matches!(c.get_path(2), Err(ProviderError::IndexOutOfRange)));
}

#[test]
fn get_comic_past_the_end_is_index_out_of_range() {
    let c = FileSystemCollectionProvider::new("".to_string(), vec!["a.cbz".to_string()])
        .unwrap();
    let r = c.get_comic(c.get_size(), StubArchive::new(vec![]));
    assert!(matches!(r, Err(ProviderError::IndexOutOfRange)));
}

#[test]
fn get_comic_builds_the_comic_at_the_index() {
    let c = FileSystemCollectionProvider::new(
        "".to_string(),
        vec!["shelf/vol1.cbz".to_string()],
    )
    .unwrap();
    let comic = c
        .get_comic(0, StubArchive::new(vec![("p.png", png_bytes(1, 2, 3))]))
        .unwrap();
    assert_eq!(comic.get_title(), "vol1.cbz");
    assert_eq!(comic.get_length(), 1);
    assert!(comic.open().is_ok());
}

#[test]
fn unsupported_extension_fails_without_touching_the_container() {
    let r = FileSystemComicProvider::new("notes.txt".to_string(), PanickingArchive);
    assert!(matches!(r, Err(ProviderError::UnsupportedFormat)));
}

#[test]
fn hidden_file_named_like_an_extension_is_unsupported() {
    let r = FileSystemComicProvider::new(".cbz".to_string(), PanickingArchive);
    assert!(matches!(r, Err(ProviderError::UnsupportedFormat)));
}

#[test]
fn all_recognized_extensions_open() {
    for path in ["a.zip", "a.cbz", "a.rar", "a.cbr", "dir/deep/a.tar.cbz"] {
        let r = FileSystemComicProvider::new(path.to_string(), StubArchive::new(vec![]));
        assert!(r.is_ok(), "{path} should open");
    }
}

#[test]
fn listing_failure_is_archive_read_error() {
    let r = FileSystemComicProvider::new(
        "a.cbz".to_string(),
        FailingArchive { fail_listing: true, names: vec![] },
    );
    assert!(matches!(r, Err(ProviderError::ArchiveReadError)));
}

#[test]
fn extraction_failure_is_archive_read_error() {
    let mut comic = FileSystemComicProvider::new(
        "a.cbz".to_string(),
        FailingArchive { fail_listing: false, names: vec!["p.png".to_string()] },
    )
    .unwrap();
    assert!(matches!(
        comic.get_page(0),
        Err(ProviderError::ArchiveReadError)
    ));
}

#[test]
fn round_trip_pages_come_back_in_lexicographic_order() {
    let red = png_bytes(255, 0, 0);
    let green = png_bytes(0, 255, 0);
    let blue = png_bytes(0, 0, 255);
    let mut comic = FileSystemComicProvider::new(
        "trip.cbz".to_string(),
        StubArchive::new(vec![
            ("010.png", blue.clone()),
            ("001.png", red.clone()),
            ("002.png", green.clone()),
        ]),
    )
    .unwrap();
    assert_eq!(comic.get_length(), 3);
    let expected = [
        ("001.png", (255u8, 0u8, 0u8)),
        ("002.png", (0, 255, 0)),
        ("010.png", (0, 0, 255)),
    ];
    for (i, (name, color)) in expected.iter().enumerate() {
        let page = comic.get_page(i).unwrap();
        assert_eq!(&page.get_file_name().unwrap(), name);
        assert_eq!(pixel_of(&page.get_image()), *color);
    }
}

#[test]
fn sorting_is_lexicographic_not_numeric() {
    let mut comic = FileSystemComicProvider::new(
        "n.cbz".to_string(),
        StubArchive::new(vec![
            ("2.png", png_bytes(2, 0, 0)),
            ("10.png", png_bytes(10, 0, 0)),
        ]),
    )
    .unwrap();
    assert_eq!(comic.get_page(0).unwrap().get_file_name().unwrap(), "10.png");
    assert_eq!(comic.get_page(1).unwrap().get_file_name().unwrap(), "2.png");
}

#[test]
fn page_past_the_end_is_index_out_of_range() {
    let mut comic = FileSystemComicProvider::new(
        "a.cbz".to_string(),
        StubArchive::new(vec![("p.png", png_bytes(9, 9, 9))]),
    )
    .unwrap();
    let len = comic.get_length();
    assert!(matches!(
        comic.get_page(len),
        Err(ProviderError::IndexOutOfRange)
    ));
}

#[test]
fn corrupt_entry_only_fails_its_own_page() {
    let mut comic = FileSystemComicProvider::new(
        "mixed.cbz".to_string(),
        StubArchive::new(vec![
            ("a.png", png_bytes(1, 1, 1)),
            ("b.png", b"this is no raster image".to_vec()),
            ("c.png", png_bytes(3, 3, 3)),
        ]),
    )
    .unwrap();
    assert_eq!(pixel_of(&comic.get_page(0).unwrap().get_image()), (1, 1, 1));
    assert!(matches!(comic.get_page(1), Err(ProviderError::DecodeError)));
    assert_eq!(pixel_of(&comic.get_page(2).unwrap().get_image()), (3, 3, 3));
    // the corrupt page keeps failing, and keeps failing from its cached bytes
    assert!(matches!(comic.get_page(1), Err(ProviderError::DecodeError)));
    // the valid pages stay usable afterwards
    assert_eq!(pixel_of(&comic.get_page(0).unwrap().get_image()), (1, 1, 1));
}

#[test]
fn raw_bytes_are_extracted_at_most_once_per_page() {
    let mut comic = FileSystemComicProvider::new(
        "count.cbz".to_string(),
        CountingArchive { name: "p.png".to_string(), calls: 0 },
    )
    .unwrap();
    let first = pixel_of(&comic.get_page(0).unwrap().get_image());
    let second = pixel_of(&comic.get_page(0).unwrap().get_image());
    let third = pixel_of(&comic.get_page(0).unwrap().get_image());
    assert_eq!(first, (1, 0, 0));
    assert_eq!(second, first);
    assert_eq!(third, first);
}

#[test]
fn pages_compare_by_file_name_alone() {
    let mut one = FileSystemComicProvider::new(
        "one.cbz".to_string(),
        StubArchive::new(vec![("p.png", png_bytes(1, 0, 0))]),
    )
    .unwrap();
    let mut two = FileSystemComicProvider::new(
        "two.cbz".to_string(),
        StubArchive::new(vec![("p.png", png_bytes(0, 2, 0)), ("q.png", png_bytes(0, 0, 3))]),
    )
    .unwrap();
    let a = one.get_page(0).unwrap();
    let b = two.get_page(0).unwrap();
    let c = two.get_page(1).unwrap();
    assert!(a == b);
    assert!(a != c);
    assert!(b < c);
    assert_eq!(a.partial_cmp(&b), Some(std::cmp::Ordering::Equal));
    assert_eq!(c.partial_cmp(&a), Some(std::cmp::Ordering::Greater));
}

#[test]
fn get_comic_on_an_unsupported_path_fails_with_unsupported_format() {
    let c = FileSystemCollectionProvider::new("".to_string(), vec!["notes.txt".to_string()])
        .unwrap();
    let r = c.get_comic(0, PanickingArchive);
    assert!(matches!(r, Err(ProviderError::UnsupportedFormat)));
}

#[test]
fn same_index_always_names_the_same_entry() {
    let mut comic = FileSystemComicProvider::new(
        "stable.cbz".to_string(),
        StubArchive::new(vec![
            ("b.png", png_bytes(2, 0, 0)),
            ("a.png", png_bytes(1, 0, 0)),
        ]),
    )
    .unwrap();
    for _ in 0..3 {
        assert_eq!(comic.get_page(0).unwrap().get_file_name().unwrap(), "a.png");
        assert_eq!(comic.get_page(1).unwrap().get_file_name().unwrap(), "b.png");
    }
}

#[test]
fn empty_archive_has_no_pages() {
    let mut comic =
        FileSystemComicProvider::new("empty.cbz".to_string(), StubArchive::new(vec![])).unwrap();
    assert_eq!(comic.get_length(), 0);
    assert!(matches!(
        comic.get_page(0),
        Err(ProviderError::IndexOutOfRange)
    ));
}

#[test]
fn duplicate_entry_names_keep_both_pages() {
    let mut comic = FileSystemComicProvider::new(
        "dup.cbz".to_string(),
        StubArchive::new(vec![
            ("a.png", png_bytes(1, 0, 0)),
            ("a.png", png_bytes(1, 0, 0)),
        ]),
    )
    .unwrap();
    assert_eq!(comic.get_length(), 2);
    assert_eq!(comic.get_page(0).unwrap().get_file_name().unwrap(), "a.png");
    assert_eq!(comic.get_page(1).unwrap().get_file_name().unwrap(), "a.png");
}

#[test]
fn empty_path_is_unsupported() {
    let r = FileSystemComicProvider::new(String::new(), PanickingArchive);
    assert!(matches!(r, Err(ProviderError::UnsupportedFormat)));
}

#[test]
fn ui_and_state_build() {
    let _ui = comik::ui::Ui::new();
    let _state = comik::AppState {};
}
