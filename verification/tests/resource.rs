use comik::providers::ProviderError;
use comik::resource::{ResourceLoader, TextureManager};
use std::cell::Cell;

fn some_image(shade: u8) -> image::DynamicImage {
    image::DynamicImage::ImageRgb8(image::RgbImage::from_pixel(
        1,
        1,
        image::Rgb([shade, shade, shade]),
    ))
}

/// Converts an image into a numbered stand-in resource, counting every real
/// conversion it runs.
struct CountingLoader {
    conversions: Cell<u32>,
}

impl ResourceLoader<u32> for CountingLoader {
    fn load(&self, _image: image::DynamicImage) -> Result<u32, String> {
        self.conversions.set(self.conversions.get() + 1);
        Ok(self.conversions.get())
    }
}

/// A loader whose conversion always fails.
struct FailingLoader;

impl ResourceLoader<u32> for FailingLoader {
    fn load(&self, _image: image::DynamicImage) -> Result<u32, String> {
        Err("no backing store".to_string())
    }
}

#[test]
fn load_converts_a_key_at_most_once() {
    let mut tm = TextureManager::new(CountingLoader { conversions: Cell::new(0) });
    let first = tm.load("001.png", some_image(10)).unwrap();
    // a second load under the same key ignores the new image entirely
    let second = tm.load("001.png", some_image(200)).unwrap();
    assert_eq!(*first, *second);
    assert_eq!(tm.loader.conversions.get(), 1);
}

#[test]
fn distinct_keys_convert_separately() {
    let mut tm = TextureManager::new(CountingLoader { conversions: Cell::new(0) });
    let a = tm.load("a.png", some_image(1)).unwrap();
    let b = tm.load("b.png", some_image(2)).unwrap();
    assert_ne!(*a, *b);
    assert_eq!(tm.loader.conversions.get(), 2);
}

#[test]
fn has_and_get_report_only_loaded_keys() {
    let mut tm = TextureManager::new(CountingLoader { conversions: Cell::new(0) });
    assert!(!tm.has("a.png"));
    assert!(tm.get("a.png").is_none());
    let loaded = tm.load("a.png", some_image(1)).unwrap();
    assert!(tm.has("a.png"));
    assert_eq!(*tm.get("a.png").unwrap(), *loaded);
    assert!(!tm.has("b.png"));
    // get never triggers a conversion
    assert_eq!(tm.loader.conversions.get(), 1);
}

#[test]
fn failed_conversion_is_load_error_and_caches_nothing() {
    let mut tm = TextureManager::new(FailingLoader);
    let r = tm.load("a.png", some_image(1));
    assert!(matches!(r, Err(ProviderError::LoadError)));
    assert!(!tm.has("a.png"));
}
