use bmm_lib::cache::clear_cache;
use bmm_lib::cache::get_cache_path;
use bmm_lib::cache::get_versions_cache_path;
use bmm_lib::cache::is_usable;
use bmm_lib::cache::load_cache;
use bmm_lib::cache::load_versions_cache;
use bmm_lib::cache::mods_of;
use bmm_lib::cache::rows_of;
use bmm_lib::cache::save_cache;
use bmm_lib::cache::save_versions_cache;
use bmm_lib::cache::versions_cache_file;
use bmm_lib::cache::Category;
use bmm_lib::cache::ColorPair;
use bmm_lib::cache::Mod;
use std::io::Write;

fn sample(title: &str, categories: Vec<Category>) -> Mod {
    Mod {
        title: title.to_string(),
        description: "A description with \u{e9}".to_string(),
        image: Some("image.png".to_string()),
        categories,
        colors: ColorPair { color1: "#fff".to_string(), color2: "#000".to_string() },
        installed: true,
        requires_steamodded: true,
        requires_talisman: false,
        publisher: "someone".to_string(),
        repo: "https://example.invalid/repo".to_string(),
        download_url: "https://example.invalid/file.zip".to_string(),
        folder_name: None,
        version: Some("1.2.3".to_string()),
        last_updated: 1_700_000_000,
    }
}

fn catalog() -> Vec<Mod> {
    vec![
        sample("First", vec![Category::Joker, Category::API]),
        sample("Second", vec![]),
        sample("Third", vec![Category::Content]),
    ]
}

fn gz(raw: &[u8]) -> Vec<u8> {
    let mut encoder = flate2::write::GzEncoder::new(Vec::new(), flate2::Compression::default());
    encoder.write_all(raw).unwrap();
    encoder.finish().unwrap()
}

fn envelope(version: u32, timestamp: u64, versions: Vec<String>) -> Vec<u8> {
    gz(&bincode::serde::encode_to_vec(
        ((version, timestamp), versions),
        bincode::config::standard(),
    )
    .unwrap())
}

#[test]
fn catalog_round_trips() {
    let mods = catalog();
    let file = save_cache(&mods, 1000).unwrap();
    assert_ne!(file, Vec::<u8>::new());
    assert_eq!(load_cache(&file, 1000), Some((mods.clone(), 1000)));
    assert_eq!(load_cache(&file, 1450), Some((mods, 1000)));
}

#[test]
fn repeated_category_comes_back_once() {
    let mods = vec![sample("Twice", vec![Category::Joker, Category::API, Category::Joker])];
    let file = save_cache(&mods, 50).unwrap();
    let expected = vec![sample("Twice", vec![Category::Joker, Category::API])];
    assert_eq!(load_cache(&file, 60), Some((expected, 50)));
}

#[test]
fn catalog_file_is_a_gzip_stream() {
    let file = save_cache(&catalog(), 1000).unwrap();
    assert_eq!(&file[..2], &[0x1f, 0x8b]);
}

#[test]
fn catalog_expires_after_900_seconds() {
    let mods = catalog();
    let file = save_cache(&mods, 1000).unwrap();
    assert_eq!(load_cache(&file, 1899), Some((mods.clone(), 1000)));
    assert_eq!(load_cache(&file, 1900), Some((mods.clone(), 1000)));
    assert_eq!(load_cache(&file, 1901), None);
    assert_eq!(load_cache(&file, u64::MAX), None);
    assert_eq!(load_cache(&file, 0), Some((mods, 1000)));
}

#[test]
fn versions_round_trip_and_expire() {
    let versions = vec!["1.0.0".to_string(), "0.9.8".to_string()];
    let file = save_versions_cache("steamodded", &versions, 50).unwrap();
    assert_eq!(load_versions_cache(&file, 50), Some(versions.clone()));
    assert_eq!(load_versions_cache(&file, 950), Some(versions));
    assert_eq!(load_versions_cache(&file, 951), None);
}

#[test]
fn versions_file_matches_the_layout() {
    let versions = vec!["1.0.0".to_string()];
    let file = save_versions_cache("talisman", &versions, 7).unwrap();
    let mut raw = Vec::new();
    std::io::Read::read_to_end(&mut flate2::read::GzDecoder::new(&file[..]), &mut raw).unwrap();
    assert_eq!(raw, vec![1, 7, 1, 5, b'1', b'.', b'0', b'.', b'0']);
}

#[test]
fn other_version_is_a_miss() {
    let file = envelope(2, 100, vec!["1.0.0".to_string()]);
    assert_eq!(load_versions_cache(&file, 100), None);
    let file = envelope(0, 100, vec![]);
    assert_eq!(load_versions_cache(&file, 100), None);
    let file = envelope(1, 100, vec!["1.0.0".to_string()]);
    assert_eq!(load_versions_cache(&file, 100), Some(vec!["1.0.0".to_string()]));
}

#[test]
fn corrupt_files_are_misses() {
    assert_eq!(load_cache(&[], 0), None);
    assert_eq!(load_cache(b"not a gzip stream", 0), None);
    assert_eq!(load_versions_cache(&[], 0), None);
    assert_eq!(load_versions_cache(&gz(b"\xff\xff\xff"), 0), None);
    assert_eq!(load_cache(&gz(&[]), 0), None);
    let versions_file = save_versions_cache("x", &["1".to_string()], 0).unwrap();
    assert_eq!(load_cache(&versions_file, 0), None);
    let mut cut = save_cache(&catalog(), 0).unwrap();
    cut.truncate(cut.len() / 2);
    assert_eq!(load_cache(&cut, 0), None);
}

#[test]
fn oversized_length_is_a_miss() {
    let raw = vec![1, 0, 1, 0xfd, 0xff, 0xff, 0xff, 0xff, 0xff, 0xff, 0xff, 0xff, b'x'];
    assert_eq!(load_versions_cache(&gz(&raw), 0), None);
}

#[test]
fn usable_envelopes() {
    assert!(is_usable(1, 100, 100));
    assert!(is_usable(1, 100, 1000));
    assert!(!is_usable(1, 100, 1001));
    assert!(is_usable(1, 100, 5));
    assert!(!is_usable(2, 100, 100));
    assert!(!is_usable(0, 100, 100));
    assert!(is_usable(1, u64::MAX, 0));
    assert!(!is_usable(1, 0, u64::MAX));
}

#[test]
fn rows_carry_category_numbers() {
    let rows = rows_of(&catalog());
    assert_eq!(rows[0].0 .3, vec![1, 6]);
    assert_eq!(rows[1].0 .3, Vec::<u32>::new());
    assert_eq!(rows[0].0 .0, "First");
    assert_eq!(rows[0].4 .2, 1_700_000_000);
    assert_eq!(mods_of(&rows), Some(catalog()));
}

#[test]
fn repeated_categories_are_read_once() {
    let mut rows = rows_of(&catalog());
    rows[0].0 .3 = vec![6, 1, 6, 1, 0];
    let mods = mods_of(&rows).unwrap();
    assert_eq!(mods[0].categories, vec![Category::API, Category::Joker, Category::Content]);
}

#[test]
fn unknown_category_number_is_unreadable() {
    let mut rows = rows_of(&catalog());
    rows[2].0 .3 = vec![7];
    assert_eq!(mods_of(&rows), None);
    assert_eq!(Mod::from_row(&rows[2]), None);
    assert_eq!(Mod::from_row(&rows[0]), Some(catalog()[0].clone()));
}

#[test]
fn categories_by_number_and_name() {
    let all = [
        (Category::Content, 0, "Content"),
        (Category::Joker, 1, "Joker"),
        (Category::QualityOfLife, 2, "Quality of Life"),
        (Category::Technical, 3, "Technical"),
        (Category::Miscellaneous, 4, "Miscellaneous"),
        (Category::ResourcePacks, 5, "Resource Packs"),
        (Category::API, 6, "API"),
    ];
    for (category, index, name) in all {
        assert_eq!(category.index(), index);
        assert_eq!(Category::from_index(index as i32), category);
        assert_eq!(Category::from_name(name), category);
        assert_eq!(Category::try_from_index(index as i32), Some(category));
        assert_eq!(Category::try_from_name(name), Some(category));
    }
    assert_eq!(Category::try_from_index(7), None);
    assert_eq!(Category::try_from_index(-1), None);
    assert_eq!(Category::try_from_index(i32::MIN), None);
    assert_eq!(Category::try_from_name("content"), None);
    assert_eq!(Category::try_from_name("APIs"), None);
    assert_eq!(Category::try_from_name(""), None);
}

#[test]
fn large_catalog_is_saved_and_read_back() {
    let mut big = sample("Big", vec![Category::Technical]);
    big.description = "x".repeat(3_000_000);
    let mods = vec![big];
    let file = save_cache(&mods, 7).unwrap();
    assert_eq!(load_cache(&file, 8), Some((mods, 7)));
}

#[test]
fn cache_paths() {
    assert_eq!(get_cache_path("/home/u/.cache"), "/home/u/.cache/bromomethane/mods.cache.bin.gz");
    assert_eq!(versions_cache_file("steamodded"), "versions-steamodded.cache.bin.gz");
    assert_eq!(
        get_versions_cache_path("/c", "talisman"),
        "/c/bromomethane/versions-talisman.cache.bin.gz"
    );
    assert_eq!(
        clear_cache("/c"),
        vec![
            "/c/bromomethane/mods.cache.bin.gz".to_string(),
            "/c/bromomethane/versions-steamodded.cache.bin.gz".to_string(),
            "/c/bromomethane/versions-talisman.cache.bin.gz".to_string(),
        ]
    );
}
