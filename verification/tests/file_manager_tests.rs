use mirage_fit::handlers::{hash_from_image_path, item_info};
use mirage_fit::config::{Config, Environment, ImageType};
use mirage_fit::file_manager::{
    cache_eviction, CachedFile,
    file_has_hash, first_match, listed_image_stem, listed_stems, split_file_name, DirEntryInfo,
    FileManager,
};
use mirage_fit::gemini::create_placeholder_image;
use mirage_fit::models::ItemCategory;
use mirage_fit::Error;

/// The test configuration in an environment with a known home directory and
/// no overrides.
fn default_config() -> Config {
    Config::default_in(Environment {
        gemini_api_key: None,
        server_host: None,
        server_port: None,
        public_url: None,
        home_dir: Some("/home/tester".to_string()),
    })
}

fn entry(name: &str, is_file: bool, created: u64) -> DirEntryInfo {
    DirEntryInfo { file_name: name.to_string(), is_file, size: Some(100), created_secs: created }
}

#[test]
fn test_hash_calculation() {
    let file_manager = FileManager::new(&default_config());

    let data = b"test image data";
    let hash1 = file_manager.calculate_hash(data);
    let hash2 = file_manager.calculate_hash(data);

    assert_eq!(hash1, hash2);
    assert!(!hash1.is_empty());
}

#[test]
fn file_manager_hash_is_blake3_hex() {
    let file_manager = FileManager::new(&default_config());
    let data = b"test image data";
    let expected = blake3::hash(data).to_hex().to_string();
    assert_eq!(file_manager.calculate_hash(data), expected);
    assert_eq!(file_manager.short_hash(data), expected[..6].to_string());
    assert_eq!(
        file_manager.calculate_hash(b""),
        "af1349b9f5f9a1a6a0404dea36dcc9499bcb25c9adc112b7cc9a93cae41f3262"
    );
}

#[test]
fn test_save_input_image() {
    let file_manager = FileManager::new(&default_config());
    let jpeg_data = vec![0xFF, 0xD8, 0xFF, 0xE0, 0x00, 0x10, 0x4A, 0x46, 0x49, 0x46];
    let result = file_manager.plan_input_image(&jpeg_data);
    assert!(result.is_err());
}

#[test]
fn file_manager_input_plan_and_metadata() {
    let file_manager = FileManager::new(&default_config());
    let jpeg = create_placeholder_image();
    let plan = file_manager.plan_input_image(&jpeg).unwrap();
    let short = file_manager.short_hash(&jpeg);
    assert_eq!(plan.mime_type, "image/jpeg");
    assert_eq!(plan.short_hash, short);
    assert_eq!(plan.file_name, format!("{}.jpg", short));
    assert_eq!(plan.path, format!("/home/tester/.mirage-fit/input/{}.jpg", short));

    let fresh = file_manager.input_image_metadata(&plan, &jpeg, None, 1700000000).unwrap();
    assert_eq!(fresh.dimensions, (1, 1));
    assert_eq!(fresh.created_at, "2023-11-14T22:13:20Z");
    assert_eq!(fresh.size, jpeg.len() as u64);
    assert_eq!(fresh.filename, Some(format!("{}.jpg", short)));
    assert_eq!(fresh.hash, short);
    assert!(fresh.category.is_none() && fresh.prompt.is_none() && fresh.source_images.is_empty());

    let existing = file_manager.input_image_metadata(&plan, &jpeg, Some(42), 1700000000).unwrap();
    assert_eq!(existing.created_at, "1970-01-01T00:00:42Z");
}

#[test]
fn file_manager_input_plan_errors() {
    let file_manager = FileManager::new(&default_config());
    let big = vec![0u8; 10 * 1024 * 1024 + 1];
    match file_manager.plan_input_image(&big) {
        Err(Error::InvalidRequest { message }) => assert!(message.starts_with("File size (10485761 bytes)")),
        _ => panic!("too large"),
    }
    match file_manager.plan_input_image(&[0u8; 20]) {
        Err(Error::InvalidImage { message }) => assert_eq!(message, "Unsupported or invalid image format"),
        _ => panic!("unknown format"),
    }
    let mut config = default_config();
    config.fs.supported_formats = vec!["image/png".to_string()];
    let png_only = FileManager::new(&config);
    match png_only.plan_input_image(&create_placeholder_image()) {
        Err(Error::InvalidImage { message }) => assert_eq!(message, "Unsupported image format: image/jpeg"),
        _ => panic!("unsupported"),
    }
    let mut config = default_config();
    config.fs.supported_formats = vec!["image/jpeg".to_string()];
    let fm = FileManager::new(&config);
    let mut broken = vec![0xFF, 0xD8, 0xFF, 0xE0];
    broken.extend_from_slice(&[0u8; 20]);
    let plan = fm.plan_input_image(&broken).unwrap();
    match fm.input_image_metadata(&plan, &broken, None, 1) {
        Err(Error::InvalidImage { message }) => assert!(message.starts_with("Failed to get image dimensions: ")),
        _ => panic!("undecodable"),
    }
    let stored = fm.input_image_metadata(&plan, &broken, Some(5), 1).unwrap();
    assert_eq!(stored.dimensions, (1024, 1024));
}

#[test]
fn file_manager_item_and_output_plans() {
    let file_manager = FileManager::new(&default_config());
    let jpeg = create_placeholder_image();
    let short = file_manager.short_hash(&jpeg);
    let item = file_manager
        .plan_item_image(&jpeg, &ItemCategory::Scarf, Some("warm".to_string()), 9)
        .unwrap();
    assert_eq!(item.path, format!("/home/tester/.mirage-fit/items/scarves/{}.jpg", short));
    assert_eq!(item.metadata.category, Some(ItemCategory::Scarf));
    assert_eq!(item.metadata.prompt, Some("warm".to_string()));
    assert_eq!(item.metadata.created_at, "1970-01-01T00:00:09Z");

    let output = file_manager
        .plan_output_image(&jpeg, vec!["abc123".to_string(), "def456".to_string()], 10)
        .unwrap();
    assert_eq!(output.path, format!("/home/tester/.mirage-fit/output/{}.jpg", short));
    assert_eq!(output.metadata.source_images, vec!["abc123".to_string(), "def456".to_string()]);
    assert!(file_manager.plan_output_image(b"not an image", vec![], 1).is_err());
}

#[test]
fn file_manager_metadata_from_stored_data() {
    let file_manager = FileManager::new(&default_config());
    let m = file_manager.metadata_from_image_data("abc123", b"unknown bytes", None, 77);
    assert_eq!(m.mime_type, "image/png");
    assert_eq!(m.filename, Some("abc123.png".to_string()));
    assert_eq!(m.dimensions, (1024, 1024));
    assert_eq!(m.created_at, "1970-01-01T00:01:17Z");
    let jpeg = create_placeholder_image();
    let m = file_manager.metadata_from_image_data("ffeedd", &jpeg, Some(ItemCategory::Bag), 1);
    assert_eq!(m.filename, Some("ffeedd.jpg".to_string()));
    assert_eq!(m.dimensions, (1, 1));
    assert_eq!(m.category, Some(ItemCategory::Bag));
}

#[test]
fn file_manager_file_name_parts() {
    assert_eq!(split_file_name("abc.png"), ("abc".to_string(), Some("png".to_string())));
    assert_eq!(split_file_name("a.b.c"), ("a.b".to_string(), Some("c".to_string())));
    assert_eq!(split_file_name(".hidden"), (".hidden".to_string(), None));
    assert_eq!(split_file_name(".."), ("..".to_string(), None));
    assert_eq!(split_file_name("noext"), ("noext".to_string(), None));
    assert_eq!(split_file_name("a."), ("a".to_string(), Some(String::new())));
    assert_eq!(listed_image_stem("abc123.JPEG"), Some("abc123".to_string()));
    assert_eq!(listed_image_stem("abc123.gif"), None);
    assert_eq!(listed_image_stem(".png"), None);
    assert!(file_has_hash("abc123.png", "abc123"));
    assert!(!file_has_hash("abc123.png", "abc12"));
}

#[test]
fn file_manager_category_listing_newest_first() {
    let file_manager = FileManager::new(&default_config());
    let entries = vec![
        entry("aaaaaa.png", true, 10),
        entry("bbbbbb.txt", true, 50),
        entry("cccccc.JPG", true, 9),
        entry("dddddd.webp", false, 99),
        entry("eeeeee.jpeg", true, 10),
    ];
    let listing = file_manager.category_listing(&ItemCategory::Hat, &entries);
    let names: Vec<String> = listing.iter().map(|m| m.filename.clone().unwrap()).collect();
    assert_eq!(names, vec!["aaaaaa.png", "eeeeee.jpeg", "cccccc.jpg"]);
    assert_eq!(listing[2].mime_type, "image/jpeg");
    assert_eq!(listing[0].mime_type, "image/png");
    assert_eq!(listing[2].hash, "cccccc");
    assert_eq!(listing[0].created_at, "1970-01-01T00:00:10Z");
    assert_eq!(listing[0].dimensions, (1024, 1024));
    assert_eq!(listing[0].size, 100);
    assert!(listing.iter().all(|m| m.category == Some(ItemCategory::Hat)));
}

#[test]
fn file_manager_search_directories() {
    let file_manager = FileManager::new(&default_config());
    assert_eq!(file_manager.search_directories(ImageType::Input), vec!["/home/tester/.mirage-fit/input".to_string()]);
    assert_eq!(file_manager.search_directories(ImageType::Output), vec!["/home/tester/.mirage-fit/output".to_string()]);
    let items = file_manager.search_directories(ImageType::Item);
    assert_eq!(items.len(), 11);
    assert_eq!(items[4], "/home/tester/.mirage-fit/items/bottoms");
}

#[test]
fn file_manager_default_jobs() {
    let jobs = FileManager::default_item_jobs(&vec![0, 1, 2, 5]);
    let summary: Vec<(ItemCategory, Option<String>, u64, String)> = jobs
        .iter()
        .map(|j| (j.category, j.color.clone(), j.delay_ms, j.prompt.clone()))
        .collect();
    assert_eq!(summary[0], (ItemCategory::Hat, None, 0, "Default Hat item #1".to_string()));
    assert_eq!(summary[1], (ItemCategory::Hat, None, 200, "Default Hat item #2".to_string()));
    assert_eq!(summary[2], (ItemCategory::Glasses, None, 200, "Default Glasses item #2".to_string()));
    assert_eq!(
        summary[3],
        (ItemCategory::Top, Some("yellow".to_string()), 1000, "Default Top item #6 (yellow)".to_string())
    );
    assert_eq!(
        summary[4],
        (ItemCategory::Top, Some("gray".to_string()), 1200, "Default Top item #7 (gray)".to_string())
    );
    assert_eq!(
        summary[5],
        (ItemCategory::Top, Some("navy".to_string()), 1400, "Default Top item #8 (navy)".to_string())
    );
    assert_eq!(summary[6], (ItemCategory::BottomSkirt, None, 0, "Default Bottom/Skirt item #1".to_string()));
    assert_eq!(jobs.len(), 3 + 3 + 2 * 7);
    let mut full = vec![2; 11];
    full[3] = 8;
    assert_eq!(FileManager::default_item_jobs(&full).len(), 0);
    assert_eq!(FileManager::default_item_jobs(&vec![2; 11]).len(), 6);
}

#[test]
fn file_manager_default_jobs_from_an_empty_store() {
    let jobs = FileManager::default_item_jobs(&vec![]);
    assert_eq!(jobs.len(), 28);
    let tops: Vec<&str> = jobs
        .iter()
        .filter(|j| j.category == ItemCategory::Top)
        .map(|j| j.color.as_deref().unwrap())
        .collect();
    assert_eq!(tops, vec!["white", "black", "red", "blue", "green", "yellow", "gray", "navy"]);
    for category in ItemCategory::all() {
        let of_category: Vec<_> = jobs.iter().filter(|j| j.category == category).collect();
        if category == ItemCategory::Top {
            assert_eq!(of_category.len(), 8);
        } else {
            assert_eq!(of_category.len(), 2);
            assert!(of_category.iter().all(|j| j.color.is_none()));
        }
    }
    let first_top = jobs.iter().find(|j| j.category == ItemCategory::Top).unwrap();
    assert_eq!(first_top.prompt, "Default Top item #1 (white)");
    assert_eq!(first_top.delay_ms, 0);
}

#[test]
fn file_manager_timestamp_and_cache_limit() {
    assert_eq!(FileManager::format_timestamp(0), "1970-01-01T00:00:00Z");
    assert_eq!(FileManager::format_timestamp(1700000000), "2023-11-14T22:13:20Z");
    assert_eq!(FileManager::format_timestamp(951782400), "2000-02-29T00:00:00Z");
    assert_eq!(FileManager::format_timestamp(4102444799), "2099-12-31T23:59:59Z");
    assert_eq!(FileManager::format_timestamp(86399), "1970-01-01T23:59:59Z");
    let file_manager = FileManager::new(&default_config());
    assert_eq!(file_manager.cache_limit_bytes(), 1024 * 1024 * 1024);
    assert_eq!(file_manager.config().fs.cache_size_limit_mb, 1024);
}

#[test]
fn stored_item_is_served_back_at_its_url() {
    let config = default_config();
    let fm = FileManager::new(&config);
    let data = create_placeholder_image();
    let stored = fm
        .plan_item_image(&data, &ItemCategory::Hat, Some("a hat".to_string()), 42)
        .unwrap();
    let hash = stored.metadata.hash.clone();
    assert_eq!(hash.len(), 6);
    assert!(hash.chars().all(|c| c.is_ascii_hexdigit() && !c.is_ascii_uppercase()));
    let file_name = stored.metadata.filename.clone().unwrap();
    assert_eq!(file_name, format!("{}.jpg", hash));
    assert!(file_has_hash(&file_name, &hash));
    assert_eq!(listed_image_stem(&file_name), Some(hash.clone()));
    let info = item_info(&config, &ItemCategory::Hat, stored.metadata);
    let prefix = "http://127.0.0.1:3000/api/images/items/";
    assert!(info.url.starts_with(prefix));
    let served_path = &info.url[prefix.len()..];
    assert_eq!(served_path, format!("hats/{}", file_name));
    assert_eq!(hash_from_image_path(ImageType::Item, served_path), hash);
}

#[test]
fn file_manager_listed_stems_keep_image_files_in_order() {
    let entries = vec![
        entry("abc123.png", true, 1),
        entry("notes.txt", true, 2),
        entry("def456.JPG", true, 3),
        entry("dir.webp", false, 4),
        entry(".jpg", true, 5),
        entry("fed321.jpeg", true, 6),
    ];
    assert_eq!(
        listed_stems(&entries),
        vec!["abc123".to_string(), "def456".to_string(), "fed321".to_string()]
    );
    assert!(listed_stems(&Vec::new()).is_empty());
}

#[test]
fn file_manager_first_match_finds_the_first_named_entry() {
    let entries = vec![
        entry("abc123", false, 1),
        entry("zzz999.png", true, 2),
        entry("abc123.png", true, 3),
        entry("abc123.jpg", true, 4),
    ];
    assert_eq!(first_match(&entries, "abc123", false), Some(0));
    assert_eq!(first_match(&entries, "abc123", true), Some(2));
    assert_eq!(first_match(&entries, "zzz999", true), Some(1));
    assert_eq!(first_match(&entries, "missing", false), None);
}

fn cached(size: u64, created_secs: u64) -> CachedFile {
    CachedFile { size, created_secs }
}

#[test]
fn cache_eviction_removes_the_oldest_files_first() {
    let files = vec![cached(400, 30), cached(300, 10), cached(500, 20), cached(100, 10)];
    // Total 1300. Oldest first: #1 (10), #3 (10, listed later), #2 (20), #0 (30).
    assert_eq!(cache_eviction(&files, 1300), Vec::<usize>::new());
    assert_eq!(cache_eviction(&files, 1000), vec![1]);
    assert_eq!(cache_eviction(&files, 999), vec![1, 3]);
    assert_eq!(cache_eviction(&files, 400), vec![1, 3, 2]);
    assert_eq!(cache_eviction(&files, 0), vec![1, 3, 2, 0]);
    assert_eq!(cache_eviction(&Vec::new(), 0), Vec::<usize>::new());
    let huge = vec![cached(u64::MAX, 1), cached(u64::MAX, 2)];
    assert_eq!(cache_eviction(&huge, u64::MAX), vec![0]);
}

#[test]
fn timestamps_order_as_the_times_they_write() {
    let times = [0u64, 9, 10, 59, 3600, 86399, 86400, 951782400, 1700000000, 4102444799];
    for pair in times.windows(2) {
        let earlier = FileManager::format_timestamp(pair[0]);
        let later = FileManager::format_timestamp(pair[1]);
        assert!(earlier < later, "{} < {}", earlier, later);
        assert_eq!(earlier.len(), 20);
    }
}
