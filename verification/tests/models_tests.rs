use mirage_fit::models::{CategoryInfo, ImageMetadata, ItemCategory, ItemInfo};
use uuid::Uuid;

#[test]
fn test_item_category_all() {
    let categories = ItemCategory::all();
    assert_eq!(categories.len(), 11);
    assert!(categories.contains(&ItemCategory::Hat));
    assert!(categories.contains(&ItemCategory::Other));

    let expected_categories = [
        ItemCategory::Hat,
        ItemCategory::Glasses,
        ItemCategory::Shoes,
        ItemCategory::Top,
        ItemCategory::BottomSkirt,
        ItemCategory::Socks,
        ItemCategory::Gloves,
        ItemCategory::Scarf,
        ItemCategory::Bag,
        ItemCategory::Accessory,
        ItemCategory::Other,
    ];

    for expected in &expected_categories {
        assert!(categories.contains(expected), "Missing category: {:?}", expected);
    }
}

#[test]
fn test_item_category_display_name() {
    assert_eq!(ItemCategory::Hat.display_name(), "Hat");
    assert_eq!(ItemCategory::Glasses.display_name(), "Glasses");
    assert_eq!(ItemCategory::Shoes.display_name(), "Shoes");
    assert_eq!(ItemCategory::Top.display_name(), "Top");
    assert_eq!(ItemCategory::BottomSkirt.display_name(), "Bottom/Skirt");
    assert_eq!(ItemCategory::Socks.display_name(), "Socks");
    assert_eq!(ItemCategory::Gloves.display_name(), "Gloves");
    assert_eq!(ItemCategory::Scarf.display_name(), "Scarf");
    assert_eq!(ItemCategory::Bag.display_name(), "Bag");
    assert_eq!(ItemCategory::Accessory.display_name(), "Accessory");
    assert_eq!(ItemCategory::Other.display_name(), "Other");
}

#[test]
fn test_item_category_dir_name() {
    assert_eq!(ItemCategory::Hat.dir_name(), "hats");
    assert_eq!(ItemCategory::Glasses.dir_name(), "glasses");
    assert_eq!(ItemCategory::Shoes.dir_name(), "shoes");
    assert_eq!(ItemCategory::Top.dir_name(), "tops");
    assert_eq!(ItemCategory::BottomSkirt.dir_name(), "bottoms");
    assert_eq!(ItemCategory::Socks.dir_name(), "socks");
    assert_eq!(ItemCategory::Gloves.dir_name(), "gloves");
    assert_eq!(ItemCategory::Scarf.dir_name(), "scarves");
    assert_eq!(ItemCategory::Bag.dir_name(), "bags");
    assert_eq!(ItemCategory::Accessory.dir_name(), "accessories");
    assert_eq!(ItemCategory::Other.dir_name(), "other");
}

#[test]
fn test_item_category_parse_comprehensive() {
    assert_eq!(ItemCategory::parse("hat"), Some(ItemCategory::Hat));
    assert_eq!(ItemCategory::parse("Hat"), Some(ItemCategory::Hat));
    assert_eq!(ItemCategory::parse("hats"), Some(ItemCategory::Hat));

    assert_eq!(ItemCategory::parse("glasses"), Some(ItemCategory::Glasses));
    assert_eq!(ItemCategory::parse("Glasses"), Some(ItemCategory::Glasses));

    assert_eq!(ItemCategory::parse("shoes"), Some(ItemCategory::Shoes));
    assert_eq!(ItemCategory::parse("Shoes"), Some(ItemCategory::Shoes));

    assert_eq!(ItemCategory::parse("top"), Some(ItemCategory::Top));
    assert_eq!(ItemCategory::parse("Top"), Some(ItemCategory::Top));
    assert_eq!(ItemCategory::parse("tops"), Some(ItemCategory::Top));

    assert_eq!(ItemCategory::parse("bottom"), Some(ItemCategory::BottomSkirt));
    assert_eq!(ItemCategory::parse("Bottom"), Some(ItemCategory::BottomSkirt));
    assert_eq!(ItemCategory::parse("bottoms"), Some(ItemCategory::BottomSkirt));
    assert_eq!(ItemCategory::parse("Bottom/Skirt"), Some(ItemCategory::BottomSkirt));

    assert_eq!(ItemCategory::parse("socks"), Some(ItemCategory::Socks));
    assert_eq!(ItemCategory::parse("Socks"), Some(ItemCategory::Socks));

    assert_eq!(ItemCategory::parse("gloves"), Some(ItemCategory::Gloves));
    assert_eq!(ItemCategory::parse("Gloves"), Some(ItemCategory::Gloves));

    assert_eq!(ItemCategory::parse("scarf"), Some(ItemCategory::Scarf));
    assert_eq!(ItemCategory::parse("Scarf"), Some(ItemCategory::Scarf));
    assert_eq!(ItemCategory::parse("scarves"), Some(ItemCategory::Scarf));

    assert_eq!(ItemCategory::parse("bag"), Some(ItemCategory::Bag));
    assert_eq!(ItemCategory::parse("Bag"), Some(ItemCategory::Bag));
    assert_eq!(ItemCategory::parse("bags"), Some(ItemCategory::Bag));

    assert_eq!(ItemCategory::parse("accessory"), Some(ItemCategory::Accessory));
    assert_eq!(ItemCategory::parse("Accessory"), Some(ItemCategory::Accessory));
    assert_eq!(ItemCategory::parse("accessories"), Some(ItemCategory::Accessory));

    assert_eq!(ItemCategory::parse("other"), Some(ItemCategory::Other));
    assert_eq!(ItemCategory::parse("Other"), Some(ItemCategory::Other));

    assert_eq!(ItemCategory::parse("\u{5e3d}\u{5b50}"), Some(ItemCategory::Hat));
    assert_eq!(ItemCategory::parse("\u{773c}\u{955c}"), Some(ItemCategory::Glasses));
    assert_eq!(ItemCategory::parse("\u{978b}\u{5b50}"), Some(ItemCategory::Shoes));
    assert_eq!(ItemCategory::parse("\u{4e0a}\u{8863}"), Some(ItemCategory::Top));
    assert_eq!(
        ItemCategory::parse("\u{88e4}\u{5b50}/\u{88d9}\u{5b50}"),
        Some(ItemCategory::BottomSkirt)
    );
    assert_eq!(
        ItemCategory::parse("\u{88e4}\u{5b50}_\u{88d9}\u{5b50}"),
        Some(ItemCategory::BottomSkirt)
    );
    assert_eq!(ItemCategory::parse("\u{889c}\u{5b50}"), Some(ItemCategory::Socks));
    assert_eq!(ItemCategory::parse("\u{624b}\u{5957}"), Some(ItemCategory::Gloves));
    assert_eq!(ItemCategory::parse("\u{56f4}\u{5dfe}"), Some(ItemCategory::Scarf));
    assert_eq!(ItemCategory::parse("\u{5305}\u{5305}"), Some(ItemCategory::Bag));
    assert_eq!(ItemCategory::parse("\u{9970}\u{54c1}"), Some(ItemCategory::Accessory));
    assert_eq!(ItemCategory::parse("\u{5176}\u{4ed6}"), Some(ItemCategory::Other));

    assert_eq!(ItemCategory::parse("invalid"), None);
    assert_eq!(ItemCategory::parse(""), None);
    assert_eq!(ItemCategory::parse("hat123"), None);
    assert_eq!(ItemCategory::parse("INVALID"), None);
}

#[test]
fn test_item_category_display() {
    let category = ItemCategory::Hat;
    assert_eq!(category.to_display_string(), "Hat");

    let category = ItemCategory::BottomSkirt;
    assert_eq!(category.to_display_string(), "Bottom/Skirt");
}

#[test]
fn test_image_metadata_creation() {
    let metadata = ImageMetadata {
        id: Uuid::new_v4(),
        filename: Some("test.jpg".to_string()),
        hash: "abc123".to_string(),
        size: 1024,
        dimensions: (800, 600),
        mime_type: "image/jpeg".to_string(),
        created_at: "2023-01-01T00:00:00Z".to_string(),
        category: Some(ItemCategory::Hat),
        prompt: Some("A red hat".to_string()),
        source_images: vec!["source1".to_string(), "source2".to_string()],
    };

    assert!(metadata.filename.is_some());
    assert_eq!(metadata.hash, "abc123");
    assert_eq!(metadata.size, 1024);
    assert_eq!(metadata.dimensions, (800, 600));
    assert_eq!(metadata.mime_type, "image/jpeg");
    assert_eq!(metadata.category, Some(ItemCategory::Hat));
    assert_eq!(metadata.prompt, Some("A red hat".to_string()));
    assert_eq!(metadata.source_images.len(), 2);
}

#[test]
fn test_category_info_completeness() {
    for category in ItemCategory::all() {
        let info = CategoryInfo {
            id: category.clone(),
            name: category.display_name().to_string(),
            count: 0,
        };

        assert_eq!(info.id, category);
        assert_eq!(info.name, category.display_name());
    }
}

#[test]
fn test_item_info_url_format() {
    let item_info = ItemInfo {
        id: Uuid::new_v4(),
        filename: "test.jpg".to_string(),
        hash: "abc123".to_string(),
        dimensions: (800, 600),
        created_at: "2023-01-01T00:00:00Z".to_string(),
        prompt: Some("Test item".to_string()),
        url: "http://localhost:3000/api/images/items/hats/abc123.jpg".to_string(),
    };

    assert!(item_info.url.contains("/api/images/items/"));
    assert!(item_info.url.ends_with(".jpg"));
    assert!(item_info.url.contains(&item_info.hash));
}

#[test]
fn test_boundary_conditions() {
    let empty_category = ItemCategory::parse("");
    assert_eq!(empty_category, None);

    let long_string = "a".repeat(1000);
    let long_category = ItemCategory::parse(&long_string);
    assert_eq!(long_category, None);

    let special_chars = "hat!@#$%";
    let special_category = ItemCategory::parse(special_chars);
    assert_eq!(special_category, None);
}

#[test]
fn test_category_consistency() {
    for category in ItemCategory::all() {
        let display_name = category.display_name();
        let dir_name = category.dir_name();

        assert!(!display_name.is_empty(), "Display name should not be empty for {:?}", category);
        assert!(!dir_name.is_empty(), "Directory name should not be empty for {:?}", category);
        assert!(
            dir_name.chars().all(|c| c.is_ascii_lowercase() || c == '_'),
            "Directory name should be lowercase ASCII for {:?}: {}",
            category,
            dir_name
        );
    }
}

#[test]
fn test_item_category_roundtrip() {
    for category in ItemCategory::all() {
        assert_eq!(ItemCategory::parse(category.display_name()), Some(category));
        assert_eq!(ItemCategory::parse(category.dir_name()), Some(category));
    }
}

#[test]
fn models_metadata_clone_keeps_fields() {
    let metadata = ImageMetadata {
        id: Uuid::new_v4(),
        filename: None,
        hash: "abcdef".to_string(),
        size: 7,
        dimensions: (1, 2),
        mime_type: "image/png".to_string(),
        created_at: "12".to_string(),
        category: None,
        prompt: Some("p".to_string()),
        source_images: vec!["a".to_string()],
    };
    let copy = metadata.clone();
    assert_eq!(copy.id, metadata.id);
    assert_eq!(copy.hash, metadata.hash);
    assert_eq!(copy.dimensions, (1, 2));
    assert_eq!(copy.prompt, metadata.prompt);
    assert_eq!(copy.source_images, metadata.source_images);
}
