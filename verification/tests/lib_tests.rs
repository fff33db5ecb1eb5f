use mirage_fit::models::ItemCategory;

#[test]
fn test_library_imports() {
    let _ = ItemCategory::all();
}

#[test]
fn test_image_type_matching() {
    let image_types = vec!["input", "items", "output"];
    for img_type in image_types {
        assert!(matches!(img_type, "input" | "items" | "output"));
        assert!(mirage_fit::handlers::parse_image_type(img_type).is_ok());
    }
}

#[test]
fn test_item_category_parsing() {
    assert!(ItemCategory::parse("\u{5e3d}\u{5b50}").is_some());
    assert!(ItemCategory::parse("invalid").is_none());
}
