//! Data models: item categories, image metadata, API requests and responses,
//! and the Gemini request and response shapes.

use vstd::prelude::*;

use uuid::Uuid;

use crate::text::{has_elem, owned, str_eq};

verus! {

broadcast use vstd::string::group_string_axioms;

/// The `uuid` crate's UUID, carried through as an opaque identifier.
#[verifier::external_type_specification]
#[verifier::external_body]
pub struct ExUuid(uuid::Uuid);

/// A fresh random identifier: `uuid::Uuid::new_v4`. Nothing is claimed of
/// the value, which comes from the random number generator.
#[verifier::external_body]
pub(crate) fn new_image_id() -> Uuid {
    Uuid::new_v4()
}

/// Supported item categories for fashion items.
#[derive(Debug, Clone, Copy, PartialEq, Eq, Hash, Structural)]
pub enum ItemCategory {
    Hat,
    Glasses,
    Shoes,
    Top,
    BottomSkirt,
    Socks,
    Gloves,
    Scarf,
    Bag,
    Accessory,
    Other,
}

/// All categories, in their listing order.
pub open spec fn all_categories() -> Seq<ItemCategory> {
    seq![
        ItemCategory::Hat,
        ItemCategory::Glasses,
        ItemCategory::Shoes,
        ItemCategory::Top,
        ItemCategory::BottomSkirt,
        ItemCategory::Socks,
        ItemCategory::Gloves,
        ItemCategory::Scarf,
        ItemCategory::Bag,
        ItemCategory::Accessory,
        ItemCategory::Other,
    ]
}

/// The position of a category in `all_categories()`.
pub open spec fn category_index(c: ItemCategory) -> int {
    match c {
        ItemCategory::Hat => 0,
        ItemCategory::Glasses => 1,
        ItemCategory::Shoes => 2,
        ItemCategory::Top => 3,
        ItemCategory::BottomSkirt => 4,
        ItemCategory::Socks => 5,
        ItemCategory::Gloves => 6,
        ItemCategory::Scarf => 7,
        ItemCategory::Bag => 8,
        ItemCategory::Accessory => 9,
        ItemCategory::Other => 10,
    }
}

/// The English display name of a category.
pub open spec fn display_name_of(c: ItemCategory) -> Seq<char> {
    match c {
        ItemCategory::Hat => "Hat"@,
        ItemCategory::Glasses => "Glasses"@,
        ItemCategory::Shoes => "Shoes"@,
        ItemCategory::Top => "Top"@,
        ItemCategory::BottomSkirt => "Bottom/Skirt"@,
        ItemCategory::Socks => "Socks"@,
        ItemCategory::Gloves => "Gloves"@,
        ItemCategory::Scarf => "Scarf"@,
        ItemCategory::Bag => "Bag"@,
        ItemCategory::Accessory => "Accessory"@,
        ItemCategory::Other => "Other"@,
    }
}

/// The directory name of a category.
pub open spec fn dir_name_of(c: ItemCategory) -> Seq<char> {
    match c {
        ItemCategory::Hat => "hats"@,
        ItemCategory::Glasses => "glasses"@,
        ItemCategory::Shoes => "shoes"@,
        ItemCategory::Top => "tops"@,
        ItemCategory::BottomSkirt => "bottoms"@,
        ItemCategory::Socks => "socks"@,
        ItemCategory::Gloves => "gloves"@,
        ItemCategory::Scarf => "scarves"@,
        ItemCategory::Bag => "bags"@,
        ItemCategory::Accessory => "accessories"@,
        ItemCategory::Other => "other"@,
    }
}

/// The category a name denotes: English names in lower and capitalized form,
/// directory names, and the Chinese names of earlier versions.
pub open spec fn category_named(s: Seq<char>) -> Option<ItemCategory> {
    if s == "hat"@ || s == "Hat"@ || s == "hats"@ || s == "帽子"@ {
        Some(ItemCategory::Hat)
    } else if s == "glasses"@ || s == "Glasses"@ || s == "眼镜"@ {
        Some(ItemCategory::Glasses)
    } else if s == "shoes"@ || s == "Shoes"@ || s == "鞋子"@ {
        Some(ItemCategory::Shoes)
    } else if s == "top"@ || s == "Top"@ || s == "tops"@ || s == "上衣"@ {
        Some(ItemCategory::Top)
    } else if s == "bottom"@ || s == "Bottom"@ || s == "bottoms"@ || s == "Bottom/Skirt"@ || s
        == "裤子/裙子"@ || s == "裤子_裙子"@ {
        Some(ItemCategory::BottomSkirt)
    } else if s == "socks"@ || s == "Socks"@ || s == "袜子"@ {
        Some(ItemCategory::Socks)
    } else if s == "gloves"@ || s == "Gloves"@ || s == "手套"@ {
        Some(ItemCategory::Gloves)
    } else if s == "scarf"@ || s == "Scarf"@ || s == "scarves"@ || s == "围巾"@ {
        Some(ItemCategory::Scarf)
    } else if s == "bag"@ || s == "Bag"@ || s == "bags"@ || s == "包包"@ {
        Some(ItemCategory::Bag)
    } else if s == "accessory"@ || s == "Accessory"@ || s == "accessories"@ || s == "饰品"@ {
        Some(ItemCategory::Accessory)
    } else if s == "other"@ || s == "Other"@ || s == "其他"@ {
        Some(ItemCategory::Other)
    } else {
        None
    }
}

impl ItemCategory {
    /// All available categories, each once, in listing order.
    pub fn all() -> (v: Vec<ItemCategory>)
        ensures
            v@ == all_categories(),
    {
        vec![
            ItemCategory::Hat,
            ItemCategory::Glasses,
            ItemCategory::Shoes,
            ItemCategory::Top,
            ItemCategory::BottomSkirt,
            ItemCategory::Socks,
            ItemCategory::Gloves,
            ItemCategory::Scarf,
            ItemCategory::Bag,
            ItemCategory::Accessory,
            ItemCategory::Other,
        ]
    }

    /// The English display name.
    pub fn display_name(&self) -> (s: &'static str)
        ensures
            s@ == display_name_of(*self),
    {
        match self {
            ItemCategory::Hat => "Hat",
            ItemCategory::Glasses => "Glasses",
            ItemCategory::Shoes => "Shoes",
            ItemCategory::Top => "Top",
            ItemCategory::BottomSkirt => "Bottom/Skirt",
            ItemCategory::Socks => "Socks",
            ItemCategory::Gloves => "Gloves",
            ItemCategory::Scarf => "Scarf",
            ItemCategory::Bag => "Bag",
            ItemCategory::Accessory => "Accessory",
            ItemCategory::Other => "Other",
        }
    }

    /// The directory name, safe for a file system.
    pub fn dir_name(&self) -> (s: &'static str)
        ensures
            s@ == dir_name_of(*self),
    {
        match self {
            ItemCategory::Hat => "hats",
            ItemCategory::Glasses => "glasses",
            ItemCategory::Shoes => "shoes",
            ItemCategory::Top => "tops",
            ItemCategory::BottomSkirt => "bottoms",
            ItemCategory::Socks => "socks",
            ItemCategory::Gloves => "gloves",
            ItemCategory::Scarf => "scarves",
            ItemCategory::Bag => "bags",
            ItemCategory::Accessory => "accessories",
            ItemCategory::Other => "other",
        }
    }

    /// The category shown as text: its display name.
    pub fn to_display_string(&self) -> (s: String)
        ensures
            s@ == display_name_of(*self),
    {
        owned(self.display_name())
    }

    /// The category that `s` names, if any.
    pub fn parse(s: &str) -> (r: Option<ItemCategory>)
        ensures
            r == category_named(s@),
    {
        if str_eq(s, "hat") || str_eq(s, "Hat") || str_eq(s, "hats") || str_eq(s, "帽子") {
            Some(ItemCategory::Hat)
        } else if str_eq(s, "glasses") || str_eq(s, "Glasses") || str_eq(s, "眼镜") {
            Some(ItemCategory::Glasses)
        } else if str_eq(s, "shoes") || str_eq(s, "Shoes") || str_eq(s, "鞋子") {
            Some(ItemCategory::Shoes)
        } else if str_eq(s, "top") || str_eq(s, "Top") || str_eq(s, "tops") || str_eq(s, "上衣") {
            Some(ItemCategory::Top)
        } else if str_eq(s, "bottom") || str_eq(s, "Bottom") || str_eq(s, "bottoms") || str_eq(
            s,
            "Bottom/Skirt",
        ) || str_eq(s, "裤子/裙子") || str_eq(s, "裤子_裙子") {
            Some(ItemCategory::BottomSkirt)
        } else if str_eq(s, "socks") || str_eq(s, "Socks") || str_eq(s, "袜子") {
            Some(ItemCategory::Socks)
        } else if str_eq(s, "gloves") || str_eq(s, "Gloves") || str_eq(s, "手套") {
            Some(ItemCategory::Gloves)
        } else if str_eq(s, "scarf") || str_eq(s, "Scarf") || str_eq(s, "scarves") || str_eq(
            s,
            "围巾",
        ) {
            Some(ItemCategory::Scarf)
        } else if str_eq(s, "bag") || str_eq(s, "Bag") || str_eq(s, "bags") || str_eq(s, "包包") {
            Some(ItemCategory::Bag)
        } else if str_eq(s, "accessory") || str_eq(s, "Accessory") || str_eq(s, "accessories")
            || str_eq(s, "饰品") {
            Some(ItemCategory::Accessory)
        } else if str_eq(s, "other") || str_eq(s, "Other") || str_eq(s, "其他") {
            Some(ItemCategory::Other)
        } else {
            None
        }
    }
}

/// Every category is listed, exactly once, at its index.
pub proof fn law_all_categories_complete(c: ItemCategory)
    ensures
        all_categories().len() == 11,
        0 <= category_index(c) < 11,
        all_categories()[category_index(c)] == c,
        has_elem(all_categories(), c),
        forall|i: int, j: int|
            0 <= i < j < 11 ==> #[trigger] all_categories()[i] != #[trigger] all_categories()[j],
{
    assert(all_categories()[category_index(c)] == c);
}

/// Parsing a category's display name or directory name gives the category
/// back.
pub proof fn law_category_names_parse_back(c: ItemCategory)
    ensures
        category_named(display_name_of(c)) == Some(c),
        category_named(dir_name_of(c)) == Some(c),
{
    reveal_strlit("hat");
    assert("hat"@.len() == 3);
    assert("hat"@[0] == 'h');
    assert("hat"@[1] == 'a');
    reveal_strlit("Hat");
    assert("Hat"@.len() == 3);
    assert("Hat"@[0] == 'H');
    assert("Hat"@[1] == 'a');
    reveal_strlit("hats");
    assert("hats"@.len() == 4);
    assert("hats"@[0] == 'h');
    assert("hats"@[1] == 'a');
    reveal_strlit("帽子");
    assert("帽子"@.len() == 2);
    assert("帽子"@[0] == '\u{5e3d}');
    assert("帽子"@[1] == '\u{5b50}');
    reveal_strlit("glasses");
    assert("glasses"@.len() == 7);
    assert("glasses"@[0] == 'g');
    assert("glasses"@[1] == 'l');
    reveal_strlit("Glasses");
    assert("Glasses"@.len() == 7);
    assert("Glasses"@[0] == 'G');
    assert("Glasses"@[1] == 'l');
    reveal_strlit("眼镜");
    assert("眼镜"@.len() == 2);
    assert("眼镜"@[0] == '\u{773c}');
    assert("眼镜"@[1] == '\u{955c}');
    reveal_strlit("shoes");
    assert("shoes"@.len() == 5);
    assert("shoes"@[0] == 's');
    assert("shoes"@[1] == 'h');
    reveal_strlit("Shoes");
    assert("Shoes"@.len() == 5);
    assert("Shoes"@[0] == 'S');
    assert("Shoes"@[1] == 'h');
    reveal_strlit("鞋子");
    assert("鞋子"@.len() == 2);
    assert("鞋子"@[0] == '\u{978b}');
    assert("鞋子"@[1] == '\u{5b50}');
    reveal_strlit("top");
    assert("top"@.len() == 3);
    assert("top"@[0] == 't');
    assert("top"@[1] == 'o');
    reveal_strlit("Top");
    assert("Top"@.len() == 3);
    assert("Top"@[0] == 'T');
    assert("Top"@[1] == 'o');
    reveal_strlit("tops");
    assert("tops"@.len() == 4);
    assert("tops"@[0] == 't');
    assert("tops"@[1] == 'o');
    reveal_strlit("上衣");
    assert("上衣"@.len() == 2);
    assert("上衣"@[0] == '\u{4e0a}');
    assert("上衣"@[1] == '\u{8863}');
    reveal_strlit("bottom");
    assert("bottom"@.len() == 6);
    assert("bottom"@[0] == 'b');
    assert("bottom"@[1] == 'o');
    reveal_strlit("Bottom");
    assert("Bottom"@.len() == 6);
    assert("Bottom"@[0] == 'B');
    assert("Bottom"@[1] == 'o');
    reveal_strlit("bottoms");
    assert("bottoms"@.len() == 7);
    assert("bottoms"@[0] == 'b');
    assert("bottoms"@[1] == 'o');
    reveal_strlit("Bottom/Skirt");
    assert("Bottom/Skirt"@.len() == 12);
    assert("Bottom/Skirt"@[0] == 'B');
    assert("Bottom/Skirt"@[1] == 'o');
    reveal_strlit("裤子/裙子");
    assert("裤子/裙子"@.len() == 5);
    assert("裤子/裙子"@[0] == '\u{88e4}');
    assert("裤子/裙子"@[1] == '\u{5b50}');
    reveal_strlit("裤子_裙子");
    assert("裤子_裙子"@.len() == 5);
    assert("裤子_裙子"@[0] == '\u{88e4}');
    assert("裤子_裙子"@[1] == '\u{5b50}');
    reveal_strlit("socks");
    assert("socks"@.len() == 5);
    assert("socks"@[0] == 's');
    assert("socks"@[1] == 'o');
    reveal_strlit("Socks");
    assert("Socks"@.len() == 5);
    assert("Socks"@[0] == 'S');
    assert("Socks"@[1] == 'o');
    reveal_strlit("袜子");
    assert("袜子"@.len() == 2);
    assert("袜子"@[0] == '\u{889c}');
    assert("袜子"@[1] == '\u{5b50}');
    reveal_strlit("gloves");
    assert("gloves"@.len() == 6);
    assert("gloves"@[0] == 'g');
    assert("gloves"@[1] == 'l');
    reveal_strlit("Gloves");
    assert("Gloves"@.len() == 6);
    assert("Gloves"@[0] == 'G');
    assert("Gloves"@[1] == 'l');
    reveal_strlit("手套");
    assert("手套"@.len() == 2);
    assert("手套"@[0] == '\u{624b}');
    assert("手套"@[1] == '\u{5957}');
    reveal_strlit("scarf");
    assert("scarf"@.len() == 5);
    assert("scarf"@[0] == 's');
    assert("scarf"@[1] == 'c');
    reveal_strlit("Scarf");
    assert("Scarf"@.len() == 5);
    assert("Scarf"@[0] == 'S');
    assert("Scarf"@[1] == 'c');
    reveal_strlit("scarves");
    assert("scarves"@.len() == 7);
    assert("scarves"@[0] == 's');
    assert("scarves"@[1] == 'c');
    reveal_strlit("围巾");
    assert("围巾"@.len() == 2);
    assert("围巾"@[0] == '\u{56f4}');
    assert("围巾"@[1] == '\u{5dfe}');
    reveal_strlit("bag");
    assert("bag"@.len() == 3);
    assert("bag"@[0] == 'b');
    assert("bag"@[1] == 'a');
    reveal_strlit("Bag");
    assert("Bag"@.len() == 3);
    assert("Bag"@[0] == 'B');
    assert("Bag"@[1] == 'a');
    reveal_strlit("bags");
    assert("bags"@.len() == 4);
    assert("bags"@[0] == 'b');
    assert("bags"@[1] == 'a');
    reveal_strlit("包包");
    assert("包包"@.len() == 2);
    assert("包包"@[0] == '\u{5305}');
    assert("包包"@[1] == '\u{5305}');
    reveal_strlit("accessory");
    assert("accessory"@.len() == 9);
    assert("accessory"@[0] == 'a');
    assert("accessory"@[1] == 'c');
    reveal_strlit("Accessory");
    assert("Accessory"@.len() == 9);
    assert("Accessory"@[0] == 'A');
    assert("Accessory"@[1] == 'c');
    reveal_strlit("accessories");
    assert("accessories"@.len() == 11);
    assert("accessories"@[0] == 'a');
    assert("accessories"@[1] == 'c');
    reveal_strlit("饰品");
    assert("饰品"@.len() == 2);
    assert("饰品"@[0] == '\u{9970}');
    assert("饰品"@[1] == '\u{54c1}');
    reveal_strlit("other");
    assert("other"@.len() == 5);
    assert("other"@[0] == 'o');
    assert("other"@[1] == 't');
    reveal_strlit("Other");
    assert("Other"@.len() == 5);
    assert("Other"@[0] == 'O');
    assert("Other"@[1] == 't');
    reveal_strlit("其他");
    assert("其他"@.len() == 2);
    assert("其他"@[0] == '\u{5176}');
    assert("其他"@[1] == '\u{4ed6}');
}

/// A lowercase ASCII letter or underscore.
pub open spec fn is_dir_name_char(c: char) -> bool {
    ('a' <= c && c <= 'z') || c == '_'
}

/// Display names are not empty; directory names are not empty and are made
/// of lowercase ASCII letters and underscores only.
pub proof fn law_category_names_well_formed(c: ItemCategory)
    ensures
        display_name_of(c).len() > 0,
        dir_name_of(c).len() > 0,
        forall|i: int| 0 <= i < dir_name_of(c).len() ==> is_dir_name_char(#[trigger] dir_name_of(c)[i]),
{
    reveal_strlit("Hat");
    assert("Hat"@.len() == 3);
    reveal_strlit("Glasses");
    assert("Glasses"@.len() == 7);
    reveal_strlit("Shoes");
    assert("Shoes"@.len() == 5);
    reveal_strlit("Top");
    assert("Top"@.len() == 3);
    reveal_strlit("Bottom/Skirt");
    assert("Bottom/Skirt"@.len() == 12);
    reveal_strlit("Socks");
    assert("Socks"@.len() == 5);
    reveal_strlit("Gloves");
    assert("Gloves"@.len() == 6);
    reveal_strlit("Scarf");
    assert("Scarf"@.len() == 5);
    reveal_strlit("Bag");
    assert("Bag"@.len() == 3);
    reveal_strlit("Accessory");
    assert("Accessory"@.len() == 9);
    reveal_strlit("Other");
    assert("Other"@.len() == 5);
    reveal_strlit("hats");
    assert("hats"@ =~= seq!['h', 'a', 't', 's']);
    reveal_strlit("glasses");
    assert("glasses"@ =~= seq!['g', 'l', 'a', 's', 's', 'e', 's']);
    reveal_strlit("shoes");
    assert("shoes"@ =~= seq!['s', 'h', 'o', 'e', 's']);
    reveal_strlit("tops");
    assert("tops"@ =~= seq!['t', 'o', 'p', 's']);
    reveal_strlit("bottoms");
    assert("bottoms"@ =~= seq!['b', 'o', 't', 't', 'o', 'm', 's']);
    reveal_strlit("socks");
    assert("socks"@ =~= seq!['s', 'o', 'c', 'k', 's']);
    reveal_strlit("gloves");
    assert("gloves"@ =~= seq!['g', 'l', 'o', 'v', 'e', 's']);
    reveal_strlit("scarves");
    assert("scarves"@ =~= seq!['s', 'c', 'a', 'r', 'v', 'e', 's']);
    reveal_strlit("bags");
    assert("bags"@ =~= seq!['b', 'a', 'g', 's']);
    reveal_strlit("accessories");
    assert("accessories"@ =~= seq!['a', 'c', 'c', 'e', 's', 's', 'o', 'r', 'i', 'e', 's']);
    reveal_strlit("other");
    assert("other"@ =~= seq!['o', 't', 'h', 'e', 'r']);
}

/// Metadata for an image file.
#[derive(Debug)]
pub struct ImageMetadata {
    /// Unique identifier for the image.
    pub id: Uuid,
    /// File name, if known.
    pub filename: Option<String>,
    /// Short content hash (the first characters of the BLAKE3 hex digest).
    pub hash: String,
    /// File size in bytes.
    pub size: u64,
    /// Image dimensions (width, height).
    pub dimensions: (u32, u32),
    /// MIME type, such as "image/jpeg".
    pub mime_type: String,
    /// Creation time: an ISO 8601 UTC date-time, such as "2024-01-31T12:00:00Z".
    pub created_at: String,
    /// Category, for item images.
    pub category: Option<ItemCategory>,
    /// Generation prompt, for generated images.
    pub prompt: Option<String>,
    /// Hashes of the images a remix was made from.
    pub source_images: Vec<String>,
}

/// A copy of an optional string.
pub fn clone_opt_string(s: &Option<String>) -> (r: Option<String>)
    ensures
        r == *s,
{
    match s {
        Some(v) => Some(v.clone()),
        None => None,
    }
}

/// A copy of a list of strings.
pub fn clone_strings(v: &Vec<String>) -> (r: Vec<String>)
    ensures
        r@ == v@,
{
    let mut r: Vec<String> = Vec::new();
    let mut i: usize = 0;
    while i < v.len()
        invariant
            i <= v@.len(),
            r@ == v@.take(i as int),
        decreases v@.len() - i,
    {
        r.push(v[i].clone());
        proof {
            assert(v@.take(i + 1) =~= v@.take(i as int).push(v@[i as int]));
        }
        i = i + 1;
    }
    assert(v@.take(i as int) =~= v@);
    r
}

impl Clone for ImageMetadata {
    fn clone(&self) -> (r: Self)
        ensures
            r.id == self.id,
            r.filename == self.filename,
            r.hash == self.hash,
            r.size == self.size,
            r.dimensions == self.dimensions,
            r.mime_type == self.mime_type,
            r.created_at == self.created_at,
            r.category == self.category,
            r.prompt == self.prompt,
            r.source_images@ == self.source_images@,
    {
        ImageMetadata {
            id: self.id,
            filename: clone_opt_string(&self.filename),
            hash: self.hash.clone(),
            size: self.size,
            dimensions: self.dimensions,
            mime_type: self.mime_type.clone(),
            created_at: self.created_at.clone(),
            category: self.category,
            prompt: clone_opt_string(&self.prompt),
            source_images: clone_strings(&self.source_images),
        }
    }
}

/// API response listing the categories.
#[derive(Debug)]
pub struct CategoriesResponse {
    pub categories: Vec<CategoryInfo>,
}

/// A category and how many items it holds.
#[derive(Debug)]
pub struct CategoryInfo {
    /// Category identifier.
    pub id: ItemCategory,
    /// Display name.
    pub name: String,
    /// Number of items in this category.
    pub count: usize,
}

/// API response listing the items of a category.
#[derive(Debug)]
pub struct ItemsResponse {
    pub category: ItemCategory,
    pub items: Vec<ItemInfo>,
}

/// An item image as the API shows it.
#[derive(Debug)]
pub struct ItemInfo {
    /// Unique identifier.
    pub id: Uuid,
    /// File name.
    pub filename: String,
    /// Short content hash.
    pub hash: String,
    /// Image dimensions.
    pub dimensions: (u32, u32),
    /// Creation time.
    pub created_at: String,
    /// Generation prompt, if generated.
    pub prompt: Option<String>,
    /// URL of the image.
    pub url: String,
}

/// Request to generate a new item for a category.
#[derive(Debug)]
pub struct GenerateItemRequest {
    /// Optional custom prompt.
    pub prompt: Option<String>,
    /// Style preferences.
    pub style: Option<String>,
    /// Color preferences.
    pub color: Option<String>,
}

/// Response after generating a new item.
#[derive(Debug)]
pub struct GenerateItemResponse {
    pub item: ItemInfo,
    pub message: String,
}

/// Request to upload a user photo.
#[derive(Debug)]
pub struct UploadRequest {
    /// Image file data.
    pub data: Vec<u8>,
    /// Original file name.
    pub filename: Option<String>,
}

/// Response after uploading a photo.
#[derive(Debug)]
pub struct UploadResponse {
    pub id: Uuid,
    pub hash: String,
    pub filename: Option<String>,
    pub dimensions: (u32, u32),
    pub size: u64,
    pub url: String,
    pub message: String,
}

/// Request to remix a user photo with item images.
#[derive(Debug)]
pub struct RemixRequest {
    /// Short hash of the user photo.
    pub base_image: String,
    /// Item images to apply: category and short hash.
    pub items: Vec<(ItemCategory, String)>,
    /// Optional style direction.
    pub style: Option<String>,
    /// Output quality preference (1-10).
    pub quality: Option<u8>,
}

/// Response after generating a remix.
#[derive(Debug)]
pub struct RemixResponse {
    pub id: Uuid,
    pub hash: String,
    pub dimensions: (u32, u32),
    pub url: String,
    pub source_images: Vec<String>,
    pub message: String,
}

/// API response listing the remix outputs.
#[derive(Debug)]
pub struct OutputsResponse {
    pub outputs: Vec<OutputInfo>,
}

/// A remix output as the API shows it.
#[derive(Debug)]
pub struct OutputInfo {
    pub id: Uuid,
    pub hash: String,
    pub dimensions: (u32, u32),
    pub created_at: String,
    pub source_images: Vec<String>,
    pub url: String,
}

/// Health check response.
#[derive(Debug)]
pub struct HealthResponse {
    pub status: String,
    pub version: String,
    pub gemini_api_available: bool,
}

/// Body of an error answer.
#[derive(Debug)]
pub struct ErrorResponse {
    pub error: ErrorDetails,
}

/// The message and status code of an error answer.
#[derive(Debug)]
pub struct ErrorDetails {
    pub message: String,
    pub code: u16,
}

/// A Gemini content generation request.
#[derive(Debug)]
pub struct GeminiGenerateRequest {
    pub contents: Vec<GeminiContent>,
    pub generation_config: GeminiGenerationConfig,
}

/// Content of a Gemini request or response.
#[derive(Debug)]
pub struct GeminiContent {
    pub parts: Vec<GeminiPart>,
}

/// A part of Gemini content: text or inline data.
#[derive(Debug)]
pub enum GeminiPart {
    Text { text: String },
    InlineData { inline_data: GeminiInlineData },
}

/// Inline data: a MIME type and Base64 encoded bytes.
#[derive(Debug)]
pub struct GeminiInlineData {
    pub mime_type: String,
    pub data: String,
}

/// Generation settings of a Gemini request. The sampling temperature and
/// `top_p` are held in hundredths (40 stands for 0.4).
#[derive(Debug)]
pub struct GeminiGenerationConfig {
    pub temperature_hundredths: u32,
    pub top_k: u32,
    pub top_p_hundredths: u32,
    pub max_output_tokens: u32,
    pub response_modalities: Option<Vec<String>>,
}

/// A Gemini API response.
#[derive(Debug)]
pub struct GeminiResponse {
    pub candidates: Vec<GeminiCandidate>,
}

/// A candidate of a Gemini response.
#[derive(Debug)]
pub struct GeminiCandidate {
    pub content: GeminiContent,
    pub finish_reason: Option<String>,
}

} // verus!
