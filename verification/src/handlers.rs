//! What the API endpoints answer: category lookups, listings, the upload
//! form, remix requests, image URLs and the images they serve.
//!
//! The HTTP plumbing, file operations and model calls are done by the
//! caller, which hands their results to these functions.

use vstd::prelude::*;

use crate::config::{image_url, views, Config, ImageType};
use crate::error::Error;
use crate::gemini::{append_names, detect_image_mime_type, detected_mime, names_joined};
use crate::models::{
    all_categories, category_named, display_name_of, dir_name_of, CategoriesResponse,
    CategoryInfo, GenerateItemResponse, HealthResponse, ImageMetadata, ItemCategory, ItemInfo,
    ItemsResponse, OutputInfo, OutputsResponse, RemixRequest, RemixResponse, UploadResponse,
};
use crate::file_manager::{
    image_file_name, lemma_image_file_name_parts, listed_extension, listed_stem, stem_of,
};
use crate::text::{chars_of, is_lower_hex_digit, join2, join3, owned, str_eq};

verus! {

broadcast use vstd::string::group_string_axioms;

/// The category named in a request path, or not found.
pub fn resolve_category(name: &str) -> (r: Result<ItemCategory, Error>)
    ensures
        match category_named(name@) {
            Some(c) => r == Ok::<ItemCategory, Error>(c),
            None => r matches Err(Error::NotFound { resource }) && resource@ == "Category: "@
                + name@,
        },
{
    match ItemCategory::parse(name) {
        Some(c) => Ok(c),
        None => Err(Error::NotFound { resource: join2("Category: ", name) }),
    }
}

/// The count of items of the i-th category (none when missing).
pub open spec fn count_at(counts: Seq<usize>, i: int) -> usize {
    if 0 <= i < counts.len() {
        counts[i]
    } else {
        0
    }
}

/// The categories with their display names and item counts; `counts[i]`
/// is the count of the i-th category of `ItemCategory::all()`.
pub fn categories_response(counts: &Vec<usize>) -> (r: CategoriesResponse)
    ensures
        r.categories@.len() == 11,
        forall|i: int|
            0 <= i < 11 ==> (#[trigger] r.categories@[i]).id == all_categories()[i]
                && r.categories@[i].name@ == display_name_of(all_categories()[i])
                && r.categories@[i].count == count_at(counts@, i),
{
    let all = ItemCategory::all();
    let mut categories: Vec<CategoryInfo> = Vec::new();
    let mut i: usize = 0;
    while i < all.len()
        invariant
            i <= 11,
            all@ == all_categories(),
            categories@.len() == i,
            forall|j: int|
                0 <= j < i ==> (#[trigger] categories@[j]).id == all_categories()[j]
                    && categories@[j].name@ == display_name_of(all_categories()[j])
                    && categories@[j].count == count_at(counts@, j),
        decreases 11 - i,
    {
        let c = all[i];
        let count = if i < counts.len() {
            counts[i]
        } else {
            0
        };
        categories.push(CategoryInfo { id: c, name: owned(c.display_name()), count });
        i = i + 1;
    }
    CategoriesResponse { categories }
}

/// The file name an answer shows for an image: its recorded name, else
/// its hash with ".jpg".
pub open spec fn shown_file_name(m: ImageMetadata) -> Seq<char> {
    match m.filename {
        Some(f) => f@,
        None => m.hash@ + ".jpg"@,
    }
}

fn file_name_of(m: &ImageMetadata) -> (f: String)
    ensures
        f@ == shown_file_name(*m),
{
    match &m.filename {
        Some(f) => f.clone(),
        None => join2(m.hash.as_str(), ".jpg"),
    }
}

/// `info` shows the item image `m` of category `c`, with its URL.
pub open spec fn shows_item(info: ItemInfo, config: Config, c: ItemCategory, m: ImageMetadata) -> bool {
    &&& info.id == m.id
    &&& info.filename@ == shown_file_name(m)
    &&& info.hash@ == m.hash@
    &&& info.dimensions == m.dimensions
    &&& info.created_at@ == m.created_at@
    &&& info.prompt == m.prompt
    &&& info.url@ == image_url(
        config.server.public_url@,
        ImageType::Item,
        dir_name_of(c) + "/"@ + shown_file_name(m),
    )
}

/// How an item image of a category is shown, with its URL under the
/// category's directory.
pub fn item_info(config: &Config, category: &ItemCategory, metadata: ImageMetadata) -> (info:
    ItemInfo)
    ensures
        shows_item(info, *config, *category, metadata),
{
    let filename = file_name_of(&metadata);
    let path = join3(category.dir_name(), "/", filename.as_str());
    let url = config.image_url_path(ImageType::Item, path.as_str());
    ItemInfo {
        id: metadata.id,
        filename,
        hash: metadata.hash,
        dimensions: metadata.dimensions,
        created_at: metadata.created_at,
        prompt: metadata.prompt,
        url,
    }
}

/// The items of a category, in the order listed.
pub fn items_response(config: &Config, category: &ItemCategory, items: Vec<ImageMetadata>) -> (r:
    ItemsResponse)
    ensures
        r.category == *category,
        r.items@.len() == items@.len(),
        forall|i: int|
            0 <= i < items@.len() ==> shows_item(#[trigger] r.items@[i], *config, *category, items@[i]),
{
    let ghost orig = items@;
    let mut rest = items;
    let mut shown: Vec<ItemInfo> = Vec::new();
    let n = rest.len();
    let mut i: usize = 0;
    while i < n
        invariant
            n == orig.len(),
            i <= n,
            rest@ == orig.skip(i as int),
            shown@.len() == i,
            forall|j: int| 0 <= j < i ==> shows_item(#[trigger] shown@[j], *config, *category, orig[j]),
        decreases n - i,
    {
        let m = rest.remove(0);
        assert(m == orig[i as int]);
        assert(rest@ =~= orig.skip(i + 1));
        shown.push(item_info(config, category, m));
        i = i + 1;
    }
    ItemsResponse { category: *category, items: shown }
}

/// The prompt recorded with a generated item: the request's, else
/// "Generated <category> item".
pub fn generated_item_prompt(category: &ItemCategory, prompt: Option<String>) -> (p: String)
    ensures
        p@ == match prompt {
            Some(given) => given@,
            None => "Generated "@ + display_name_of(*category) + " item"@,
        },
{
    match prompt {
        Some(p) => p,
        None => join3("Generated ", category.display_name(), " item"),
    }
}

/// The answer to a generated item.
pub fn generated_item_response(
    config: &Config,
    category: &ItemCategory,
    metadata: ImageMetadata,
) -> (r: GenerateItemResponse)
    ensures
        shows_item(r.item, *config, *category, metadata),
        r.message@ == "Successfully generated "@ + display_name_of(*category) + " item"@,
{
    let item = item_info(config, category, metadata);
    let message = join3("Successfully generated ", category.display_name(), " item");
    GenerateItemResponse { item, message }
}

/// What a multipart form field carries.
#[derive(Debug, Clone, Copy, PartialEq, Eq, Structural)]
pub enum FieldRole {
    /// The image file ("image" or "file").
    Image,
    /// The file name ("filename").
    FileName,
    /// Anything else, which is ignored.
    Ignored,
}

/// The role of a field by its name.
pub open spec fn role_of(name: Option<Seq<char>>) -> FieldRole {
    match name {
        Some(n) => if n == "image"@ || n == "file"@ {
            FieldRole::Image
        } else if n == "filename"@ {
            FieldRole::FileName
        } else {
            FieldRole::Ignored
        },
        None => FieldRole::Ignored,
    }
}

/// The fields of an upload form read so far.
#[derive(Debug)]
pub struct UploadForm {
    pub image_data: Option<Vec<u8>>,
    pub filename: Option<String>,
}

impl UploadForm {
    /// A form with nothing read yet.
    pub fn new() -> (f: UploadForm)
        ensures
            f.image_data is None,
            f.filename is None,
    {
        UploadForm { image_data: None, filename: None }
    }

    /// The role of a field by its name.
    pub fn field_role(name: Option<&str>) -> (r: FieldRole)
        ensures
            r == role_of(
                match name {
                    Some(n) => Some(n@),
                    None => None,
                },
            ),
    {
        match name {
            Some(n) => if str_eq(n, "image") || str_eq(n, "file") {
                FieldRole::Image
            } else if str_eq(n, "filename") {
                FieldRole::FileName
            } else {
                FieldRole::Ignored
            },
            None => FieldRole::Ignored,
        }
    }

    /// Take an image field: its data, and its file name, which replaces any
    /// name read before (by `None` when the field has none).
    pub fn accept_image(&mut self, file_name: Option<String>, data: Vec<u8>)
        ensures
            final(self).image_data == Some(data),
            final(self).filename == file_name,
    {
        self.filename = file_name;
        self.image_data = Some(data);
    }

    /// Take a file name field; an empty name is ignored.
    pub fn accept_file_name(&mut self, name: String)
        ensures
            name@.len() == 0 ==> *final(self) == *old(self),
            name@.len() > 0 ==> final(self).filename == Some(name) && final(self).image_data == old(
                self,
            ).image_data,
    {
        if name.as_str().unicode_len() > 0 {
            self.filename = Some(name);
        }
    }

    /// The image and file name of the form: an error when no image field
    /// came or its data is empty.
    pub fn finish(self) -> (r: Result<(Vec<u8>, Option<String>), Error>)
        ensures
            self.image_data is None ==> (r matches Err(Error::InvalidRequest { message })
                && message@ == "No image data provided"@),
            self.image_data is Some && self.image_data->0@.len() == 0 ==> (r matches Err(
                Error::InvalidRequest { message },
            ) && message@ == "Empty image file"@),
            self.image_data is Some && self.image_data->0@.len() > 0 ==> r == Ok::<
                (Vec<u8>, Option<String>),
                Error,
            >((self.image_data->0, self.filename)),
    {
        match self.image_data {
            None => Err(Error::invalid_request("No image data provided")),
            Some(data) => {
                if data.len() == 0 {
                    Err(Error::invalid_request("Empty image file"))
                } else {
                    Ok((data, self.filename))
                }
            },
        }
    }
}

/// The answer to an uploaded photo.
pub fn upload_response(config: &Config, metadata: ImageMetadata) -> (r: UploadResponse)
    ensures
        r.id == metadata.id,
        r.hash@ == metadata.hash@,
        r.filename == metadata.filename,
        r.dimensions == metadata.dimensions,
        r.size == metadata.size,
        r.url@ == image_url(config.server.public_url@, ImageType::Input, shown_file_name(metadata)),
        r.message@ == "Photo uploaded successfully"@,
{
    let filename = file_name_of(&metadata);
    let url = config.image_url_path(ImageType::Input, filename.as_str());
    UploadResponse {
        id: metadata.id,
        hash: metadata.hash,
        filename: metadata.filename,
        dimensions: metadata.dimensions,
        size: metadata.size,
        url,
        message: owned("Photo uploaded successfully"),
    }
}

/// The prompt of a remix: keep the person of the first image and dress
/// them in the items of the given categories, in the optional style.
pub open spec fn fashion_remix_prompt(categories: Seq<ItemCategory>, style: Option<Seq<char>>) -> Seq<
    char,
> {
    "Create a photorealistic fashion remix image. Use the exact same person from the first image - keep their face, hair, body shape, skin tone, and all physical characteristics identical. Only change their clothing by adding the fashion items from the additional images: "@
        + names_joined(categories)
        + ". IMPORTANT: Preserve the person's identity completely - same face, same hair, same body. Only modify the clothing/accessories. The new items should fit naturally on the same person while maintaining their original pose, background, and lighting conditions. Ensure the clothing looks realistically worn by this specific person."@
        + match style {
        Some(s) => " Apply this style approach: "@ + s + "."@,
        None => Seq::empty(),
    }
        + " The final result should be photorealistic, maintaining the original person's complete identity while showcasing them wearing the new fashion items in a natural, believable way."@
}

/// The categories of the items of a remix request.
pub open spec fn request_categories(items: Seq<(ItemCategory, String)>) -> Seq<ItemCategory> {
    items.map_values(|it: (ItemCategory, String)| it.0)
}

/// The hashes a remix is made from: the photo's, then the items'.
pub open spec fn request_sources(r: RemixRequest) -> Seq<Seq<char>> {
    seq![r.base_image@] + r.items@.map_values(|it: (ItemCategory, String)| it.1@)
}

/// A remix to make: its prompt and the hashes of its source images.
#[derive(Debug)]
pub struct RemixPlan {
    pub prompt: String,
    pub source_hashes: Vec<String>,
}

/// The prompt and sources of a remix request; a request without items is
/// invalid.
pub fn plan_remix(request: &RemixRequest) -> (r: Result<RemixPlan, Error>)
    ensures
        request.items@.len() == 0 ==> (r matches Err(Error::InvalidRequest { message })
            && message@ == "No items specified for remix"@),
        request.items@.len() > 0 ==> (r matches Ok(plan) && plan.prompt@ == fashion_remix_prompt(
            request_categories(request.items@),
            match request.style {
                Some(s) => Some(s@),
                None => None,
            },
        ) && views(plan.source_hashes@) == request_sources(*request)),
{
    if request.items.len() == 0 {
        return Err(Error::invalid_request("No items specified for remix"));
    }
    let mut sources: Vec<String> = vec![request.base_image.clone()];
    let mut categories: Vec<ItemCategory> = Vec::new();
    let mut i: usize = 0;
    while i < request.items.len()
        invariant
            i <= request.items@.len(),
            categories@ == request_categories(request.items@).take(i as int),
            views(sources@) == seq![request.base_image@] + request.items@.take(i as int).map_values(
                |it: (ItemCategory, String)| it.1@,
            ),
        decreases request.items@.len() - i,
    {
        let ghost before = views(sources@);
        categories.push(request.items[i].0);
        sources.push(request.items[i].1.clone());
        proof {
            assert(request_categories(request.items@).take(i + 1) =~= request_categories(
                request.items@,
            ).take(i as int).push(request.items@[i as int].0));
            assert(request.items@.take(i + 1).map_values(|it: (ItemCategory, String)| it.1@)
                =~= request.items@.take(i as int).map_values(|it: (ItemCategory, String)| it.1@).push(
                request.items@[i as int].1@,
            ));
            assert(views(sources@) =~= before.push(request.items@[i as int].1@));
        }
        i = i + 1;
    }
    assert(request_categories(request.items@).take(i as int) =~= request_categories(request.items@));
    assert(request.items@.take(i as int) =~= request.items@);
    let mut prompt = owned(
        "Create a photorealistic fashion remix image. Use the exact same person from the first image - keep their face, hair, body shape, skin tone, and all physical characteristics identical. Only change their clothing by adding the fashion items from the additional images: ",
    );
    append_names(&mut prompt, &categories);
    prompt.append(
        ". IMPORTANT: Preserve the person's identity completely - same face, same hair, same body. Only modify the clothing/accessories. The new items should fit naturally on the same person while maintaining their original pose, background, and lighting conditions. Ensure the clothing looks realistically worn by this specific person.",
    );
    match &request.style {
        Some(style) => {
            prompt.append(" Apply this style approach: ");
            prompt.append(style.as_str());
            prompt.append(".");
        },
        None => {},
    }
    prompt.append(
        " The final result should be photorealistic, maintaining the original person's complete identity while showcasing them wearing the new fashion items in a natural, believable way.",
    );
    Ok(RemixPlan { prompt, source_hashes: sources })
}

/// The answer to a generated remix.
pub fn remix_response(config: &Config, metadata: ImageMetadata, source_images: Vec<String>) -> (r:
    RemixResponse)
    ensures
        r.id == metadata.id,
        r.hash@ == metadata.hash@,
        r.dimensions == metadata.dimensions,
        r.url@ == image_url(config.server.public_url@, ImageType::Output, shown_file_name(metadata)),
        r.source_images@ == source_images@,
        r.message@ == "Remix generated successfully"@,
{
    let filename = file_name_of(&metadata);
    let url = config.image_url_path(ImageType::Output, filename.as_str());
    RemixResponse {
        id: metadata.id,
        hash: metadata.hash,
        dimensions: metadata.dimensions,
        url,
        source_images,
        message: owned("Remix generated successfully"),
    }
}

/// `info` shows the output image `m`, with its URL.
pub open spec fn shows_output(info: OutputInfo, config: Config, m: ImageMetadata) -> bool {
    &&& info.id == m.id
    &&& info.hash@ == m.hash@
    &&& info.dimensions == m.dimensions
    &&& info.created_at@ == m.created_at@
    &&& info.source_images@ == m.source_images@
    &&& info.url@ == image_url(config.server.public_url@, ImageType::Output, shown_file_name(m))
}

/// The remix outputs, in the order listed.
pub fn outputs_response(config: &Config, outputs: Vec<ImageMetadata>) -> (r: OutputsResponse)
    ensures
        r.outputs@.len() == outputs@.len(),
        forall|i: int| 0 <= i < outputs@.len() ==> shows_output(#[trigger] r.outputs@[i], *config, outputs@[i]),
{
    let ghost orig = outputs@;
    let mut rest = outputs;
    let mut shown: Vec<OutputInfo> = Vec::new();
    let n = rest.len();
    let mut i: usize = 0;
    while i < n
        invariant
            n == orig.len(),
            i <= n,
            rest@ == orig.skip(i as int),
            shown@.len() == i,
            forall|j: int| 0 <= j < i ==> shows_output(#[trigger] shown@[j], *config, orig[j]),
        decreases n - i,
    {
        let m = rest.remove(0);
        assert(m == orig[i as int]);
        assert(rest@ =~= orig.skip(i + 1));
        let filename = file_name_of(&m);
        let url = config.image_url_path(ImageType::Output, filename.as_str());
        shown.push(
            OutputInfo {
                id: m.id,
                hash: m.hash,
                dimensions: m.dimensions,
                created_at: m.created_at,
                source_images: m.source_images,
                url,
            },
        );
        i = i + 1;
    }
    OutputsResponse { outputs: shown }
}

/// The image type a URL segment names.
pub open spec fn image_type_named(s: Seq<char>) -> Option<ImageType> {
    if s == "input"@ {
        Some(ImageType::Input)
    } else if s == "items"@ {
        Some(ImageType::Item)
    } else if s == "output"@ {
        Some(ImageType::Output)
    } else {
        None
    }
}

/// The image type of a URL segment, or not found.
pub fn parse_image_type(segment: &str) -> (r: Result<ImageType, Error>)
    ensures
        match image_type_named(segment@) {
            Some(t) => r == Ok::<ImageType, Error>(t),
            None => r matches Err(Error::NotFound { resource }) && resource@ == "Invalid image type"@,
        },
{
    if str_eq(segment, "input") {
        Ok(ImageType::Input)
    } else if str_eq(segment, "items") {
        Ok(ImageType::Item)
    } else if str_eq(segment, "output") {
        Ok(ImageType::Output)
    } else {
        Err(Error::not_found("Invalid image type"))
    }
}

/// The index of the last occurrence of `c` in `s`, or -1.
pub open spec fn last_index_of(s: Seq<char>, c: char) -> int
    decreases s.len(),
{
    if s.len() == 0 {
        -1
    } else if s.last() == c {
        s.len() - 1
    } else {
        last_index_of(s.drop_last(), c)
    }
}

/// `s` without what follows its last `.`, and that `.`.
pub open spec fn strip_extension(s: Seq<char>) -> Seq<char> {
    if last_index_of(s, '.') >= 0 {
        s.take(last_index_of(s, '.'))
    } else {
        s
    }
}

/// The short hash a served image path names: the path without extension;
/// for items, whose path is "category/hash.ext", the part after the last
/// `/` without extension.
pub open spec fn hash_in_path(t: ImageType, path: Seq<char>) -> Seq<char> {
    if t == ImageType::Item && last_index_of(path, '/') >= 0 {
        strip_extension(path.skip(last_index_of(path, '/') + 1))
    } else {
        strip_extension(path)
    }
}

fn last_index(v: &Vec<char>, c: char) -> (r: Option<usize>)
    ensures
        match r {
            Some(i) => i < v@.len() && last_index_of(v@, c) == i as int,
            None => last_index_of(v@, c) == -1,
        },
{
    let mut i: usize = v.len();
    assert(v@.take(v@.len() as int) =~= v@);
    while i > 0
        invariant
            i <= v@.len(),
            last_index_of(v@, c) == last_index_of(v@.take(i as int), c),
        decreases i,
    {
        if v[i - 1] == c {
            assert(v@.take(i as int).last() == c);
            return Some(i - 1);
        }
        assert(v@.take(i as int).drop_last() =~= v@.take(i - 1));
        i = i - 1;
    }
    assert(v@.take(0).len() == 0);
    None
}

fn strip_extension_exec(s: &str) -> (r: String)
    ensures
        r@ == strip_extension(s@),
{
    let v = chars_of(s);
    match last_index(&v, '.') {
        Some(i) => s.substring_char(0, i).to_owned(),
        None => owned(s),
    }
}

/// The short hash a served image path names (see `hash_in_path`).
pub fn hash_from_image_path(image_type: ImageType, path: &str) -> (h: String)
    ensures
        h@ == hash_in_path(image_type, path@),
{
    if image_type == ImageType::Item {
        let v = chars_of(path);
        match last_index(&v, '/') {
            Some(i) => {
                let n = path.unicode_len();
                let tail = path.substring_char(i + 1, n);
                assert(tail@ =~= path@.skip(i + 1));
                return strip_extension_exec(tail);
            },
            None => {},
        }
    }
    strip_extension_exec(path)
}

/// The content type an image is served with: its detected MIME type, else
/// "application/octet-stream".
pub fn served_content_type(data: &[u8]) -> (t: String)
    ensures
        t@ == match detected_mime(data@) {
            Some(m) => m,
            None => "application/octet-stream"@,
        },
{
    match detect_image_mime_type(data) {
        Some(m) => m,
        None => owned("application/octet-stream"),
    }
}

/// Query parameters for pagination and filtering of listings.
#[derive(Debug)]
pub struct QueryParams {
    pub limit: Option<usize>,
    pub offset: Option<usize>,
    pub category: Option<String>,
}

/// The health answer: status "ok", the service version, and whether the
/// Gemini API answered.
pub fn health_response(version: &str, gemini_api_available: bool) -> (r: HealthResponse)
    ensures
        r.status@ == "ok"@,
        r.version@ == version@,
        r.gemini_api_available == gemini_api_available,
{
    HealthResponse { status: owned("ok"), version: owned(version), gemini_api_available }
}

/// The error for a path no endpoint serves.
pub fn endpoint_not_found() -> (e: Error)
    ensures
        e matches Error::NotFound { resource } && resource@ == "Endpoint not found"@,
{
    Error::not_found("Endpoint not found")
}

/// The error for a method an endpoint does not take.
pub fn method_not_allowed() -> (e: Error)
    ensures
        e matches Error::InvalidRequest { message } && message@ == "Method not allowed"@,
{
    Error::invalid_request("Method not allowed")
}

/// Neither `.` nor `/` occurs in `s`.
pub open spec fn plain_segment(s: Seq<char>) -> bool {
    forall|i: int| 0 <= i < s.len() ==> s[i] != '.' && s[i] != '/'
}

proof fn lemma_last_index_of_absent(s: Seq<char>, c: char)
    requires
        forall|i: int| 0 <= i < s.len() ==> s[i] != c,
    ensures
        last_index_of(s, c) == -1,
    decreases s.len(),
{
    if s.len() > 0 {
        lemma_last_index_of_absent(s.drop_last(), c);
    }
}

proof fn lemma_last_index_of_after(a: Seq<char>, b: Seq<char>, c: char)
    requires
        forall|i: int| 0 <= i < b.len() ==> b[i] != c,
        last_index_of(a, c) >= 0,
    ensures
        last_index_of(a + b, c) == last_index_of(a, c),
    decreases b.len(),
{
    if b.len() > 0 {
        assert((a + b).drop_last() =~= a + b.drop_last());
        lemma_last_index_of_after(a, b.drop_last(), c);
    } else {
        assert(a + b =~= a);
    }
}

proof fn lemma_last_index_of_at_end(a: Seq<char>, c: char, b: Seq<char>)
    requires
        forall|i: int| 0 <= i < b.len() ==> b[i] != c,
    ensures
        last_index_of(a.push(c) + b, c) == a.len(),
    decreases b.len(),
{
    if b.len() > 0 {
        assert((a.push(c) + b).drop_last() =~= a.push(c) + b.drop_last());
        lemma_last_index_of_at_end(a, c, b.drop_last());
    } else {
        assert(a.push(c) + b =~= a.push(c));
    }
}

/// The URL an image is given is the one it is served at: for a file named
/// by a short hash and an extension (neither holding `.` or `/`), the path
/// an answer puts in the URL (the file name; for items, the category
/// directory, `/`, the file name) leads back to the short hash.
pub proof fn law_served_path_names_hash(t: ImageType, c: ItemCategory, hash: Seq<char>, ext: Seq<char>)
    requires
        plain_segment(hash),
        plain_segment(ext),
    ensures
        ({
            let file = hash + "."@ + ext;
            let path = if t == ImageType::Item {
                dir_name_of(c) + "/"@ + file
            } else {
                file
            };
            hash_in_path(t, path) == hash
        }),
{
    reveal_strlit(".");
    reveal_strlit("/");
    let file = hash + "."@ + ext;
    assert(file =~= hash.push('.') + ext);
    lemma_last_index_of_at_end(hash, '.', ext);
    assert(file.take(hash.len() as int) =~= hash);
    if t == ImageType::Item {
        crate::models::law_category_names_well_formed(c);
        let d = dir_name_of(c);
        let path = d + "/"@ + file;
        assert(path =~= d.push('/') + file);
        assert forall|i: int| 0 <= i < file.len() implies file[i] != '/' by {
            if i < hash.len() {
                assert(file[i] == hash[i]);
            } else if i > hash.len() {
                assert(file[i] == ext[i - hash.len() - 1]);
            }
        }
        lemma_last_index_of_at_end(d, '/', file);
        assert(path.skip(d.len() as int + 1) =~= file);
    }
}

/// A stored image is served back at its URL and listed under its hash: for
/// a short hash of lowercase hex digits (as `FileManager::short_hash` gives)
/// and the extension of a supported format, the path the image's URL names
/// leads back to the hash, the stored file's stem is the hash (so the lookup
/// by hash finds the file), and a listing shows the file under the hash.
pub proof fn law_stored_image_served_back(t: ImageType, c: ItemCategory, hash: Seq<char>, ext: Seq<char>)
    requires
        hash.len() > 0,
        forall|i: int| 0 <= i < hash.len() ==> is_lower_hex_digit(#[trigger] hash[i]),
        ext == "jpg"@ || ext == "png"@ || ext == "webp"@,
    ensures
        ({
            let file = image_file_name(hash, ext);
            let path = if t == ImageType::Item {
                dir_name_of(c) + "/"@ + file
            } else {
                file
            };
            &&& hash_in_path(t, path) == hash
            &&& stem_of(file) == hash
            &&& listed_stem(file) == Some(hash)
        }),
{
    reveal_strlit("jpg");
    reveal_strlit("png");
    reveal_strlit("webp");
    assert(plain_segment(hash)) by {
        assert forall|i: int| 0 <= i < hash.len() implies hash[i] != '.' && hash[i] != '/' by {
            assert(is_lower_hex_digit(hash[i]));
        }
    }
    assert(plain_segment(ext));
    law_served_path_names_hash(t, c, hash, ext);
    assert(is_lower_hex_digit(hash[0]));
    lemma_image_file_name_parts(hash, ext);
    assert(crate::file_manager::eq_ignoring_ascii_case(ext, ext)) by {
        assert forall|i: int| 0 <= i < ext.len() implies #[trigger] crate::text::ascii_lower(
            ext[ext.len() - ext.len() + i],
        ) == ext[i] by {
            assert(ext[ext.len() - ext.len() + i] == ext[i]);
        }
    }
    assert(listed_extension(ext) is Some);
}

} // verus!
