//! Image storage: content hashes and file names, where each kind of image
//! is stored and found, the metadata of stored images, listings, and the
//! plan for generating default items.
//!
//! The file operations themselves (existence checks, reads, writes,
//! directory listings, file times) are performed by the caller, which hands
//! their results to these functions.

use vstd::prelude::*;

use crate::config::{extension_for, join_path, path_join, same_config, views, Config, ImageType};
use crate::error::Error;
use crate::gemini::{detect_image_mime_type, detected_mime};
use crate::models::{
    all_categories, dir_name_of, display_name_of, new_image_id, ImageMetadata, ItemCategory,
};
use crate::time::{iso_timestamp, iso_timestamp_string};
use crate::ordering::{is_newest_first_of, sort_newest_first};
use crate::text::{
    chars_of, decimal, decimal_string, ends_with_ignoring_ascii_case, has_elem, hex_lower, join2, join3,
    is_lower_hex_digit, lemma_hex_lower_shape, owned, str_eq, take_chars, to_hex_lower,
};

verus! {

broadcast use vstd::string::group_string_axioms;

// ---------------------------------------------------------------------------
// Content hashes
// ---------------------------------------------------------------------------

/// The 32-byte BLAKE3 digest of `data`.
pub uninterp spec fn blake3_digest(data: Seq<u8>) -> Seq<u8>;

/// BLAKE3 of `data` with `blake3::Hasher` (`new`, `update`, `finalize`):
/// the result is named `blake3_digest` of the input and, as `blake3`'s
/// `OUT_LEN` states, is 32 bytes long.
#[verifier::external_body]
fn blake3_hash(data: &[u8]) -> (d: Vec<u8>)
    ensures
        d@ == blake3_digest(data@),
        d@.len() == 32,
{
    let mut hasher = blake3::Hasher::new();
    hasher.update(data);
    hasher.finalize().as_bytes().to_vec()
}

/// The lowercase hexadecimal BLAKE3 digest of `data`, as
/// `blake3::Hash::to_hex` writes it.
pub open spec fn content_hash(data: Seq<u8>) -> Seq<char> {
    hex_lower(blake3_digest(data))
}

/// The short hash that names a stored image: the first six characters of
/// its content hash.
pub open spec fn short_hash_of(data: Seq<u8>) -> Seq<char> {
    content_hash(data).take(6)
}

// ---------------------------------------------------------------------------
// Image dimensions
// ---------------------------------------------------------------------------

/// What `image` reports for the dimensions of encoded image data: the width
/// and height, or a failure with its message; the flag tells whether the
/// failure came while guessing the format (`true`) or while reading the
/// header (`false`).
pub uninterp spec fn probed_dimensions(data: Seq<u8>) -> Result<(u32, u32), (bool, Seq<char>)>;

/// The dimensions of encoded image data with `image::ImageReader`
/// (`with_guessed_format`, then `into_dimensions`): the result is named
/// `probed_dimensions` of the data, each error carried as its message. The
/// format is guessed from the format signatures `image` knows, of which the
/// program registers none of its own.
#[verifier::external_body]
fn probe_dimensions(data: &[u8]) -> (r: Result<(u32, u32), (bool, String)>)
    ensures
        match r {
            Ok(d) => probed_dimensions(data@) == Ok::<(u32, u32), (bool, Seq<char>)>(d),
            Err((guessing, m)) => probed_dimensions(data@) == Err::<(u32, u32), (bool, Seq<char>)>(
                (guessing, m@),
            ),
        },
{
    let reader = match image::ImageReader::new(std::io::Cursor::new(data)).with_guessed_format() {
        Ok(reader) => reader,
        Err(e) => return Err((true, e.to_string())),
    };
    match reader.into_dimensions() {
        Ok(d) => Ok(d),
        Err(e) => Err((false, e.to_string())),
    }
}

/// The dimensions of an image, or the invalid-image error for data whose
/// dimensions cannot be read.
pub open spec fn dimensions_of(data: Seq<u8>) -> Result<(u32, u32), Seq<char>> {
    match probed_dimensions(data) {
        Ok(d) => Ok(d),
        Err((true, m)) => Err("Failed to guess image format: "@ + m),
        Err((false, m)) => Err("Failed to get image dimensions: "@ + m),
    }
}

/// The dimensions of an image, or the default 1024 x 1024 when they cannot
/// be read.
pub open spec fn dimensions_or_default(data: Seq<u8>) -> (u32, u32) {
    match dimensions_of(data) {
        Ok(d) => d,
        Err(_) => (1024, 1024),
    }
}

// ---------------------------------------------------------------------------
// File names
// ---------------------------------------------------------------------------

/// The index of the last `.` in `s`, or -1.
pub open spec fn last_dot(s: Seq<char>) -> int
    decreases s.len(),
{
    if s.len() == 0 {
        -1
    } else if s.last() == '.' {
        s.len() - 1
    } else {
        last_dot(s.drop_last())
    }
}

/// The extension of a file name, as `Path::extension` gives it: what
/// follows the last `.`, unless the name is `..`, has no `.`, or has its
/// only `.` at the start.
pub open spec fn extension_of(name: Seq<char>) -> Option<Seq<char>> {
    if name == ".."@ || last_dot(name) <= 0 {
        None
    } else {
        Some(name.subrange(last_dot(name) + 1, name.len() as int))
    }
}

/// The stem of a file name, as `Path::file_stem` gives it: what precedes
/// the last `.`, or the whole name when it has no extension.
pub open spec fn stem_of(name: Seq<char>) -> Seq<char> {
    if name == ".."@ || last_dot(name) <= 0 {
        name
    } else {
        name.subrange(0, last_dot(name))
    }
}

proof fn lemma_last_dot_bounds(s: Seq<char>)
    ensures
        -1 <= last_dot(s) < s.len(),
        last_dot(s) >= 0 ==> s[last_dot(s)] == '.',
        forall|j: int| last_dot(s) < j < s.len() ==> s[j] != '.',
    decreases s.len(),
{
    if s.len() > 0 && s.last() != '.' {
        lemma_last_dot_bounds(s.drop_last());
        assert forall|j: int| last_dot(s) < j < s.len() implies s[j] != '.' by {
            if j < s.len() - 1 {
                assert(s.drop_last()[j] == s[j]);
            }
        }
    }
}

proof fn lemma_last_dot_after(hash: Seq<char>, ext: Seq<char>)
    requires
        forall|i: int| 0 <= i < ext.len() ==> ext[i] != '.',
    ensures
        last_dot(hash.push('.') + ext) == hash.len(),
    decreases ext.len(),
{
    if ext.len() > 0 {
        assert((hash.push('.') + ext).drop_last() =~= hash.push('.') + ext.drop_last());
        lemma_last_dot_after(hash, ext.drop_last());
    } else {
        assert(hash.push('.') + ext =~= hash.push('.'));
    }
}

/// A file named by a hash (not starting with `.`) and an extension
/// (without `.`) has that hash as stem and that extension.
pub(crate) proof fn lemma_image_file_name_parts(hash: Seq<char>, ext: Seq<char>)
    requires
        hash.len() > 0,
        hash[0] != '.',
        forall|i: int| 0 <= i < ext.len() ==> ext[i] != '.',
    ensures
        stem_of(image_file_name(hash, ext)) == hash,
        extension_of(image_file_name(hash, ext)) == Some(ext),
{
    reveal_strlit(".");
    reveal_strlit("..");
    let name = image_file_name(hash, ext);
    assert(name =~= hash.push('.') + ext);
    lemma_last_dot_after(hash, ext);
    assert(name[0] == hash[0]);
    assert(name != ".."@);
    assert(name.subrange(0, hash.len() as int) =~= hash);
    assert(name.subrange(hash.len() as int + 1, name.len() as int) =~= ext);
}

/// The stem and extension of a file name (see `stem_of`, `extension_of`).
pub fn split_file_name(name: &str) -> (r: (String, Option<String>))
    ensures
        r.0@ == stem_of(name@),
        match r.1 {
            Some(e) => extension_of(name@) == Some(e@),
            None => extension_of(name@) is None,
        },
{
    let v = chars_of(name);
    let mut i: usize = v.len();
    assert(name@.take(name@.len() as int) =~= name@);
    while i > 0 && v[i - 1] != '.'
        invariant
            v@ == name@,
            i <= v@.len(),
            last_dot(name@) == last_dot(name@.take(i as int)),
        decreases i,
    {
        proof {
            assert(name@.take(i as int).drop_last() =~= name@.take(i - 1));
        }
        i = i - 1;
    }
    proof {
        if i > 0 {
            assert(name@.take(i as int).last() == '.');
        } else {
            assert(name@.take(0).len() == 0);
        }
        assert(name@.take(name@.len() as int) =~= name@);
    }
    let is_parent = str_eq(name, "..");
    if is_parent || i <= 1 {
        return (owned(name), None);
    }
    let dot = i - 1;
    let n = name.unicode_len();
    let stem = name.substring_char(0, dot).to_owned();
    let ext = name.substring_char(dot + 1, n).to_owned();
    (stem, Some(ext))
}

/// `s` equals the lowercase ASCII word `lower` up to ASCII case.
pub open spec fn eq_ignoring_ascii_case(s: Seq<char>, lower: Seq<char>) -> bool {
    s.len() == lower.len() && ends_with_ignoring_ascii_case(s, lower)
}

/// The image file extensions a listing shows, in lowercase: "png", "jpg",
/// "jpeg", "webp". (No character outside ASCII lowercases to a letter of
/// these words, so comparing up to ASCII case is comparing lowercase forms.)
pub open spec fn listed_extension(ext: Seq<char>) -> Option<Seq<char>> {
    if eq_ignoring_ascii_case(ext, "png"@) {
        Some("png"@)
    } else if eq_ignoring_ascii_case(ext, "jpg"@) {
        Some("jpg"@)
    } else if eq_ignoring_ascii_case(ext, "jpeg"@) {
        Some("jpeg"@)
    } else if eq_ignoring_ascii_case(ext, "webp"@) {
        Some("webp"@)
    } else {
        None
    }
}

/// The MIME type of a listed image extension.
pub open spec fn mime_of_extension(ext: Seq<char>) -> Seq<char> {
    if ext == "png"@ {
        "image/png"@
    } else if ext == "jpg"@ || ext == "jpeg"@ {
        "image/jpeg"@
    } else {
        "image/webp"@
    }
}

fn lowercase_listed_extension(ext: &str) -> (r: Option<&'static str>)
    ensures
        match r {
            Some(e) => listed_extension(ext@) == Some(e@),
            None => listed_extension(ext@) is None,
        },
{
    proof {
        reveal_strlit("png");
        reveal_strlit("jpg");
        reveal_strlit("jpeg");
        reveal_strlit("webp");
    }
    let n = ext.unicode_len();
    if n == 3 && crate::text::ends_with_ignore_ascii_case(ext, "png") {
        Some("png")
    } else if n == 3 && crate::text::ends_with_ignore_ascii_case(ext, "jpg") {
        Some("jpg")
    } else if n == 4 && crate::text::ends_with_ignore_ascii_case(ext, "jpeg") {
        Some("jpeg")
    } else if n == 4 && crate::text::ends_with_ignore_ascii_case(ext, "webp") {
        Some("webp")
    } else {
        None
    }
}

fn mime_for_listed_extension(ext: &str) -> (m: String)
    ensures
        m@ == mime_of_extension(ext@),
{
    if str_eq(ext, "png") {
        owned("image/png")
    } else if str_eq(ext, "jpg") || str_eq(ext, "jpeg") {
        owned("image/jpeg")
    } else {
        owned("image/webp")
    }
}

/// The stem of a file name when its extension is one a listing shows.
pub open spec fn listed_stem(name: Seq<char>) -> Option<Seq<char>> {
    match extension_of(name) {
        Some(e) => if listed_extension(e) is Some {
            Some(stem_of(name))
        } else {
            None
        },
        None => None,
    }
}

/// The stem of `file_name` if it names an image a listing shows.
pub fn listed_image_stem(file_name: &str) -> (r: Option<String>)
    ensures
        match r {
            Some(s) => listed_stem(file_name@) == Some(s@),
            None => listed_stem(file_name@) is None,
        },
{
    let (stem, ext) = split_file_name(file_name);
    match ext {
        Some(e) => match lowercase_listed_extension(e.as_str()) {
            Some(_) => Some(stem),
            None => None,
        },
        None => None,
    }
}

/// Whether the file `file_name` holds the image with short hash `hash`: its
/// stem is the hash.
pub fn file_has_hash(file_name: &str, hash: &str) -> (b: bool)
    ensures
        b == (stem_of(file_name@) == hash@),
{
    let (stem, _) = split_file_name(file_name);
    str_eq(stem.as_str(), hash)
}

// ---------------------------------------------------------------------------
// Stored images
// ---------------------------------------------------------------------------

/// Where a new image goes: its MIME type, short hash, file name and path.
#[derive(Debug)]
pub struct StoragePlan {
    pub mime_type: String,
    pub short_hash: String,
    pub file_name: String,
    pub path: String,
}

/// The metadata and path of an image to store.
#[derive(Debug)]
pub struct StoredImage {
    pub metadata: ImageMetadata,
    pub path: String,
}

/// A directory entry of a listing: its file name, whether it is a regular
/// file, its size if known, and its creation time in seconds since the Unix
/// epoch (the current time when the file system does not record one).
#[derive(Debug)]
pub struct DirEntryInfo {
    pub file_name: String,
    pub is_file: bool,
    pub size: Option<u64>,
    pub created_secs: u64,
}

/// A default item to generate: its category, the colour asked for (tops
/// only), the delay before the request in milliseconds, and the prompt
/// recorded with it.
#[derive(Debug)]
pub struct DefaultItemJob {
    pub category: ItemCategory,
    pub color: Option<String>,
    pub delay_ms: u64,
    pub prompt: String,
}

/// `m` describes an image with the given properties.
pub open spec fn describes(
    m: ImageMetadata,
    filename: Seq<char>,
    hash: Seq<char>,
    size: u64,
    dimensions: (u32, u32),
    mime_type: Seq<char>,
    created_at: Seq<char>,
    category: Option<ItemCategory>,
    prompt: Option<Seq<char>>,
    sources: Seq<Seq<char>>,
) -> bool {
    &&& m.filename is Some && m.filename->0@ == filename
    &&& m.hash@ == hash
    &&& m.size == size
    &&& m.dimensions == dimensions
    &&& m.mime_type@ == mime_type
    &&& m.created_at@ == created_at
    &&& m.category == category
    &&& match prompt {
        Some(p) => m.prompt is Some && m.prompt->0@ == p,
        None => m.prompt is None,
    }
    &&& views(m.source_images@) == sources
}

/// The file name of an image: short hash, `.`, extension.
pub open spec fn image_file_name(short_hash: Seq<char>, ext: Seq<char>) -> Seq<char> {
    short_hash + "."@ + ext
}

/// The colours of the default tops, one top per colour, in order.
pub open spec fn tshirt_colors() -> Seq<Seq<char>> {
    seq!["white"@, "black"@, "red"@, "blue"@, "green"@, "yellow"@, "gray"@, "navy"@]
}

/// How many default items a category is filled up to: a top in each of the
/// eight colours, two items of every other category.
pub open spec fn default_target(c: ItemCategory) -> nat {
    if c == ItemCategory::Top {
        8
    } else {
        2
    }
}

/// The colour of the default item with this ordinal (counting from 1): the
/// ordinal-th top colour for tops, none for other categories.
pub open spec fn default_color(c: ItemCategory, ordinal: nat) -> Option<Seq<char>> {
    if c == ItemCategory::Top {
        Some(tshirt_colors()[ordinal - 1])
    } else {
        None
    }
}

/// The default items of a category that holds `existing` items: those from
/// ordinal `existing + 1` up to the category's target, each with its
/// category, delay (200 ms per item before it in the category) and ordinal.
pub open spec fn jobs_for(c: ItemCategory, existing: nat) -> Seq<(ItemCategory, u64, nat)> {
    if existing >= default_target(c) {
        Seq::empty()
    } else {
        Seq::new(
            (default_target(c) - existing) as nat,
            |j: int| (c, ((existing + j) * 200) as u64, (existing + j + 1) as nat),
        )
    }
}

/// The default item jobs for the first `k` categories, given how many items
/// each category holds (categories past the end of `existing` hold none):
/// category, delay and ordinal of each item.
pub open spec fn default_jobs(existing: Seq<usize>, k: int) -> Seq<(ItemCategory, u64, nat)>
    decreases k,
{
    if k <= 0 {
        Seq::empty()
    } else {
        default_jobs(existing, k - 1) + jobs_for(
            all_categories()[k - 1],
            if k - 1 < existing.len() {
                existing[k - 1] as nat
            } else {
                0
            },
        )
    }
}

/// The prompt recorded with a default item: its category and ordinal, and
/// for a top its colour.
pub open spec fn default_item_prompt(c: ItemCategory, ordinal: nat) -> Seq<char> {
    let base = "Default "@ + display_name_of(c) + " item #"@ + decimal(ordinal);
    match default_color(c, ordinal) {
        Some(color) => base + " ("@ + color + ")"@,
        None => base,
    }
}

/// The jobs match the planned category, delay and ordinal of each item,
/// with the colour and prompt of that ordinal.
pub open spec fn jobs_match(jobs: Seq<DefaultItemJob>, plan: Seq<(ItemCategory, u64, nat)>) -> bool {
    jobs.len() == plan.len() && forall|k: int|
        0 <= k < jobs.len() ==> job_is(#[trigger] jobs[k], plan[k])
}

/// The job carries the planned category, delay, colour and prompt.
pub open spec fn job_is(job: DefaultItemJob, planned: (ItemCategory, u64, nat)) -> bool {
    &&& job.category == planned.0
    &&& job.delay_ms == planned.1
    &&& job.prompt@ == default_item_prompt(planned.0, planned.2)
    &&& match job.color {
        Some(s) => default_color(planned.0, planned.2) == Some(s@),
        None => default_color(planned.0, planned.2) is None,
    }
}

/// The `i`-th colour of the default tops.
fn tshirt_color(i: u64) -> (s: &'static str)
    requires
        i < 8,
    ensures
        s@ == tshirt_colors()[i as int],
{
    proof {
        reveal_strlit("white");
        reveal_strlit("black");
        reveal_strlit("red");
        reveal_strlit("blue");
        reveal_strlit("green");
        reveal_strlit("yellow");
        reveal_strlit("gray");
        reveal_strlit("navy");
    }
    if i == 0 {
        "white"
    } else if i == 1 {
        "black"
    } else if i == 2 {
        "red"
    } else if i == 3 {
        "blue"
    } else if i == 4 {
        "green"
    } else if i == 5 {
        "yellow"
    } else if i == 6 {
        "gray"
    } else {
        "navy"
    }
}

/// The file manager: where images are stored and how they are named.
#[derive(Debug)]
pub struct FileManager {
    config: Config,
}

impl Clone for FileManager {
    fn clone(&self) -> (r: Self)
        ensures
            same_config(r.spec_config(), self.spec_config()),
    {
        FileManager { config: self.config.clone() }
    }
}

impl FileManager {
    /// The configuration this manager stores images by.
    pub closed spec fn spec_config(&self) -> Config {
        self.config
    }

    /// A file manager for a configuration. The caller creates the
    /// directories first (see `Config::required_directories`).
    pub fn new(config: &Config) -> (fm: FileManager)
        ensures
            same_config(fm.spec_config(), *config),
    {
        FileManager { config: config.clone() }
    }

    /// The configuration this manager stores images by.
    pub fn config(&self) -> (c: &Config)
        ensures
            *c == self.spec_config(),
    {
        &self.config
    }

    /// The lowercase hexadecimal BLAKE3 digest of `data` (64 characters).
    pub fn calculate_hash(&self, data: &[u8]) -> (h: String)
        ensures
            h@ == content_hash(data@),
            h@.len() == 64,
    {
        let digest = blake3_hash(data);
        proof {
            lemma_hex_lower_shape(digest@);
        }
        to_hex_lower(digest.as_slice())
    }

    /// The short hash of `data`: the first six characters of its hash.
    pub fn short_hash(&self, data: &[u8]) -> (h: String)
        ensures
            h@ == short_hash_of(data@),
            h@.len() == 6,
            forall|i: int| 0 <= i < h@.len() ==> is_lower_hex_digit(#[trigger] h@[i]),
    {
        let full = self.calculate_hash(data);
        proof {
            lemma_hex_lower_shape(blake3_digest(data@));
        }
        let h = take_chars(full.as_str(), 6);
        assert forall|i: int| 0 <= i < h@.len() implies is_lower_hex_digit(#[trigger] h@[i]) by {
            assert(h@[i] == full@[i]);
        }
        h
    }

    /// The dimensions of an image.
    pub fn get_image_dimensions(&self, data: &[u8]) -> (r: Result<(u32, u32), Error>)
        ensures
            match dimensions_of(data@) {
                Ok(d) => r == Ok::<(u32, u32), Error>(d),
                Err(m) => r matches Err(Error::InvalidImage { message }) && message@ == m,
            },
    {
        match probe_dimensions(data) {
            Ok(d) => Ok(d),
            Err((true, m)) => Err(
                Error::InvalidImage { message: join2("Failed to guess image format: ", m.as_str()) },
            ),
            Err((false, m)) => Err(
                Error::InvalidImage {
                    message: join2("Failed to get image dimensions: ", m.as_str()),
                },
            ),
        }
    }

    fn dimensions_or_default(&self, data: &[u8]) -> (d: (u32, u32))
        ensures
            d == dimensions_or_default(data@),
    {
        match self.get_image_dimensions(data) {
            Ok(d) => d,
            Err(_) => (1024, 1024),
        }
    }

    /// A timestamp as stored in metadata: the ISO 8601 UTC date-time
    /// `secs` seconds after the Unix epoch (see `iso_timestamp`).
    pub fn format_timestamp(secs: u64) -> (s: String)
        ensures
            s@ == iso_timestamp(secs),
    {
        iso_timestamp_string(secs)
    }

    /// Where an uploaded photo goes: the upload must fit the size limit and
    /// be an image of a supported format; it is named by its short hash and
    /// the format's extension, in the input directory.
    pub fn plan_input_image(&self, data: &[u8]) -> (r: Result<StoragePlan, Error>)
        ensures
            data@.len() > self.spec_config().fs.max_file_size ==> (r matches Err(
                Error::InvalidRequest { message },
            ) && message@ == "File size ("@ + decimal(data@.len()) + " bytes) exceeds maximum allowed size ("@
                + decimal(self.spec_config().fs.max_file_size as nat) + " bytes)"@),
            data@.len() <= self.spec_config().fs.max_file_size && detected_mime(data@) is None ==> (
            r matches Err(Error::InvalidImage { message }) && message@
                == "Unsupported or invalid image format"@),
            data@.len() <= self.spec_config().fs.max_file_size && detected_mime(data@) is Some
                && !has_elem(views(self.spec_config().fs.supported_formats@), detected_mime(data@)->0)
                ==> (r matches Err(Error::InvalidImage { message }) && message@
                == "Unsupported image format: "@ + detected_mime(data@)->0),
            data@.len() <= self.spec_config().fs.max_file_size && detected_mime(data@) is Some
                && has_elem(views(self.spec_config().fs.supported_formats@), detected_mime(data@)->0)
                ==> (r matches Ok(plan) && plan.mime_type@ == detected_mime(data@)->0
                && plan.short_hash@ == short_hash_of(data@) && plan.file_name@ == image_file_name(
                short_hash_of(data@),
                extension_for(detected_mime(data@)->0)->0,
            ) && plan.path@ == path_join(self.spec_config().fs.input_dir@, plan.file_name@)),
    {
        let size_check = self.config.validate_file_size(data.len() as u64);
        match size_check {
            Err(e) => {
                return Err(e);
            },
            Ok(()) => {},
        }
        let mime_type = match detect_image_mime_type(data) {
            Some(m) => m,
            None => {
                return Err(Error::invalid_image("Unsupported or invalid image format"));
            },
        };
        if !self.config.is_supported_format(mime_type.as_str()) {
            return Err(
                Error::InvalidImage {
                    message: join2("Unsupported image format: ", mime_type.as_str()),
                },
            );
        }
        let short_hash = self.short_hash(data);
        let extension = match self.config.get_file_extension(mime_type.as_str()) {
            Some(e) => e,
            None => {
                proof {
                    lemma_detected_mime_has_extension(data@);
                }
                return Err(Error::invalid_image("Unknown image format"));
            },
        };
        let file_name = join3(short_hash.as_str(), ".", extension);
        let path = join_path(self.config.fs.input_dir.as_str(), file_name.as_str());
        Ok(StoragePlan { mime_type, short_hash, file_name, path })
    }

    /// The metadata of an uploaded photo. For a photo already stored
    /// (`existing_created_secs` holds the stored file's creation time),
    /// unreadable dimensions default to 1024 x 1024; a new photo must have
    /// readable dimensions and is dated `now_secs`.
    pub fn input_image_metadata(
        &self,
        plan: &StoragePlan,
        data: &[u8],
        existing_created_secs: Option<u64>,
        now_secs: u64,
    ) -> (r: Result<ImageMetadata, Error>)
        ensures
            existing_created_secs is Some ==> (r matches Ok(m) && describes(
                m,
                plan.file_name@,
                plan.short_hash@,
                data@.len() as u64,
                dimensions_or_default(data@),
                plan.mime_type@,
                iso_timestamp(existing_created_secs->0),
                None,
                None,
                Seq::empty(),
            )),
            existing_created_secs is None ==> match dimensions_of(data@) {
                Ok(d) => r matches Ok(m) && describes(
                    m,
                    plan.file_name@,
                    plan.short_hash@,
                    data@.len() as u64,
                    d,
                    plan.mime_type@,
                    iso_timestamp(now_secs),
                    None,
                    None,
                    Seq::empty(),
                ),
                Err(msg) => r matches Err(Error::InvalidImage { message }) && message@ == msg,
            },
    {
        let (dimensions, created_secs) = match existing_created_secs {
            Some(created) => (self.dimensions_or_default(data), created),
            None => match self.get_image_dimensions(data) {
                Ok(d) => (d, now_secs),
                Err(e) => {
                    return Err(e);
                },
            },
        };
        let sources: Vec<String> = Vec::new();
        assert(views(sources@) =~= Seq::<Seq<char>>::empty());
        Ok(
            ImageMetadata {
                id: new_image_id(),
                filename: Some(plan.file_name.clone()),
                hash: plan.short_hash.clone(),
                size: data.len() as u64,
                dimensions,
                mime_type: plan.mime_type.clone(),
                created_at: iso_timestamp_string(created_secs),
                category: None,
                prompt: None,
                source_images: sources,
            },
        )
    }

    /// A generated image to store under `dir`: MIME type detected (JPEG
    /// when unknown), named by short hash and extension ("jpg" when
    /// unknown), with readable dimensions, dated `now_secs`.
    fn generated_image(
        &self,
        data: &[u8],
        dir: &str,
        category: Option<ItemCategory>,
        prompt: Option<String>,
        source_images: Vec<String>,
        now_secs: u64,
    ) -> (r: Result<StoredImage, Error>)
        ensures
            match dimensions_of(data@) {
                Ok(d) => r matches Ok(s) && generated_image_is(
                    s,
                    data@,
                    dir@,
                    d,
                    category,
                    match prompt {
                        Some(p) => Some(p@),
                        None => None,
                    },
                    views(source_images@),
                    now_secs,
                ),
                Err(msg) => r matches Err(Error::InvalidImage { message }) && message@ == msg,
            },
    {
        let mime_type = match detect_image_mime_type(data) {
            Some(m) => m,
            None => owned("image/jpeg"),
        };
        let short_hash = self.short_hash(data);
        let extension = match self.config.get_file_extension(mime_type.as_str()) {
            Some(e) => e,
            None => "jpg",
        };
        let file_name = join3(short_hash.as_str(), ".", extension);
        let path = join_path(dir, file_name.as_str());
        let dimensions = match self.get_image_dimensions(data) {
            Ok(d) => d,
            Err(e) => {
                return Err(e);
            },
        };
        let metadata = ImageMetadata {
            id: new_image_id(),
            filename: Some(file_name),
            hash: short_hash,
            size: data.len() as u64,
            dimensions,
            mime_type,
            created_at: iso_timestamp_string(now_secs),
            category,
            prompt,
            source_images,
        };
        Ok(StoredImage { metadata, path })
    }

    /// A generated item image of `category`, stored in the category's
    /// directory. The caller writes it unless a file is already at the path.
    pub fn plan_item_image(
        &self,
        data: &[u8],
        category: &ItemCategory,
        prompt: Option<String>,
        now_secs: u64,
    ) -> (r: Result<StoredImage, Error>)
        ensures
            match dimensions_of(data@) {
                Ok(d) => r matches Ok(s) && generated_image_is(
                    s,
                    data@,
                    path_join(self.spec_config().fs.items_dir@, dir_name_of(*category)),
                    d,
                    Some(*category),
                    match prompt {
                        Some(p) => Some(p@),
                        None => None,
                    },
                    Seq::empty(),
                    now_secs,
                ),
                Err(msg) => r matches Err(Error::InvalidImage { message }) && message@ == msg,
            },
            match r {
                Ok(s) => (detected_mime(data@) is Some ==> s.metadata.mime_type@ == detected_mime(
                    data@,
                )->0 && s.metadata.filename is Some && s.metadata.filename->0@ == short_hash_of(data@)
                    + "."@ + extension_for(detected_mime(data@)->0)->0) && s.metadata.hash@
                    == short_hash_of(data@) && s.path@ == path_join(
                    path_join(self.spec_config().fs.items_dir@, dir_name_of(*category)),
                    s.metadata.filename->0@,
                ) && s.metadata.category == Some(*category),
                Err(_) => true,
            },
    {
        let dir = self.config.category_path(category);
        let sources: Vec<String> = Vec::new();
        assert(views(sources@) =~= Seq::<Seq<char>>::empty());
        let ghost given = if prompt is Some {
            Some(prompt->0@)
        } else {
            None::<Seq<char>>
        };
        let r = self.generated_image(data, dir.as_str(), Some(*category), prompt, sources, now_secs);
        proof {
            if r is Ok {
                law_generated_image_typed_by_content(
                    r->Ok_0,
                    data@,
                    dir@,
                    dimensions_of(data@)->Ok_0,
                    Some(*category),
                    given,
                    Seq::empty(),
                    now_secs,
                );
            }
        }
        r
    }

    /// A remix output image, stored in the output directory with the hashes
    /// of the images it was made from. The caller writes it unless a file is
    /// already at the path.
    pub fn plan_output_image(
        &self,
        data: &[u8],
        source_images: Vec<String>,
        now_secs: u64,
    ) -> (r: Result<StoredImage, Error>)
        ensures
            match dimensions_of(data@) {
                Ok(d) => r matches Ok(s) && generated_image_is(
                    s,
                    data@,
                    self.spec_config().fs.output_dir@,
                    d,
                    None,
                    None,
                    views(source_images@),
                    now_secs,
                ),
                Err(msg) => r matches Err(Error::InvalidImage { message }) && message@ == msg,
            },
            match r {
                Ok(s) => (detected_mime(data@) is Some ==> s.metadata.mime_type@ == detected_mime(
                    data@,
                )->0 && s.metadata.filename is Some && s.metadata.filename->0@ == short_hash_of(data@)
                    + "."@ + extension_for(detected_mime(data@)->0)->0) && s.metadata.hash@
                    == short_hash_of(data@) && s.path@ == path_join(
                    self.spec_config().fs.output_dir@,
                    s.metadata.filename->0@,
                ) && views(s.metadata.source_images@) == views(source_images@),
                Err(_) => true,
            },
    {
        let ghost sources = views(source_images@);
        let r = self.generated_image(
            data,
            self.config.fs.output_dir.as_str(),
            None,
            None,
            source_images,
            now_secs,
        );
        proof {
            if r is Ok {
                law_generated_image_typed_by_content(
                    r->Ok_0,
                    data@,
                    self.config.fs.output_dir@,
                    dimensions_of(data@)->Ok_0,
                    None,
                    None,
                    sources,
                    now_secs,
                );
            }
        }
        r
    }

    /// The metadata of a stored image read back by its short hash: MIME
    /// type detected (PNG when unknown), dimensions defaulting to
    /// 1024 x 1024, named by short hash and extension ("png" when unknown),
    /// dated `now_secs`.
    pub fn metadata_from_image_data(
        &self,
        short_hash: &str,
        data: &[u8],
        category: Option<ItemCategory>,
        now_secs: u64,
    ) -> (m: ImageMetadata)
        ensures
            describes(
                m,
                image_file_name(
                    short_hash@,
                    match extension_for(mime_or(data@, "image/png"@)) {
                        Some(e) => e,
                        None => "png"@,
                    },
                ),
                short_hash@,
                data@.len() as u64,
                dimensions_or_default(data@),
                mime_or(data@, "image/png"@),
                iso_timestamp(now_secs),
                category,
                None,
                Seq::empty(),
            ),
    {
        let mime_type = match detect_image_mime_type(data) {
            Some(m) => m,
            None => owned("image/png"),
        };
        let dimensions = self.dimensions_or_default(data);
        let extension = match self.config.get_file_extension(mime_type.as_str()) {
            Some(e) => e,
            None => "png",
        };
        let filename = join3(short_hash, ".", extension);
        let sources: Vec<String> = Vec::new();
        assert(views(sources@) =~= Seq::<Seq<char>>::empty());
        ImageMetadata {
            id: new_image_id(),
            filename: Some(filename),
            hash: owned(short_hash),
            size: data.len() as u64,
            dimensions,
            mime_type,
            created_at: iso_timestamp_string(now_secs),
            category,
            prompt: None,
            source_images: sources,
        }
    }

    /// The metadata of one directory entry of a category listing, when it is
    /// a file with an image extension: named by its stem and lowercase
    /// extension, with the default dimensions 1024 x 1024.
    pub fn category_entry_metadata(&self, category: &ItemCategory, entry: &DirEntryInfo) -> (r:
        Option<ImageMetadata>)
        ensures
            !entry.is_file || listed_stem(entry.file_name@) is None ==> r is None,
            entry.is_file && listed_stem(entry.file_name@) is Some ==> (r matches Some(m)
                && shows_entry(m, *category, *entry)),
    {
        if !entry.is_file {
            return None;
        }
        let (stem, ext) = split_file_name(entry.file_name.as_str());
        let ext = match ext {
            Some(e) => e,
            None => {
                return None;
            },
        };
        let lower = match lowercase_listed_extension(ext.as_str()) {
            Some(l) => l,
            None => {
                return None;
            },
        };
        let filename = join3(stem.as_str(), ".", lower);
        let sources: Vec<String> = Vec::new();
        assert(views(sources@) =~= Seq::<Seq<char>>::empty());
        Some(
            ImageMetadata {
                id: new_image_id(),
                filename: Some(filename),
                hash: stem,
                size: match entry.size {
                    Some(s) => s,
                    None => 0,
                },
                dimensions: (1024, 1024),
                mime_type: mime_for_listed_extension(lower),
                created_at: iso_timestamp_string(entry.created_secs),
                category: Some(*category),
                prompt: None,
                source_images: sources,
            },
        )
    }

    /// The items of a category from its directory entries: the image files,
    /// newest first.
    pub fn category_listing(&self, category: &ItemCategory, entries: &Vec<DirEntryInfo>) -> (r: Vec<
        ImageMetadata,
    >)
        ensures
            exists|found: Seq<ImageMetadata>, p: Seq<int>|
                is_newest_first_of(r@, found, p) && found.len() == listed_entries(entries@).len()
                    && forall|k: int|
                    0 <= k < found.len() ==> shows_entry(
                        #[trigger] found[k],
                        *category,
                        listed_entries(entries@)[k],
                    ),
    {
        let mut found: Vec<ImageMetadata> = Vec::new();
        let mut i: usize = 0;
        while i < entries.len()
            invariant
                i <= entries@.len(),
                found@.len() == listed_entries(entries@.take(i as int)).len(),
                forall|k: int|
                    0 <= k < found@.len() ==> shows_entry(
                        #[trigger] found@[k],
                        *category,
                        listed_entries(entries@.take(i as int))[k],
                    ),
            decreases entries@.len() - i,
        {
            proof {
                assert(entries@.take(i + 1).drop_last() =~= entries@.take(i as int));
                assert(entries@.take(i + 1).last() == entries@[i as int]);
            }
            match self.category_entry_metadata(category, &entries[i]) {
                Some(m) => {
                    found.push(m);
                },
                None => {},
            }
            i = i + 1;
        }
        assert(entries@.take(i as int) =~= entries@);
        sort_newest_first(found)
    }

    /// The directories searched for an image of a type: the input directory,
    /// every category directory, or the output directory.
    pub fn search_directories(&self, image_type: ImageType) -> (v: Vec<String>)
        ensures
            views(v@) == search_dirs(self.spec_config(), image_type),
    {
        match image_type {
            ImageType::Input => {
                let v = vec![self.config.fs.input_dir.clone()];
                assert(views(v@) =~= seq![self.config.fs.input_dir@]);
                v
            },
            ImageType::Output => {
                let v = vec![self.config.fs.output_dir.clone()];
                assert(views(v@) =~= seq![self.config.fs.output_dir@]);
                v
            },
            ImageType::Item => {
                let all = self.config.required_directories();
                assert(views(all@).len() == all@.len());
                assert(crate::config::required_dirs(self.config).len() == 14);
                let mut v: Vec<String> = Vec::new();
                let mut i: usize = 3;
                assert(views(v@) =~= views(all@).subrange(3, 3));
                while i < all.len()
                    invariant
                        3 <= i <= all@.len(),
                        views(all@) == crate::config::required_dirs(self.config),
                        views(v@) == views(all@).subrange(3, i as int),
                    decreases all@.len() - i,
                {
                    let ghost before = views(v@);
                    v.push(all[i].clone());
                    proof {
                        assert(views(all@)[i as int] == all@[i as int]@);
                        assert(views(v@) =~= before.push(all@[i as int]@));
                        assert(views(v@) =~= views(all@).subrange(3, i + 1));
                    }
                    i = i + 1;
                }
                assert(views(all@).subrange(3, 14) =~= all_categories().map_values(
                    |k: ItemCategory| path_join(self.config.fs.items_dir@, dir_name_of(k)),
                ));
                v
            },
        }
    }

    /// The byte size of the cache limit.
    pub fn cache_limit_bytes(&self) -> (b: u64)
        requires
            self.spec_config().fs.cache_size_limit_mb * 1024 * 1024 <= u64::MAX,
        ensures
            b == self.spec_config().fs.cache_size_limit_mb * 1024 * 1024,
    {
        self.config.fs.cache_size_limit_mb * 1024 * 1024
    }

    /// The default items to generate so that every category holds its
    /// target: eight tops, one per colour of `tshirt_colors`, and two items
    /// of every other category. `existing[i]` is how many items the i-th
    /// category of `ItemCategory::all()` holds (none when missing). Requests
    /// are spaced by 200 ms within a category, counting the items already
    /// there.
    pub fn default_item_jobs(existing: &Vec<usize>) -> (jobs: Vec<DefaultItemJob>)
        ensures
            jobs_match(jobs@, default_jobs(existing@, 11)),
    {
        let categories = ItemCategory::all();
        let mut jobs: Vec<DefaultItemJob> = Vec::new();
        let mut k: usize = 0;
        while k < categories.len()
            invariant
                k <= 11,
                categories@ == all_categories(),
                jobs_match(jobs@, default_jobs(existing@, k as int)),
            decreases 11 - k,
        {
            let c = categories[k];
            let count: usize = if k < existing.len() {
                existing[k]
            } else {
                0
            };
            let is_top = c == ItemCategory::Top;
            let target: u64 = if is_top {
                8
            } else {
                2
            };
            let ghost before = jobs@;
            let ghost plan = jobs_for(c, count as nat);
            if (count as u64) < target {
                let mut ordinal: u64 = count as u64 + 1;
                while ordinal <= target
                    invariant
                        target == default_target(c),
                        is_top == (c == ItemCategory::Top),
                        (count as nat) < target,
                        count as nat + 1 <= ordinal <= target + 1,
                        jobs@.len() == before.len() + (ordinal - count - 1),
                        jobs@.subrange(0, before.len() as int) == before,
                        plan == jobs_for(c, count as nat),
                        forall|j: int|
                            before.len() <= j < jobs@.len() ==> job_is(
                                #[trigger] jobs@[j],
                                plan[j - before.len()],
                            ),
                    decreases target + 1 - ordinal,
                {
                    let name = c.display_name();
                    let number = decimal_string(ordinal);
                    let mut prompt = join3("Default ", name, " item #");
                    prompt.append(number.as_str());
                    let color = if is_top {
                        let col = tshirt_color(ordinal - 1);
                        prompt.append(" (");
                        prompt.append(col);
                        prompt.append(")");
                        Some(owned(col))
                    } else {
                        None
                    };
                    let delay_ms: u64 = (ordinal - 1) * 200;
                    let ghost at = jobs@.len();
                    let job = DefaultItemJob { category: c, color, delay_ms, prompt };
                    proof {
                        assert(plan[at - before.len()] == (c, delay_ms, ordinal as nat));
                        assert(job_is(job, plan[at - before.len()]));
                    }
                    jobs.push(job);
                    proof {
                        assert(jobs@.subrange(0, before.len() as int) =~= before);
                    }
                    ordinal = ordinal + 1;
                }
            }
            proof {
                assert(default_jobs(existing@, k + 1) == default_jobs(existing@, k as int) + plan);
                assert forall|j: int| 0 <= j < jobs@.len() implies job_is(
                    #[trigger] jobs@[j],
                    default_jobs(existing@, k + 1)[j],
                ) by {
                    if j < before.len() {
                        assert(jobs@[j] == before[j]);
                    }
                }
            }
            k = k + 1;
        }
        jobs
    }
}

/// The MIME type detected in `data`, or `default`.
pub open spec fn mime_or(data: Seq<u8>, default: Seq<char>) -> Seq<char> {
    match detected_mime(data) {
        Some(m) => m,
        None => default,
    }
}

/// `s` is the generated image `data` stored under `dir`.
pub open spec fn generated_image_is(
    s: StoredImage,
    data: Seq<u8>,
    dir: Seq<char>,
    dimensions: (u32, u32),
    category: Option<ItemCategory>,
    prompt: Option<Seq<char>>,
    sources: Seq<Seq<char>>,
    now_secs: u64,
) -> bool {
    let name = image_file_name(
        short_hash_of(data),
        match extension_for(mime_or(data, "image/jpeg"@)) {
            Some(e) => e,
            None => "jpg"@,
        },
    );
    &&& describes(
        s.metadata,
        name,
        short_hash_of(data),
        data.len() as u64,
        dimensions,
        mime_or(data, "image/jpeg"@),
        iso_timestamp(now_secs),
        category,
        prompt,
        sources,
    )
    &&& s.path@ == path_join(dir, name)
}

/// A stored generated image (an item or a remix output) is described by
/// the type its bytes show, not by a fixed one: a PNG is stored as
/// `<short hash>.png` with type "image/png", a WebP as `.webp`, a JPEG as
/// `.jpg`, and only bytes of no known type default to JPEG. It is named by
/// the short hash of its own bytes, has their size, and is stored under its
/// file name in the directory it was planned for.
pub proof fn law_generated_image_typed_by_content(
    s: StoredImage,
    data: Seq<u8>,
    dir: Seq<char>,
    dimensions: (u32, u32),
    category: Option<ItemCategory>,
    prompt: Option<Seq<char>>,
    sources: Seq<Seq<char>>,
    now_secs: u64,
)
    requires
        generated_image_is(s, data, dir, dimensions, category, prompt, sources, now_secs),
    ensures
        detected_mime(data) is Some ==> s.metadata.mime_type@ == detected_mime(data)->0
            && s.metadata.filename is Some && s.metadata.filename->0@ == short_hash_of(data) + "."@
            + extension_for(detected_mime(data)->0)->0,
        detected_mime(data) == Some("image/png"@) ==> s.metadata.mime_type@ == "image/png"@
            && s.metadata.filename->0@ == short_hash_of(data) + ".png"@,
        detected_mime(data) == Some("image/webp"@) ==> s.metadata.mime_type@ == "image/webp"@
            && s.metadata.filename->0@ == short_hash_of(data) + ".webp"@,
        detected_mime(data) == Some("image/jpeg"@) ==> s.metadata.mime_type@ == "image/jpeg"@
            && s.metadata.filename->0@ == short_hash_of(data) + ".jpg"@,
        detected_mime(data) is None ==> s.metadata.mime_type@ == "image/jpeg"@
            && s.metadata.filename->0@ == short_hash_of(data) + ".jpg"@,
        s.metadata.hash@ == short_hash_of(data),
        s.metadata.size == data.len() as u64,
        s.metadata.dimensions == dimensions,
        s.metadata.created_at@ == iso_timestamp(now_secs),
        s.path@ == path_join(dir, s.metadata.filename->0@),
{
    lemma_detected_mime_has_extension(data);
    reveal_strlit(".");
    reveal_strlit("jpg");
    reveal_strlit(".jpg");
    reveal_strlit("image/jpeg");
    reveal_strlit("png");
    reveal_strlit(".png");
    reveal_strlit("webp");
    reveal_strlit(".webp");
    reveal_strlit("image/png");
    reveal_strlit("image/webp");
    assert("image/png"@[6] != "image/jpeg"@[6]);
    assert("image/webp"@[6] != "image/jpeg"@[6]);
    assert("image/webp"@[6] != "image/png"@[6]);
    assert(extension_for("image/png"@) == Some("png"@));
    assert(extension_for("image/webp"@) == Some("webp"@));
    let h = short_hash_of(data);
    assert(h + "."@ + "jpg"@ =~= h + ".jpg"@);
    assert(h + "."@ + "png"@ =~= h + ".png"@);
    assert(h + "."@ + "webp"@ =~= h + ".webp"@);
}

/// The entries of a listing that are image files, in their order.
pub open spec fn listed_entries(entries: Seq<DirEntryInfo>) -> Seq<DirEntryInfo>
    decreases entries.len(),
{
    if entries.len() == 0 {
        Seq::empty()
    } else if entries.last().is_file && listed_stem(entries.last().file_name@) is Some {
        listed_entries(entries.drop_last()).push(entries.last())
    } else {
        listed_entries(entries.drop_last())
    }
}

/// `m` is what a listing of category `c` shows for the image file entry
/// `e`: named by its stem and lowercase extension, with its size (0 when
/// unknown), the default dimensions 1024 x 1024, the MIME type of the
/// extension, and its creation time.
pub open spec fn shows_entry(m: ImageMetadata, c: ItemCategory, e: DirEntryInfo) -> bool {
    let ext = listed_extension(extension_of(e.file_name@)->0)->0;
    describes(
        m,
        image_file_name(stem_of(e.file_name@), ext),
        stem_of(e.file_name@),
        match e.size {
            Some(s) => s,
            None => 0,
        },
        (1024, 1024),
        mime_of_extension(ext),
        iso_timestamp(e.created_secs),
        Some(c),
        None,
        Seq::empty(),
    )
}

/// The stems of the image files of a listing, in their order: the short
/// hashes of the images a directory holds.
pub fn listed_stems(entries: &Vec<DirEntryInfo>) -> (v: Vec<String>)
    ensures
        views(v@) == listed_entries(entries@).map_values(|e: DirEntryInfo| stem_of(e.file_name@)),
{
    let mut v: Vec<String> = Vec::new();
    let mut i: usize = 0;
    while i < entries.len()
        invariant
            i <= entries@.len(),
            views(v@) == listed_entries(entries@.take(i as int)).map_values(
                |e: DirEntryInfo| stem_of(e.file_name@),
            ),
        decreases entries@.len() - i,
    {
        proof {
            assert(entries@.take(i + 1).drop_last() =~= entries@.take(i as int));
            assert(entries@.take(i + 1).last() == entries@[i as int]);
        }
        let ghost before = v@;
        if entries[i].is_file {
            match listed_image_stem(entries[i].file_name.as_str()) {
                Some(stem) => {
                    v.push(stem);
                    proof {
                        assert(views(v@) =~= views(before).push(stem_of(entries@[i as int].file_name@)));
                        assert(listed_entries(entries@.take(i + 1)).map_values(
                            |e: DirEntryInfo| stem_of(e.file_name@),
                        ) =~= listed_entries(entries@.take(i as int)).map_values(
                            |e: DirEntryInfo| stem_of(e.file_name@),
                        ).push(stem_of(entries@[i as int].file_name@)));
                    }
                },
                None => {},
            }
        }
        i = i + 1;
    }
    assert(entries@.take(i as int) =~= entries@);
    v
}

/// `k` is the first entry of a listing named by `hash` (its stem), counting
/// only regular files when `files_only`.
pub open spec fn is_first_match(entries: Seq<DirEntryInfo>, hash: Seq<char>, files_only: bool, k: int) -> bool {
    &&& 0 <= k < entries.len()
    &&& matches_hash(entries[k], hash, files_only)
    &&& forall|j: int| 0 <= j < k ==> !matches_hash(#[trigger] entries[j], hash, files_only)
}

/// The entry is named by `hash`, and is a regular file when `files_only`.
pub open spec fn matches_hash(e: DirEntryInfo, hash: Seq<char>, files_only: bool) -> bool {
    (!files_only || e.is_file) && stem_of(e.file_name@) == hash
}

/// The first entry of a listing named by a short hash (see `is_first_match`),
/// or `None` when no entry is.
pub fn first_match(entries: &Vec<DirEntryInfo>, hash: &str, files_only: bool) -> (r: Option<usize>)
    ensures
        match r {
            Some(k) => is_first_match(entries@, hash@, files_only, k as int),
            None => forall|j: int| 0 <= j < entries@.len() ==> !matches_hash(#[trigger] entries@[j], hash@, files_only),
        },
{
    let mut i: usize = 0;
    while i < entries.len()
        invariant
            i <= entries@.len(),
            forall|j: int| 0 <= j < i ==> !matches_hash(#[trigger] entries@[j], hash@, files_only),
        decreases entries@.len() - i,
    {
        if (!files_only || entries[i].is_file) && file_has_hash(entries[i].file_name.as_str(), hash) {
            return Some(i);
        }
        i = i + 1;
    }
    None
}

// ---------------------------------------------------------------------------
// Cache clean-up
// ---------------------------------------------------------------------------

/// A stored file weighed by the cache clean-up: its size in bytes and its
/// creation time in seconds since the Unix epoch.
#[derive(Debug)]
pub struct CachedFile {
    pub size: u64,
    pub created_secs: u64,
}

/// File `i` is older than file `j`: created earlier, or at the same time and
/// listed before it.
pub open spec fn older(files: Seq<CachedFile>, i: int, j: int) -> bool {
    files[i].created_secs < files[j].created_secs || (files[i].created_secs
        == files[j].created_secs && i < j)
}

/// The total size of the first `k` files that `removed` does not name.
pub open spec fn kept_size_upto(files: Seq<CachedFile>, removed: Seq<usize>, k: int) -> int
    decreases k,
{
    if k <= 0 {
        0
    } else {
        kept_size_upto(files, removed, k - 1) + if removed.contains((k - 1) as usize) {
            0
        } else {
            files[k - 1].size as int
        }
    }
}

/// The total size of the files that `removed` does not name.
pub open spec fn kept_size(files: Seq<CachedFile>, removed: Seq<usize>) -> int {
    kept_size_upto(files, removed, files.len() as int)
}

/// `removed` is what the cache clean-up removes so that the files kept fit
/// in `limit` bytes: the oldest files, oldest first, as few as needed. It
/// names files of the list, each older than the next; every file kept is
/// newer than every file removed; the files kept fit the limit unless every
/// file is removed; and without its last file they would not fit.
pub open spec fn is_eviction(files: Seq<CachedFile>, limit: u64, removed: Seq<usize>) -> bool {
    &&& forall|a: int| 0 <= a < removed.len() ==> (#[trigger] removed[a]) < files.len()
    &&& forall|a: int, b: int|
        0 <= a < b < removed.len() ==> #[trigger] older(files, removed[a] as int, removed[b] as int)
    &&& forall|a: int, i: int|
        0 <= a < removed.len() && 0 <= i < files.len() && !removed.contains(i as usize) ==> #[trigger] older(
            files,
            removed[a] as int,
            i,
        )
    &&& kept_size(files, removed) <= limit || forall|i: int|
        0 <= i < files.len() ==> #[trigger] removed.contains(i as usize)
    &&& removed.len() > 0 ==> kept_size(files, removed.drop_last()) > limit
}

proof fn lemma_kept_size_bound(files: Seq<CachedFile>, removed: Seq<usize>, k: int)
    requires
        0 <= k <= files.len(),
    ensures
        0 <= kept_size_upto(files, removed, k) <= k * 0xffff_ffff_ffff_ffff,
    decreases k,
{
    if k > 0 {
        lemma_kept_size_bound(files, removed, k - 1);
    }
}

proof fn lemma_kept_size_remove(files: Seq<CachedFile>, removed: Seq<usize>, b: usize, k: int)
    requires
        files.len() <= usize::MAX,
        !removed.contains(b),
        0 <= k <= files.len(),
        b < files.len(),
    ensures
        kept_size_upto(files, removed.push(b), k) == kept_size_upto(files, removed, k) - if (b as int)
            < k {
            files[b as int].size as int
        } else {
            0
        },
    decreases k,
{
    if k > 0 {
        lemma_kept_size_remove(files, removed, b, k - 1);
        let i = (k - 1) as usize;
        assert(removed.push(b).contains(i) <==> removed.contains(i) || i == b) by {
            if removed.push(b).contains(i) {
                let a = choose|a: int| 0 <= a < removed.push(b).len() && removed.push(b)[a] == i;
                if a < removed.len() {
                    assert(removed[a] == i);
                }
            }
            if removed.contains(i) {
                let a = choose|a: int| 0 <= a < removed.len() && removed[a] == i;
                assert(removed.push(b)[a] == i);
            }
            if i == b {
                assert(removed.push(b)[removed.len() as int] == i);
            }
        }
    }
}

/// Distinct indices below `n` number at most `n`, and `n` of them name
/// every index below `n`.
proof fn lemma_distinct_indices(r: Seq<usize>, n: nat)
    requires
        forall|a: int| 0 <= a < r.len() ==> (#[trigger] r[a]) < n,
        forall|a: int, b: int| 0 <= a < b < r.len() ==> #[trigger] r[a] != #[trigger] r[b],
    ensures
        r.len() <= n,
        r.len() == n ==> forall|i: int| 0 <= i < n ==> #[trigger] r.contains(i as usize),
{
    let ri = r.map_values(|x: usize| x as int);
    assert(ri.no_duplicates()) by {
        assert forall|a: int, b: int| 0 <= a < ri.len() && 0 <= b < ri.len() && a != b implies ri[a]
            != ri[b] by {
            if a < b {
                assert(r[a] != r[b]);
            } else {
                assert(r[b] != r[a]);
            }
        }
    }
    ri.unique_seq_to_set();
    vstd::set_lib::lemma_int_range(0, n as int);
    let range = vstd::set_lib::set_int_range(0, n as int);
    assert(ri.to_set().subset_of(range)) by {
        assert forall|x: int| ri.to_set().contains(x) implies range.contains(x) by {
            let a = choose|a: int| 0 <= a < ri.len() && ri[a] == x;
            assert(r[a] < n);
        }
    }
    vstd::set_lib::lemma_len_subset(ri.to_set(), range);
    if r.len() == n {
        vstd::set_lib::lemma_subset_equality(ri.to_set(), range);
        assert forall|i: int| 0 <= i < n implies #[trigger] r.contains(i as usize) by {
            assert(range.contains(i));
            assert(ri.to_set().contains(i));
            let a = choose|a: int| 0 <= a < ri.len() && ri[a] == i;
            assert(r[a] == i as usize);
        }
    }
}

/// The files the cache clean-up removes (see `is_eviction`): the oldest
/// files, oldest first, until the files kept fit in `limit` bytes.
pub fn cache_eviction(files: &Vec<CachedFile>, limit: u64) -> (removed: Vec<usize>)
    ensures
        is_eviction(files@, limit, removed@),
{
    let n = files.len();
    let ghost none: Seq<usize> = Seq::empty();
    let mut remaining: u128 = 0;
    let mut flags: Vec<bool> = Vec::new();
    let mut i: usize = 0;
    while i < n
        invariant
            n == files@.len(),
            i <= n,
            flags@.len() == i,
            none == Seq::<usize>::empty(),
            forall|j: int| 0 <= j < i ==> !(#[trigger] flags@[j]),
            remaining == kept_size_upto(files@, none, i as int),
        decreases n - i,
    {
        proof {
            lemma_kept_size_bound(files@, none, i as int);
            assert(!none.contains(i));
        }
        remaining = remaining + files[i].size as u128;
        flags.push(false);
        i = i + 1;
    }
    let mut removed: Vec<usize> = Vec::new();
    assert(removed@ =~= none);
    let mut all_gone = false;
    while remaining > limit as u128 && !all_gone
        invariant
            n == files@.len(),
            flags@.len() == n,
            forall|j: int| 0 <= j < n ==> (#[trigger] flags@[j] <==> removed@.contains(j as usize)),
            forall|a: int| 0 <= a < removed@.len() ==> (#[trigger] removed@[a]) < n,
            forall|a: int, b: int|
                0 <= a < b < removed@.len() ==> #[trigger] older(
                    files@,
                    removed@[a] as int,
                    removed@[b] as int,
                ),
            forall|a: int, j: int|
                0 <= a < removed@.len() && 0 <= j < n && !removed@.contains(j as usize) ==> #[trigger] older(
                    files@,
                    removed@[a] as int,
                    j,
                ),
            remaining == kept_size(files@, removed@),
            removed@.len() > 0 ==> kept_size(files@, removed@.drop_last()) > limit,
            all_gone ==> forall|j: int| 0 <= j < n ==> #[trigger] removed@.contains(j as usize),
            removed@.len() <= n,
        decreases 2 * (n - removed@.len()) + if all_gone {
            0int
        } else {
            1int
        },
    {
        let mut best: usize = 0;
        let mut found = false;
        let mut j: usize = 0;
        while j < n
            invariant
                n == files@.len(),
                flags@.len() == n,
                j <= n,
                found ==> best < j && !flags@[best as int],
                found ==> forall|k: int|
                    0 <= k < j && !(#[trigger] flags@[k]) ==> k == best || older(files@, best as int, k),
                !found ==> forall|k: int| 0 <= k < j ==> #[trigger] flags@[k],
            decreases n - j,
        {
            if !flags[j] {
                if !found || files[j].created_secs < files[best].created_secs {
                    best = j;
                    found = true;
                }
            }
            j = j + 1;
        }
        if !found {
            all_gone = true;
            assert forall|k: int| 0 <= k < n implies #[trigger] removed@.contains(k as usize) by {
                assert(flags@[k]);
            }
        } else {
            let ghost before = removed@;
            proof {
                assert(!before.contains(best));
                lemma_kept_size_remove(files@, before, best, n as int);
                lemma_kept_size_bound(files@, before, n as int);
                lemma_kept_size_bound(files@, before.push(best), n as int);
            }
            remaining = remaining - files[best].size as u128;
            removed.push(best);
            flags.set(best, true);
            proof {
                assert(removed@.drop_last() =~= before);
                assert forall|k: int| 0 <= k < n implies (#[trigger] flags@[k]
                    <==> removed@.contains(k as usize)) by {
                    if removed@.contains(k as usize) {
                        let a = choose|a: int| 0 <= a < removed@.len() && removed@[a] == k as usize;
                        if a < before.len() {
                            assert(before.contains(k as usize));
                        }
                    }
                    if before.contains(k as usize) {
                        let a = choose|a: int| 0 <= a < before.len() && before[a] == k as usize;
                        assert(removed@[a] == k as usize);
                    }
                    if k == best {
                        assert(removed@[before.len() as int] == best);
                    }
                }
                assert forall|a: int, b: int|
                    0 <= a < b < removed@.len() implies #[trigger] older(
                    files@,
                    removed@[a] as int,
                    removed@[b] as int,
                ) by {
                    if b < before.len() {
                        assert(removed@[a] == before[a] && removed@[b] == before[b]);
                    } else {
                        assert(removed@[a] == before[a]);
                        assert(!before.contains(best));
                    }
                }
                assert forall|a: int, k: int|
                    0 <= a < removed@.len() && 0 <= k < n && !removed@.contains(k as usize) implies #[trigger] older(
                    files@,
                    removed@[a] as int,
                    k,
                ) by {
                    assert(!flags@[k]);
                    if !before.contains(k as usize) {
                    } else {
                        let c = choose|c: int| 0 <= c < before.len() && before[c] == k as usize;
                        assert(removed@[c] == k as usize);
                    }
                    if a < before.len() {
                        assert(removed@[a] == before[a]);
                    } else {
                        assert(k != best as int);
                    }
                }
                assert forall|a: int, b: int| 0 <= a < b < removed@.len() implies #[trigger] removed@[a]
                    != #[trigger] removed@[b] by {
                    assert(older(files@, removed@[a] as int, removed@[b] as int));
                }
                lemma_distinct_indices(removed@, n as nat);
            }
        }
    }
    proof {
        if !all_gone {
            assert(kept_size(files@, removed@) <= limit);
        }
    }
    removed
}

/// The directories searched for an image of a type.
pub open spec fn search_dirs(c: Config, t: ImageType) -> Seq<Seq<char>> {
    match t {
        ImageType::Input => seq![c.fs.input_dir@],
        ImageType::Item => all_categories().map_values(
            |k: ItemCategory| path_join(c.fs.items_dir@, dir_name_of(k)),
        ),
        ImageType::Output => seq![c.fs.output_dir@],
    }
}

proof fn lemma_detected_mime_has_extension(data: Seq<u8>)
    ensures
        detected_mime(data) is Some ==> extension_for(detected_mime(data)->0) is Some,
{
    reveal_strlit("image/jpeg");
    reveal_strlit("image/png");
    reveal_strlit("image/webp");
}

/// Every category is filled up to its target once the default jobs are
/// done: the jobs of a category make up what it lacks, and the tops it lacks
/// are asked for in the colours not yet covered, each exactly once.
pub proof fn law_default_jobs_fill_categories(existing: Seq<usize>, c: ItemCategory)
    ensures
        ({
            let have = if crate::models::category_index(c) < existing.len() {
                existing[crate::models::category_index(c)] as nat
            } else {
                0
            };
            let jobs = jobs_for(c, have);
            &&& have + jobs.len() >= default_target(c)
            &&& c == ItemCategory::Top && have < 8 ==> jobs.map_values(
                |p: (ItemCategory, u64, nat)| default_color(p.0, p.2)->0,
            ) == tshirt_colors().subrange(have as int, 8)
            &&& c != ItemCategory::Top ==> forall|j: int|
                0 <= j < jobs.len() ==> default_color(#[trigger] jobs[j].0, jobs[j].2) is None
        }),
{
    let have = if crate::models::category_index(c) < existing.len() {
        existing[crate::models::category_index(c)] as nat
    } else {
        0
    };
    let jobs = jobs_for(c, have);
    if c == ItemCategory::Top && have < 8 {
        assert(jobs.map_values(|p: (ItemCategory, u64, nat)| default_color(p.0, p.2)->0)
            =~= tshirt_colors().subrange(have as int, 8));
    }
}

/// With no item stored yet, the default jobs ask for eight tops, one in each
/// colour, and two items of each of the other ten categories: 28 in all.
pub proof fn law_default_jobs_from_empty_store()
    ensures
        default_jobs(Seq::empty(), 11).len() == 28,
        jobs_for(ItemCategory::Top, 0).len() == 8,
        jobs_for(ItemCategory::Top, 0).map_values(
            |p: (ItemCategory, u64, nat)| default_color(p.0, p.2)->0,
        ) == tshirt_colors(),
{
    reveal_with_fuel(default_jobs, 12);
    assert(jobs_for(ItemCategory::Top, 0).map_values(
        |p: (ItemCategory, u64, nat)| default_color(p.0, p.2)->0,
    ) =~= tshirt_colors());
}

} // verus!
