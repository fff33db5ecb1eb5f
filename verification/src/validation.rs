//! Upload validation: size limits, image format by magic bytes and
//! structure markers, suspicious content, and file names.

use vstd::prelude::*;

use crate::error::Error;
use crate::text::{
    bytes_occur_at, decimal, decimal_string, ends_with_ignore_ascii_case,
    ends_with_ignoring_ascii_case, has_elem, is_prefix, join4, occurs_at, occurs_in, str_contains,
    str_has_char,
};

verus! {

broadcast use vstd::string::group_string_axioms;

/// Maximum upload size in bytes (10 MiB).
pub const MAX_FILE_SIZE: u64 = 10 * 1024 * 1024;

/// Minimum upload size in bytes (1 KiB): smaller files are empty or corrupt.
pub const MIN_FILE_SIZE: u64 = 1024;

/// The outcome a check prescribes: `None` accepts, `Some(m)` rejects the
/// upload as an invalid request with message `m`.
pub open spec fn verdict_holds(r: Result<(), Error>, verdict: Option<Seq<char>>) -> bool {
    match verdict {
        None => r is Ok,
        Some(m) => r matches Err(Error::InvalidRequest { message }) && message@ == m,
    }
}

/// The verdict on an upload size.
pub open spec fn size_verdict(size: u64) -> Option<Seq<char>> {
    if size > MAX_FILE_SIZE {
        Some("File size ("@ + decimal(size as nat) + " bytes) exceeds maximum allowed size ("@
            + decimal(MAX_FILE_SIZE as nat) + " bytes)"@)
    } else if size < MIN_FILE_SIZE {
        Some("File size ("@ + decimal(size as nat) + " bytes) is below minimum required size ("@
            + decimal(MIN_FILE_SIZE as nat) + " bytes)"@)
    } else {
        None
    }
}

/// The JPEG start-of-image marker.
pub open spec fn jpeg_magic() -> Seq<u8> {
    seq![0xFFu8, 0xD8u8]
}

/// The PNG signature.
pub open spec fn png_magic() -> Seq<u8> {
    seq![0x89u8, 0x50u8, 0x4Eu8, 0x47u8, 0x0Du8, 0x0Au8, 0x1Au8, 0x0Au8]
}

/// "RIFF", which starts a WebP file.
pub open spec fn riff_magic() -> Seq<u8> {
    seq![0x52u8, 0x49u8, 0x46u8, 0x46u8]
}

/// "WEBP", the RIFF form type of a WebP file, at bytes 8 to 11.
pub open spec fn webp_marker() -> Seq<u8> {
    seq![0x57u8, 0x45u8, 0x42u8, 0x50u8]
}

/// "IEND", the name of the last PNG chunk.
pub open spec fn iend_marker() -> Seq<u8> {
    seq![0x49u8, 0x45u8, 0x4Eu8, 0x44u8]
}

/// The data holds a JPEG end-of-image marker (FF D9) starting at index 2 or
/// later.
pub open spec fn has_jpeg_end_marker(data: Seq<u8>) -> bool {
    exists|i: int| 2 <= i && #[trigger] jpeg_end_at(data, i)
}

/// The JPEG end-of-image marker (FF D9) starts at index `i`.
pub open spec fn jpeg_end_at(data: Seq<u8>, i: int) -> bool {
    0 <= i && i + 1 < data.len() && data[i] == 0xFFu8 && data[i + 1] == 0xD9u8
}

/// The verdict on JPEG structure.
pub open spec fn jpeg_verdict(data: Seq<u8>) -> Option<Seq<char>> {
    if data.len() < 4 {
        Some("Invalid JPEG file: too small"@)
    } else if !is_prefix(jpeg_magic(), data) {
        Some("Invalid JPEG file structure: missing SOI marker"@)
    } else if data[2] != 0xFFu8 {
        Some("Invalid JPEG file structure: invalid marker after SOI"@)
    } else if !has_jpeg_end_marker(data) {
        Some("Invalid JPEG file: missing end marker"@)
    } else {
        None
    }
}

/// The verdict on PNG structure.
pub open spec fn png_verdict(data: Seq<u8>) -> Option<Seq<char>> {
    if data.len() < 12 {
        Some("Invalid PNG file structure"@)
    } else if !occurs_in(data, iend_marker()) {
        Some("Invalid PNG file structure: missing IEND chunk"@)
    } else {
        None
    }
}

/// The verdict on WebP structure.
pub open spec fn webp_verdict(data: Seq<u8>) -> Option<Seq<char>> {
    if data.len() < 30 {
        Some("Invalid WebP file structure"@)
    } else {
        None
    }
}

/// The data starts like a WebP file: "RIFF", more than 12 bytes, and "WEBP"
/// at bytes 8 to 11.
pub open spec fn looks_like_webp(data: Seq<u8>) -> bool {
    is_prefix(riff_magic(), data) && data.len() > 12 && data.subrange(8, 12) == webp_marker()
}

/// The verdict on the image format: JPEG, PNG or WebP, each with its
/// structure check.
pub open spec fn format_verdict(data: Seq<u8>) -> Option<Seq<char>> {
    if data.len() < 12 {
        Some("File too small to be a valid image"@)
    } else if is_prefix(jpeg_magic(), data) {
        jpeg_verdict(data)
    } else if is_prefix(png_magic(), data) {
        png_verdict(data)
    } else if looks_like_webp(data) {
        webp_verdict(data)
    } else {
        Some("Unsupported image format. Only JPEG, PNG, and WebP are allowed"@)
    }
}

/// `pattern` is non-empty and occurs in `data`.
pub open spec fn contains_bytes(data: Seq<u8>, pattern: Seq<u8>) -> bool {
    pattern.len() > 0 && pattern.len() <= data.len() && occurs_in(data, pattern)
}

/// The byte patterns that mark scripts, server-side code and executables.
pub open spec fn suspicious_pattern(k: int) -> Seq<u8> {
    if k == 0 {
        seq![0x3Cu8, 0x73, 0x63, 0x72, 0x69, 0x70, 0x74]  // <script

    } else if k == 1 {
        seq![0x6Au8, 0x61, 0x76, 0x61, 0x73, 0x63, 0x72, 0x69, 0x70, 0x74, 0x3A]  // javascript:

    } else if k == 2 {
        seq![0x65u8, 0x76, 0x61, 0x6C, 0x28]  // eval(

    } else if k == 3 {
        seq![0x64u8, 0x6F, 0x63, 0x75, 0x6D, 0x65, 0x6E, 0x74, 0x2E]  // document.

    } else if k == 4 {
        seq![0x77u8, 0x69, 0x6E, 0x64, 0x6F, 0x77, 0x2E]  // window.

    } else if k == 5 {
        seq![0x61u8, 0x6C, 0x65, 0x72, 0x74, 0x28]  // alert(

    } else if k == 6 {
        seq![0x3Cu8, 0x3F, 0x70, 0x68, 0x70]  // <?php

    } else if k == 7 {
        seq![0x3Cu8, 0x25]  // <%

    } else if k == 8 {
        seq![0x3Cu8, 0x6A, 0x73, 0x70, 0x3A]  // <jsp:

    } else if k == 9 {
        seq![0x4Du8, 0x5A]  // PE executable header "MZ"

    } else {
        seq![0x7Fu8, 0x45, 0x4C, 0x46]  // ELF header

    }
}

/// The number of suspicious patterns.
pub open spec fn suspicious_pattern_count() -> int {
    11
}

/// Some suspicious pattern occurs in the data.
pub open spec fn is_suspicious(data: Seq<u8>) -> bool {
    exists|k: int| 0 <= k < suspicious_pattern_count() && contains_bytes(data, #[trigger] suspicious_pattern(k))
}

/// The verdict on a file name.
pub open spec fn filename_verdict(name: Seq<char>) -> Option<Seq<char>> {
    if occurs_in(name, ".."@) || has_elem(name, '/') || has_elem(name, '\\') {
        Some("Invalid filename: path traversal detected"@)
    } else if has_elem(name, '\0') {
        Some("Invalid filename: null bytes not allowed"@)
    } else if vstd::utf8::encode_utf8(name).len() > 255 {
        Some("Filename too long (max 255 characters)"@)
    } else if !(ends_with_ignoring_ascii_case(name, ".jpg"@) || ends_with_ignoring_ascii_case(
        name,
        ".jpeg"@,
    ) || ends_with_ignoring_ascii_case(name, ".png"@) || ends_with_ignoring_ascii_case(
        name,
        ".webp"@,
    )) {
        Some("Invalid file extension. Only .jpg, .jpeg, .png, and .webp are allowed"@)
    } else {
        None
    }
}

/// The verdict on a whole upload: size, format, then the file name if one
/// was given. Suspicious text patterns are not looked for in images, where
/// they occur by chance in binary data.
pub open spec fn upload_verdict(data: Seq<u8>, filename: Option<Seq<char>>) -> Option<Seq<char>> {
    if size_verdict(data.len() as u64) is Some {
        size_verdict(data.len() as u64)
    } else if format_verdict(data) is Some {
        format_verdict(data)
    } else {
        match filename {
            Some(name) => filename_verdict(name),
            None => None,
        }
    }
}

fn reject(message: String) -> (r: Result<(), Error>)
    ensures
        r matches Err(Error::InvalidRequest { message: m }) && m@ == message@,
{
    Err(Error::InvalidRequest { message })
}

/// Validate uploaded file data and, if given, its file name.
pub fn validate_upload(data: &[u8], filename: Option<&str>) -> (r: Result<(), Error>)
    ensures
        verdict_holds(
            r,
            upload_verdict(
                data@,
                match filename {
                    Some(n) => Some(n@),
                    None => None,
                },
            ),
        ),
{
    let size_check = validate_file_size(data.len() as u64);
    if size_check.is_err() {
        return size_check;
    }
    let format_check = validate_image_format(data);
    if format_check.is_err() {
        return format_check;
    }
    match filename {
        Some(name) => validate_filename(name),
        None => Ok(()),
    }
}

/// Validate that an upload size is within the limits.
pub fn validate_file_size(size: u64) -> (r: Result<(), Error>)
    ensures
        verdict_holds(r, size_verdict(size)),
{
    if size > MAX_FILE_SIZE {
        let shown = decimal_string(size);
        let limit = decimal_string(MAX_FILE_SIZE);
        let mut message = join4(
            "File size (",
            shown.as_str(),
            " bytes) exceeds maximum allowed size (",
            limit.as_str(),
        );
        message.append(" bytes)");
        return reject(message);
    }
    if size < MIN_FILE_SIZE {
        let shown = decimal_string(size);
        let limit = decimal_string(MIN_FILE_SIZE);
        let mut message = join4(
            "File size (",
            shown.as_str(),
            " bytes) is below minimum required size (",
            limit.as_str(),
        );
        message.append(" bytes)");
        return reject(message);
    }
    Ok(())
}

fn starts_with_jpeg_magic(data: &[u8]) -> (b: bool)
    ensures
        b == is_prefix(jpeg_magic(), data@),
{
    let r = data.len() >= 2 && data[0] == 0xFF && data[1] == 0xD8;
    if r {
        assert(data@.subrange(0, 2) =~= jpeg_magic());
    }
    r
}

fn starts_with_png_magic(data: &[u8]) -> (b: bool)
    ensures
        b == is_prefix(png_magic(), data@),
{
    let r = data.len() >= 8 && data[0] == 0x89 && data[1] == 0x50 && data[2] == 0x4E && data[3]
        == 0x47 && data[4] == 0x0D && data[5] == 0x0A && data[6] == 0x1A && data[7] == 0x0A;
    proof {
        if r {
            assert(data@.subrange(0, 8) =~= png_magic());
        } else if data@.len() >= 8 {
            assert(data@.subrange(0, 8)[0] == data@[0]);
            assert(data@.subrange(0, 8)[1] == data@[1]);
            assert(data@.subrange(0, 8)[2] == data@[2]);
            assert(data@.subrange(0, 8)[3] == data@[3]);
            assert(data@.subrange(0, 8)[4] == data@[4]);
            assert(data@.subrange(0, 8)[5] == data@[5]);
            assert(data@.subrange(0, 8)[6] == data@[6]);
            assert(data@.subrange(0, 8)[7] == data@[7]);
        }
    }
    r
}

fn looks_like_webp_exec(data: &[u8]) -> (b: bool)
    ensures
        b == looks_like_webp(data@),
{
    let riff = data.len() >= 4 && data[0] == 0x52 && data[1] == 0x49 && data[2] == 0x46 && data[3]
        == 0x46;
    proof {
        if data@.len() >= 4 {
            assert(data@.subrange(0, 4)[0] == data@[0]);
            assert(data@.subrange(0, 4)[1] == data@[1]);
            assert(data@.subrange(0, 4)[2] == data@[2]);
            assert(data@.subrange(0, 4)[3] == data@[3]);
        }
    }
    if riff {
        assert(data@.subrange(0, 4) =~= riff_magic());
    }
    if !riff || data.len() <= 12 {
        return false;
    }
    let marker = data[8] == 0x57 && data[9] == 0x45 && data[10] == 0x42 && data[11] == 0x50;
    assert(data@.subrange(8, 12)[0] == data@[8]);
    assert(data@.subrange(8, 12)[1] == data@[9]);
    assert(data@.subrange(8, 12)[2] == data@[10]);
    assert(data@.subrange(8, 12)[3] == data@[11]);
    if marker {
        assert(data@.subrange(8, 12) =~= webp_marker());
    }
    marker
}

/// Validate the image format by its magic bytes, then its structure.
pub fn validate_image_format(data: &[u8]) -> (r: Result<(), Error>)
    ensures
        verdict_holds(r, format_verdict(data@)),
        data@.len() >= 12 && is_prefix(png_magic(), data@) && (exists|i: int|
            occurs_at(data@, seq![0x49u8, 0x45u8, 0x4Eu8, 0x44u8], i)) ==> r is Ok,
{
    proof {
        if exists|i: int| occurs_at(data@, seq![0x49u8, 0x45u8, 0x4Eu8, 0x44u8], i) {
            let i = choose|i: int| occurs_at(data@, seq![0x49u8, 0x45u8, 0x4Eu8, 0x44u8], i);
            law_png_with_iend_anywhere_passes(data@, i);
        }
    }
    if data.len() < 12 {
        return reject(crate::text::owned("File too small to be a valid image"));
    }
    if starts_with_jpeg_magic(data) {
        return validate_jpeg(data);
    }
    if starts_with_png_magic(data) {
        return validate_png(data);
    }
    if looks_like_webp_exec(data) {
        return validate_webp(data);
    }
    reject(crate::text::owned("Unsupported image format. Only JPEG, PNG, and WebP are allowed"))
}

/// Validate JPEG structure: start marker, a marker right after it, and an
/// end marker somewhere after the start.
pub fn validate_jpeg(data: &[u8]) -> (r: Result<(), Error>)
    ensures
        verdict_holds(r, jpeg_verdict(data@)),
{
    if data.len() < 4 {
        return reject(crate::text::owned("Invalid JPEG file: too small"));
    }
    if !starts_with_jpeg_magic(data) {
        return reject(crate::text::owned("Invalid JPEG file structure: missing SOI marker"));
    }
    if data[2] != 0xFF {
        return reject(crate::text::owned("Invalid JPEG file structure: invalid marker after SOI"));
    }
    let end = data.len() - 1;
    let mut i: usize = 2;
    while i < end
        invariant
            end == data@.len() - 1,
            data@.len() >= 4,
            is_prefix(jpeg_magic(), data@),
            data@[2] == 0xFFu8,
            2 <= i,
            forall|j: int| 2 <= j < i ==> !#[trigger] jpeg_end_at(data@, j),
        decreases end - i,
    {
        if data[i] == 0xFF && data[i + 1] == 0xD9 {
            assert(jpeg_end_at(data@, i as int));
            return Ok(());
        }
        i = i + 1;
    }
    assert forall|j: int| 2 <= j implies !#[trigger] jpeg_end_at(data@, j) by {
        if jpeg_end_at(data@, j) {
            assert(j < i);
        }
    }
    reject(crate::text::owned("Invalid JPEG file: missing end marker"))
}

/// Validate PNG structure: an IEND chunk name somewhere in the data.
pub fn validate_png(data: &[u8]) -> (r: Result<(), Error>)
    ensures
        verdict_holds(r, png_verdict(data@)),
        data@.len() >= 12 && (exists|i: int| occurs_at(data@, seq![0x49u8, 0x45u8, 0x4Eu8, 0x44u8], i))
            ==> r is Ok,
{
    proof {
        law_png_with_iend_anywhere_passes(data@, 0);
        assert(iend_marker() =~= seq![0x49u8, 0x45u8, 0x4Eu8, 0x44u8]);
    }
    if data.len() < 12 {
        return reject(crate::text::owned("Invalid PNG file structure"));
    }
    let iend = vec![0x49u8, 0x45u8, 0x4Eu8, 0x44u8];
    assert(iend@ =~= iend_marker());
    if !contains_pattern(data, iend.as_slice()) {
        return reject(crate::text::owned("Invalid PNG file structure: missing IEND chunk"));
    }
    Ok(())
}

/// Validate WebP structure: long enough to hold the headers.
pub fn validate_webp(data: &[u8]) -> (r: Result<(), Error>)
    ensures
        verdict_holds(r, webp_verdict(data@)),
{
    if data.len() < 30 {
        return reject(crate::text::owned("Invalid WebP file structure"));
    }
    Ok(())
}

fn suspicious_pattern_bytes(k: usize) -> (p: Vec<u8>)
    requires
        k < 11,
    ensures
        p@ == suspicious_pattern(k as int),
{
    let p = if k == 0 {
        vec![0x3Cu8, 0x73, 0x63, 0x72, 0x69, 0x70, 0x74]
    } else if k == 1 {
        vec![0x6Au8, 0x61, 0x76, 0x61, 0x73, 0x63, 0x72, 0x69, 0x70, 0x74, 0x3A]
    } else if k == 2 {
        vec![0x65u8, 0x76, 0x61, 0x6C, 0x28]
    } else if k == 3 {
        vec![0x64u8, 0x6F, 0x63, 0x75, 0x6D, 0x65, 0x6E, 0x74, 0x2E]
    } else if k == 4 {
        vec![0x77u8, 0x69, 0x6E, 0x64, 0x6F, 0x77, 0x2E]
    } else if k == 5 {
        vec![0x61u8, 0x6C, 0x65, 0x72, 0x74, 0x28]
    } else if k == 6 {
        vec![0x3Cu8, 0x3F, 0x70, 0x68, 0x70]
    } else if k == 7 {
        vec![0x3Cu8, 0x25]
    } else if k == 8 {
        vec![0x3Cu8, 0x6A, 0x73, 0x70, 0x3A]
    } else if k == 9 {
        vec![0x4Du8, 0x5A]
    } else {
        vec![0x7Fu8, 0x45, 0x4C, 0x46]
    };
    assert(p@ =~= suspicious_pattern(k as int));
    p
}

/// Reject data that holds a script, server-side code or an executable
/// header. Meant for text uploads: binary image data holds such bytes by
/// chance.
pub fn check_for_malicious_content(data: &[u8]) -> (r: Result<(), Error>)
    ensures
        verdict_holds(
            r,
            if is_suspicious(data@) {
                Some("File contains suspicious content and was rejected"@)
            } else {
                None
            },
        ),
{
    let mut k: usize = 0;
    while k < 11
        invariant
            k <= 11,
            forall|j: int| 0 <= j < k ==> !contains_bytes(data@, #[trigger] suspicious_pattern(j)),
        decreases 11 - k,
    {
        let pattern = suspicious_pattern_bytes(k);
        if contains_pattern(data, pattern.as_slice()) {
            return reject(crate::text::owned("File contains suspicious content and was rejected"));
        }
        k = k + 1;
    }
    Ok(())
}

/// Whether the non-empty `pattern` occurs in `data`.
pub fn contains_pattern(data: &[u8], pattern: &[u8]) -> (b: bool)
    ensures
        b == contains_bytes(data@, pattern@),
{
    if pattern.len() == 0 || data.len() < pattern.len() {
        return false;
    }
    let last = data.len() - pattern.len();
    let mut i: usize = 0;
    loop
        invariant_except_break
            i <= last,
            pattern@.len() > 0,
            last == data@.len() - pattern@.len(),
            forall|j: int| 0 <= j < i ==> !occurs_at(data@, pattern@, j),
        ensures
            last == data@.len() - pattern@.len(),
            forall|j: int| 0 <= j <= last ==> !occurs_at(data@, pattern@, j),
        decreases last - i,
    {
        if bytes_occur_at(data, pattern, i) {
            assert(occurs_at(data@, pattern@, i as int));
            return true;
        }
        if i == last {
            break;
        }
        i = i + 1;
    }
    assert forall|j: int| !occurs_at(data@, pattern@, j) by {
        if 0 <= j && j + pattern@.len() <= data@.len() {
            assert(j <= last);
        }
    }
    false
}

/// Validate a file name: no path traversal, no NUL, at most 255 bytes, and
/// an image extension in any ASCII case.
pub fn validate_filename(filename: &str) -> (r: Result<(), Error>)
    ensures
        verdict_holds(r, filename_verdict(filename@)),
{
    if str_contains(filename, "..") || str_has_char(filename, '/') || str_has_char(filename, '\\') {
        return reject(crate::text::owned("Invalid filename: path traversal detected"));
    }
    if str_has_char(filename, '\0') {
        return reject(crate::text::owned("Invalid filename: null bytes not allowed"));
    }
    let bytes = filename.as_bytes();
    if bytes.len() > 255 {
        return reject(crate::text::owned("Filename too long (max 255 characters)"));
    }
    proof {
        reveal_strlit(".jpg");
        reveal_strlit(".jpeg");
        reveal_strlit(".png");
        reveal_strlit(".webp");
    }
    let has_valid_extension = ends_with_ignore_ascii_case(filename, ".jpg")
        || ends_with_ignore_ascii_case(filename, ".jpeg") || ends_with_ignore_ascii_case(
        filename,
        ".png",
    ) || ends_with_ignore_ascii_case(filename, ".webp");
    if !has_valid_extension {
        return reject(
            crate::text::owned(
                "Invalid file extension. Only .jpg, .jpeg, .png, and .webp are allowed",
            ),
        );
    }
    Ok(())
}

/// An accepted upload is between the minimum and the maximum size, passes
/// the format check, and has an acceptable file name when it has one.
pub proof fn law_accepted_upload_within_limits(data: Seq<u8>, filename: Option<Seq<char>>)
    requires
        data.len() <= u64::MAX,
        upload_verdict(data, filename) is None,
    ensures
        MIN_FILE_SIZE <= data.len() <= MAX_FILE_SIZE,
        format_verdict(data) is None,
        filename matches Some(name) ==> filename_verdict(name) is None,
{
}

/// The PNG structure check accepts a PNG in which the chunk name "IEND"
/// occurs anywhere: a file with the PNG signature, at least 12 bytes long,
/// holding the bytes 49 45 4E 44 at some index passes the format check.
pub proof fn law_png_with_iend_anywhere_passes(data: Seq<u8>, i: int)
    ensures
        data.len() >= 12 && occurs_at(data, seq![0x49u8, 0x45u8, 0x4Eu8, 0x44u8], i) ==> png_verdict(
            data,
        ) is None,
        data.len() >= 12 && is_prefix(png_magic(), data) && occurs_at(
            data,
            seq![0x49u8, 0x45u8, 0x4Eu8, 0x44u8],
            i,
        ) ==> format_verdict(data) is None,
{
    assert(iend_marker() =~= seq![0x49u8, 0x45u8, 0x4Eu8, 0x44u8]);
    if data.len() >= 12 && is_prefix(png_magic(), data) {
        assert(data[0] == png_magic()[0]);
        assert(!is_prefix(jpeg_magic(), data)) by {
            if is_prefix(jpeg_magic(), data) {
                assert(data[0] == data.subrange(0, 2)[0]);
            }
        }
    }
}

/// A well-formed PNG is accepted: the signature, any chunks, and the IEND
/// chunk as it always ends a PNG (length 0, the name "IEND", then its 4-byte
/// CRC) pass the format check.
pub proof fn law_png_ending_with_iend_chunk_passes(chunks: Seq<u8>, crc: Seq<u8>)
    requires
        crc.len() == 4,
    ensures
        format_verdict(
            png_magic() + chunks + seq![0u8, 0u8, 0u8, 0u8, 0x49u8, 0x45u8, 0x4Eu8, 0x44u8] + crc,
        ) is None,
{
    let data = png_magic() + chunks + seq![0u8, 0u8, 0u8, 0u8, 0x49u8, 0x45u8, 0x4Eu8, 0x44u8] + crc;
    let at: int = 8 + chunks.len() as int + 4;
    assert(data.subrange(at, at + 4) =~= seq![0x49u8, 0x45u8, 0x4Eu8, 0x44u8]);
    assert(data.subrange(0, 8) =~= png_magic());
    law_png_with_iend_anywhere_passes(data, at);
}

/// The PNG structure check refuses exactly two things: fewer than 12 bytes,
/// and data in which the chunk name "IEND" (49 45 4E 44) occurs nowhere;
/// where in the data the name occurs does not matter.
pub proof fn law_png_check_refuses_only_short_or_iend_less(data: Seq<u8>)
    ensures
        data.len() < 12 ==> png_verdict(data) == Some("Invalid PNG file structure"@),
        data.len() >= 12 && !(exists|i: int| occurs_at(data, seq![0x49u8, 0x45u8, 0x4Eu8, 0x44u8], i))
            ==> png_verdict(data) == Some("Invalid PNG file structure: missing IEND chunk"@),
        png_verdict(data) is None <==> data.len() >= 12 && (exists|i: int|
            occurs_at(data, seq![0x49u8, 0x45u8, 0x4Eu8, 0x44u8], i)),
{
    assert(iend_marker() =~= seq![0x49u8, 0x45u8, 0x4Eu8, 0x44u8]);
}

} // verus!
