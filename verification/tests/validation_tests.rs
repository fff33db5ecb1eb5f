use mirage_fit::validation::{
    check_for_malicious_content, contains_pattern, validate_file_size, validate_filename,
    validate_image_format, validate_jpeg, validate_png, validate_upload, validate_webp,
    MAX_FILE_SIZE, MIN_FILE_SIZE,
};

fn message_of(r: mirage_fit::Result<()>) -> String {
    match r {
        Err(e) => e.user_message(),
        Ok(()) => String::new(),
    }
}

fn jpeg_of_size(n: usize) -> Vec<u8> {
    let mut data = vec![0u8; n];
    data[0] = 0xFF;
    data[1] = 0xD8;
    data[2] = 0xFF;
    data[3] = 0xE0;
    data[n - 2] = 0xFF;
    data[n - 1] = 0xD9;
    data
}

#[test]
fn test_validate_file_size() {
    assert!(validate_file_size(1024 * 1024).is_ok());
    assert!(validate_file_size(MAX_FILE_SIZE + 1).is_err());
    assert!(validate_file_size(MIN_FILE_SIZE - 1).is_err());
}

#[test]
fn test_validate_filename() {
    assert!(validate_filename("photo.jpg").is_ok());
    assert!(validate_filename("image.png").is_ok());
    assert!(validate_filename("file.webp").is_ok());

    assert!(validate_filename("../etc/passwd").is_err());
    assert!(validate_filename("..\\windows\\system32").is_err());
    assert!(validate_filename("folder/file.jpg").is_err());

    assert!(validate_filename("script.js").is_err());
    assert!(validate_filename("executable.exe").is_err());

    let long_name = "a".repeat(256) + ".jpg";
    assert!(validate_filename(&long_name).is_err());
}

#[test]
fn test_malicious_content_detection() {
    assert!(check_for_malicious_content(b"Hello World").is_ok());

    assert!(check_for_malicious_content(b"<script>alert('xss')</script>").is_err());
    assert!(check_for_malicious_content(b"javascript:void(0)").is_err());

    assert!(check_for_malicious_content(b"<?php echo 'test'; ?>").is_err());

    assert!(check_for_malicious_content(b"\x4D\x5A\x90\x00").is_err());
}

#[test]
fn validation_size_limits_are_inclusive() {
    assert!(validate_file_size(MIN_FILE_SIZE).is_ok());
    assert!(validate_file_size(MAX_FILE_SIZE).is_ok());
    assert_eq!(
        message_of(validate_file_size(0)),
        "File size (0 bytes) is below minimum required size (1024 bytes)"
    );
    assert_eq!(
        message_of(validate_file_size(MAX_FILE_SIZE + 1)),
        "File size (10485761 bytes) exceeds maximum allowed size (10485760 bytes)"
    );
}

#[test]
fn validation_filename_rules() {
    assert_eq!(
        message_of(validate_filename("a\0.jpg")),
        "Invalid filename: null bytes not allowed"
    );
    assert_eq!(
        message_of(validate_filename("a..b.jpg")),
        "Invalid filename: path traversal detected"
    );
    assert!(validate_filename("PHOTO.JPG").is_ok());
    assert!(validate_filename("photo.JpEg").is_ok());
    assert_eq!(
        message_of(validate_filename("photo.gif")),
        "Invalid file extension. Only .jpg, .jpeg, .png, and .webp are allowed"
    );
    let exactly_255 = "a".repeat(251) + ".jpg";
    assert!(validate_filename(&exactly_255).is_ok());
    let multibyte = "\u{e9}".repeat(126) + ".jpg";
    assert_eq!(
        message_of(validate_filename(&multibyte)),
        "Filename too long (max 255 characters)"
    );
}

#[test]
fn validation_image_formats() {
    assert_eq!(
        message_of(validate_image_format(&[0xFF, 0xD8, 0xFF])),
        "File too small to be a valid image"
    );
    assert!(validate_image_format(&jpeg_of_size(2048)).is_ok());

    let mut no_end = jpeg_of_size(2048);
    no_end[2046] = 0;
    assert_eq!(message_of(validate_jpeg(&no_end)), "Invalid JPEG file: missing end marker");

    let mut bad_marker = jpeg_of_size(2048);
    bad_marker[2] = 0x00;
    assert_eq!(
        message_of(validate_jpeg(&bad_marker)),
        "Invalid JPEG file structure: invalid marker after SOI"
    );
    assert_eq!(message_of(validate_jpeg(&[0xFF, 0xD8])), "Invalid JPEG file: too small");
    assert_eq!(
        message_of(validate_jpeg(&[0x00, 0xD8, 0xFF, 0xD9])),
        "Invalid JPEG file structure: missing SOI marker"
    );

    let mut png = vec![0x89, 0x50, 0x4E, 0x47, 0x0D, 0x0A, 0x1A, 0x0A];
    png.extend_from_slice(&[0u8; 8]);
    assert_eq!(
        message_of(validate_png(&png)),
        "Invalid PNG file structure: missing IEND chunk"
    );
    png.extend_from_slice(b"IEND");
    assert!(validate_image_format(&png).is_ok());

    let mut webp = b"RIFF\x00\x00\x00\x00WEBP".to_vec();
    webp.push(0);
    assert_eq!(message_of(validate_image_format(&webp)), "Invalid WebP file structure");
    webp.extend_from_slice(&[0u8; 17]);
    assert!(validate_webp(&webp).is_ok());
    assert!(validate_image_format(&webp).is_ok());

    assert_eq!(
        message_of(validate_image_format(b"GIF89a......")),
        "Unsupported image format. Only JPEG, PNG, and WebP are allowed"
    );
}

#[test]
fn validation_upload_checks_in_order() {
    let data = jpeg_of_size(2048);
    assert!(validate_upload(&data, None).is_ok());
    assert!(validate_upload(&data, Some("me.jpeg")).is_ok());
    assert_eq!(
        message_of(validate_upload(&data, Some("me.txt"))),
        "Invalid file extension. Only .jpg, .jpeg, .png, and .webp are allowed"
    );
    assert_eq!(
        message_of(validate_upload(&data[..100], Some("me.txt"))),
        "File size (100 bytes) is below minimum required size (1024 bytes)"
    );
}

#[test]
fn validation_contains_pattern() {
    assert!(contains_pattern(b"abcdef", b"cde"));
    assert!(!contains_pattern(b"abcdef", b""));
    assert!(!contains_pattern(b"ab", b"abc"));
    assert!(contains_pattern(b"abc", b"abc"));
    assert!(!contains_pattern(b"abcdef", b"ce"));
}

#[test]
fn accepted_uploads_are_within_the_size_limits() {
    for n in [1024usize, 4096, 10 * 1024 * 1024] {
        let data = jpeg_of_size(n);
        assert!(validate_upload(&data, Some("photo.jpg")).is_ok());
        assert!(data.len() as u64 >= MIN_FILE_SIZE && data.len() as u64 <= MAX_FILE_SIZE);
    }
    for n in [1023usize, 10 * 1024 * 1024 + 1] {
        assert!(validate_upload(&jpeg_of_size(n), Some("photo.jpg")).is_err());
    }
}
