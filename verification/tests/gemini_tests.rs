use mirage_fit::config::{Config, Environment};
use mirage_fit::gemini::{
    api_status_error, bearer_authorization, build_item_prompt, build_remix_prompt,
    create_placeholder_image, detect_image_mime_type, encoded_length_fits, extract_image_from_response,
    generate_content_url, image_generation_config, item_generation_request, models_url,
    remix_generation_config, remix_images_request, remix_request,
};
use mirage_fit::models::{
    GeminiCandidate, GeminiContent, GeminiInlineData, GeminiPart, GeminiResponse, ItemCategory,
};
use mirage_fit::Error;

/// The test configuration in an environment with a known home directory and
/// no overrides.
fn default_config() -> Config {
    Config::default_in(Environment {
        gemini_api_key: None,
        server_host: None,
        server_port: None,
        public_url: None,
        home_dir: Some("/home/tester".to_string()),
    })
}

fn response(parts: Vec<GeminiPart>, finish_reason: Option<&str>) -> GeminiResponse {
    GeminiResponse {
        candidates: vec![GeminiCandidate {
            content: GeminiContent { parts },
            finish_reason: finish_reason.map(|r| r.to_string()),
        }],
    }
}

fn inline(data: &str) -> GeminiPart {
    GeminiPart::InlineData {
        inline_data: GeminiInlineData { mime_type: "image/png".to_string(), data: data.to_string() },
    }
}

#[test]
fn test_mime_type_detection() {
    let jpeg_data = vec![0xFF, 0xD8, 0xFF, 0xE0, 0x00, 0x10, 0x4A, 0x46, 0x49, 0x46, 0x00, 0x01];
    assert_eq!(detect_image_mime_type(&jpeg_data), Some("image/jpeg".to_string()));

    let png_data = vec![0x89, 0x50, 0x4E, 0x47, 0x0D, 0x0A, 0x1A, 0x0A, 0x00, 0x00, 0x00, 0x01];
    assert_eq!(detect_image_mime_type(&png_data), Some("image/png".to_string()));

    let invalid_data = vec![0x00, 0x01, 0x02];
    assert_eq!(detect_image_mime_type(&invalid_data), None);
}

#[test]
fn test_item_prompt_generation() {
    let prompt = build_item_prompt(
        &ItemCategory::Hat,
        Some("vintage style"),
        Some("modern"),
        Some("black"),
    );

    assert!(prompt.contains("hat"));
    assert!(prompt.contains("vintage style"));
    assert!(prompt.contains("modern"));
    assert!(prompt.contains("black"));
}

#[test]
fn test_remix_prompt_generation() {
    let items = vec![
        (ItemCategory::Hat, vec![1, 2, 3], "image/jpeg".to_string()),
        (ItemCategory::Shoes, vec![4, 5, 6], "image/png".to_string()),
    ];

    let prompt = build_remix_prompt(&items, Some("casual"), Some(8));

    assert!(prompt.contains("Hat"));
    assert!(prompt.contains("Shoes"));
    assert!(prompt.contains("casual"));
}

#[test]
fn test_generation_configs() {
    let default_config = image_generation_config();
    assert_eq!(default_config.temperature_hundredths, 40);

    let remix_config = remix_generation_config(Some(10));
    assert_eq!(remix_config.temperature_hundredths, 30);
    assert_eq!(remix_config.top_k, 40);
}

#[test]
fn gemini_detects_webp_and_short_data() {
    let webp = b"RIFF\x01\x02\x03\x04WEBPVP8 ".to_vec();
    assert_eq!(detect_image_mime_type(&webp), Some("image/webp".to_string()));
    let riff_other = b"RIFF\x01\x02\x03\x04WAVEfmt ".to_vec();
    assert_eq!(detect_image_mime_type(&riff_other), None);
    assert_eq!(detect_image_mime_type(&[0xFF, 0xD8, 0xFF]), None);
    let jpeg_without_marker = vec![0xFF, 0xD8, 0x00, 0, 0, 0, 0, 0, 0, 0, 0, 0];
    assert_eq!(detect_image_mime_type(&jpeg_without_marker), None);
}

#[test]
fn gemini_item_prompt_exact_text() {
    let prompt = build_item_prompt(&ItemCategory::Bag, None, None, Some("red"));
    assert_eq!(
        prompt,
        "Generate a high-quality, professional product image of a Bag (Bag) on a clean white background. \
The bag should be stylish and practical, showing good craftsmanship. Preferred color: red. \
The image should be photorealistic, well-lit, and suitable for e-commerce or fashion applications."
    );
}

#[test]
fn gemini_remix_prompt_quality_levels() {
    let items = vec![(ItemCategory::Top, vec![], "image/png".to_string())];
    assert!(build_remix_prompt(&items, None, Some(2)).contains("Focus on speed over quality. "));
    assert!(build_remix_prompt(&items, None, Some(5)).contains("Balance quality and processing time. "));
    assert!(build_remix_prompt(&items, None, None).contains("Prioritize highest quality and realism. "));
    assert!(build_remix_prompt(&items, None, Some(0)).contains("Use standard quality settings. "));
    assert!(build_remix_prompt(&items, None, Some(11)).contains("Use standard quality settings. "));
    let three = vec![
        (ItemCategory::Hat, vec![], String::new()),
        (ItemCategory::Glasses, vec![], String::new()),
        (ItemCategory::Other, vec![], String::new()),
    ];
    assert!(build_remix_prompt(&three, Some("noir"), Some(8))
        .contains("apply the following items to them: Hat, Glasses, Other. The result"));
    assert!(build_remix_prompt(&three, Some("noir"), Some(8)).contains("Style direction: noir. "));
}

#[test]
fn gemini_remix_config_tiers() {
    let c = remix_generation_config(Some(1));
    assert_eq!((c.temperature_hundredths, c.top_k), (80, 20));
    let c = remix_generation_config(Some(6));
    assert_eq!((c.temperature_hundredths, c.top_k), (60, 25));
    let c = remix_generation_config(None);
    assert_eq!((c.temperature_hundredths, c.top_k), (30, 40));
    let c = remix_generation_config(Some(200));
    assert_eq!((c.temperature_hundredths, c.top_k, c.top_p_hundredths), (40, 32, 100));
    assert_eq!(c.max_output_tokens, 8192);
    assert_eq!(c.response_modalities, Some(vec!["IMAGE".to_string()]));
    let d = image_generation_config();
    assert_eq!((d.top_k, d.top_p_hundredths, d.max_output_tokens), (32, 100, 1024));
}

#[test]
fn gemini_requests_carry_base64_images() {
    let png = vec![0x89, 0x50, 0x4E, 0x47, 0x0D, 0x0A, 0x1A, 0x0A, 0x00, 0x00, 0x00, 0x01];
    let other = vec![1u8, 2, 3];
    let request = remix_request("dress up", &vec![png.clone(), other]);
    assert_eq!(request.contents.len(), 1);
    let parts = &request.contents[0].parts;
    assert_eq!(parts.len(), 3);
    match &parts[0] {
        GeminiPart::Text { text } => assert_eq!(text, "dress up"),
        _ => panic!("text first"),
    }
    match &parts[1] {
        GeminiPart::InlineData { inline_data } => {
            assert_eq!(inline_data.mime_type, "image/png");
            assert_eq!(inline_data.data, "iVBORw0KGgoAAAAB");
        }
        _ => panic!("image second"),
    }
    match &parts[2] {
        GeminiPart::InlineData { inline_data } => {
            assert_eq!(inline_data.mime_type, "image/jpeg");
            assert_eq!(inline_data.data, "AQID");
        }
        _ => panic!("image third"),
    }

    let item = item_generation_request(&ItemCategory::Scarf, Some("wool"), None, None);
    match &item.contents[0].parts[0] {
        GeminiPart::Text { text } => assert!(text.contains(" Additional requirements: wool The image")),
        _ => panic!("text part"),
    }

    let legacy = remix_images_request(
        &[9u8],
        "image/webp",
        &vec![(ItemCategory::Hat, vec![1u8, 2], "image/png".to_string())],
        None,
        Some(3),
    );
    let parts = &legacy.contents[0].parts;
    assert_eq!(parts.len(), 4);
    match &parts[1] {
        GeminiPart::InlineData { inline_data } => {
            assert_eq!(inline_data.mime_type, "image/webp");
            assert_eq!(inline_data.data, "CQ==");
        }
        _ => panic!("base image"),
    }
    match &parts[3] {
        GeminiPart::Text { text } => assert_eq!(text, "This is a Hat (Hat)"),
        _ => panic!("label"),
    }
    assert_eq!(legacy.generation_config.temperature_hundredths, 80);
}

#[test]
fn gemini_extracts_first_decodable_image() {
    let r = response(
        vec![
            GeminiPart::Text { text: "here".to_string() },
            inline("not base64!"),
            inline("AQID"),
            inline("BAUG"),
        ],
        Some("STOP"),
    );
    assert_eq!(extract_image_from_response(r).unwrap(), vec![1, 2, 3]);

    let r = response(vec![inline("AQID")], None);
    assert_eq!(extract_image_from_response(r).unwrap(), vec![1, 2, 3]);
}

#[test]
fn gemini_extraction_errors() {
    let empty = GeminiResponse { candidates: vec![] };
    match extract_image_from_response(empty) {
        Err(Error::GeminiApi { message, status }) => {
            assert_eq!(message, "No candidates in response");
            assert_eq!(status, None);
        }
        _ => panic!("no candidate"),
    }
    let stopped = response(vec![inline("AQID")], Some("SAFETY"));
    match extract_image_from_response(stopped) {
        Err(Error::GeminiApi { message, .. }) => {
            assert_eq!(message, "Generation finished with reason: SAFETY")
        }
        _ => panic!("finish reason"),
    }
}

#[test]
fn gemini_placeholder_when_no_image() {
    let r = response(vec![GeminiPart::Text { text: "sorry".to_string() }], Some("STOP"));
    let image = extract_image_from_response(r).unwrap();
    assert_eq!(image, create_placeholder_image());
    assert_eq!(&image[..2], &[0xFF, 0xD8]);
    assert_eq!(&image[image.len() - 2..], &[0xFF, 0xD9]);
}

#[test]
fn gemini_urls_and_status() {
    let config = default_config();
    assert_eq!(
        generate_content_url(&config),
        "https://generativelanguage.googleapis.com/v1beta/models/gemini-2.5-flash-image-preview:generateContent?key=test-api-key"
    );
    assert_eq!(models_url(&config), "https://generativelanguage.googleapis.com/v1beta/models");
    assert_eq!(bearer_authorization(&config), "Bearer test-api-key");

    assert!(api_status_error(200, "200 OK", "").is_none());
    assert!(api_status_error(299, "299", "").is_none());
    match api_status_error(404, "404 Not Found", "gone") {
        Some(Error::GeminiApi { message, status }) => {
            assert_eq!(message, "API request failed with status 404 Not Found: gone");
            assert_eq!(status, Some(404));
        }
        _ => panic!("error status"),
    }
    assert!(api_status_error(199, "199", "").is_some());
}

#[test]
fn gemini_encoded_length_limit_and_placeholder_marker() {
    assert!(encoded_length_fits(0));
    assert!(encoded_length_fits(1 << 20));
    assert!(!encoded_length_fits(usize::MAX));
    let placeholder = create_placeholder_image();
    assert_eq!(&placeholder[..2], &[0xFF, 0xD8]);
}

#[test]
fn gemini_base64_padding_and_round_trip() {
    let images = vec![vec![0xFFu8], vec![0xFF, 0xEE], b"Man".to_vec()];
    let request = remix_request("p", &images);
    let encoded: Vec<String> = request.contents[0].parts[1..]
        .iter()
        .map(|p| match p {
            GeminiPart::InlineData { inline_data } => inline_data.data.clone(),
            _ => panic!("image part"),
        })
        .collect();
    assert_eq!(encoded, vec!["/w==", "/+4=", "TWFu"]);
    for (text, bytes) in encoded.iter().zip(images.iter()) {
        let r = response(vec![inline(text)], Some("STOP"));
        assert_eq!(&extract_image_from_response(r).unwrap(), bytes);
    }
}
