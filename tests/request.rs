use base64::Engine;
use evocaition::request::{
    data_url, local_image_source,
    attachment_content, attachment_source, build_request_body, classify_image_reference,
    endpoint_url, GenerationParameters, ImageKind, ImageSource, MessageContent, PayloadValue,
    Real32, RequestPayload,
};

fn params(plain: bool) -> GenerationParameters {
    GenerationParameters {
        model_id: "m".to_string(),
        stream: false,
        plain,
        max_tokens: None,
        temperature: None,
        top_p: None,
        min_p: None,
        top_k: None,
        repetition_penalty: None,
        seed: None,
        image_file: None,
    }
}

fn keys(p: &RequestPayload) -> Vec<String> {
    p.fields.iter().map(|(k, _)| k.clone()).collect()
}

fn value<'a>(p: &'a RequestPayload, key: &str) -> Option<&'a PayloadValue> {
    p.fields.iter().find(|(k, _)| k == key).map(|(_, v)| v)
}

#[test]
fn plain_mode_has_prompt_and_no_messages() {
    let p = build_request_body(&params(true), "hi", None);
    assert_eq!(keys(&p), vec!["model", "prompt", "stream"]);
    assert!(matches!(value(&p, "prompt"), Some(PayloadValue::Text(t)) if t == "hi"));
}

#[test]
fn chat_mode_has_messages_and_no_prompt() {
    let p = build_request_body(&params(false), "hi", None);
    assert_eq!(keys(&p), vec!["model", "messages", "stream"]);
    match value(&p, "messages") {
        Some(PayloadValue::Messages(ms)) => {
            assert_eq!(ms.len(), 1);
            assert_eq!(ms[0].role, "user");
            assert!(matches!(&ms[0].content, MessageContent::Text(t) if t == "hi"));
        }
        other => panic!("unexpected messages: {:?}", other),
    }
}

#[test]
fn chat_mode_with_image_puts_it_first() {
    let p = build_request_body(&params(false), "hi", Some("https://x/y.png".to_string()));
    match value(&p, "messages") {
        Some(PayloadValue::Messages(ms)) => {
            assert_eq!(ms.len(), 2);
            assert!(matches!(&ms[0].content, MessageContent::ImageUrl(u) if u == "https://x/y.png"));
            assert!(matches!(&ms[1].content, MessageContent::Text(t) if t == "hi"));
        }
        other => panic!("unexpected messages: {:?}", other),
    }
}

#[test]
fn unset_sampling_parameters_are_absent() {
    let p = build_request_body(&params(false), "hi", None);
    for k in ["max_tokens", "temperature", "top_k", "top_p", "min_p", "repetition_penalty", "seed"] {
        assert!(value(&p, k).is_none());
    }
}

#[test]
fn set_sampling_parameters_carry_their_values() {
    let mut g = params(true);
    g.max_tokens = Some(64);
    g.temperature = Some(Real32 { bits: 0.5f32.to_bits() });
    g.top_k = Some(40);
    g.seed = Some(-7);
    g.repetition_penalty = Some(Real32 { bits: 1.1f32.to_bits() });
    let p = build_request_body(&g, "hi", None);
    assert_eq!(
        keys(&p),
        vec!["model", "prompt", "stream", "max_tokens", "temperature", "top_k", "repetition_penalty", "seed"]
    );
    assert!(matches!(value(&p, "max_tokens"), Some(PayloadValue::Count(64))));
    assert!(matches!(value(&p, "top_k"), Some(PayloadValue::Count(40))));
    assert!(matches!(value(&p, "seed"), Some(PayloadValue::Integer(-7))));
    match value(&p, "temperature") {
        Some(PayloadValue::Real(x)) => assert_eq!(f32::from_bits(x.bits), 0.5),
        other => panic!("unexpected value: {:?}", other),
    }
    assert!(value(&p, "top_p").is_none());
    assert!(value(&p, "min_p").is_none());
}

#[test]
fn building_twice_gives_identical_payloads() {
    let mut g = params(false);
    g.stream = true;
    g.top_p = Some(Real32 { bits: 0.9f32.to_bits() });
    let a = build_request_body(&g, "same prompt", None);
    let b = build_request_body(&g, "same prompt", None);
    assert_eq!(format!("{:?}", a), format!("{:?}", b));
}

#[test]
fn png_path_becomes_data_url_of_its_bytes() {
    let path = "/images/picture.png";
    let source = classify_image_reference(path);
    assert_eq!(source, ImageSource::File(ImageKind::Png));
    let bytes: Vec<u8> = vec![0x89, b'P', b'N', b'G', 0, 1, 2, 255];
    let content = attachment_content(path, source, &bytes);
    let encoded = content.strip_prefix("data:image/png;base64,").unwrap();
    assert_eq!(base64::prelude::BASE64_STANDARD.decode(encoded).unwrap(), bytes);
}

#[test]
fn jpeg_and_webp_extensions_are_known() {
    assert_eq!(classify_image_reference("a.jpg"), ImageSource::File(ImageKind::Jpeg));
    assert_eq!(classify_image_reference("a.b.jpeg"), ImageSource::File(ImageKind::Jpeg));
    assert_eq!(classify_image_reference("x/y.webp"), ImageSource::File(ImageKind::Webp));
    let content = attachment_content("a.jpg", ImageSource::File(ImageKind::Jpeg), &[1, 2, 3]);
    assert_eq!(content, "data:image/jpeg;base64,AQID");
}

#[test]
fn bmp_path_gives_empty_content() {
    let source = classify_image_reference("/images/picture.bmp");
    assert_eq!(source, ImageSource::Unsupported);
    assert_eq!(attachment_content("/images/picture.bmp", source, &[]), "");
    assert_eq!(classify_image_reference("png"), ImageSource::File(ImageKind::Png));
    assert_eq!(classify_image_reference("picture"), ImageSource::Unsupported);
}

#[test]
fn url_reference_is_sent_as_is() {
    let url = "https://example.com/cat.png";
    let source = classify_image_reference(url);
    assert_eq!(source, ImageSource::Url);
    assert_eq!(attachment_content(url, source, &[]), url);
}

#[test]
fn plain_requests_carry_no_image() {
    let mut g = params(true);
    g.image_file = Some("a.png".to_string());
    assert_eq!(attachment_source(&g), None);
    g.plain = false;
    assert_eq!(attachment_source(&g), Some(ImageSource::File(ImageKind::Png)));
}

#[test]
fn endpoint_depends_on_mode() {
    assert_eq!(endpoint_url("https://h/api", true), "https://h/api/v1/completions");
    assert_eq!(endpoint_url("https://h/api", false), "https://h/api/v1/chat/completions");
}

#[test]
fn local_source_ignores_url_syntax() {
    assert_eq!(local_image_source("https://example.com/cat.png"), ImageSource::File(ImageKind::Png));
    assert_eq!(local_image_source("cat.PNG"), ImageSource::Unsupported);
    assert_eq!(data_url(ImageKind::Webp, "QQ=="), "data:image/webp;base64,QQ==");
}
