use base64::Engine;
use kodik_parser::html::TagAttributes;
use kodik_parser::js::{find_js_value, find_js_var, find_js_var_quoted, parse_vinfo_assignment};
use kodik_parser::manifests::{
    caesar_decrypt, endpoint_from_bytes, is_manifest_link, link_text_from_bytes, pad_base64,
    parse_manifest_url, DecryptError, EpisodeInfo, EpisodeInfoError, MediaType,
    PageTranslationInfo, PageTranslationInfoError, PageTranslationType, PlayerScript,
    PostPayload, RawKodikManifestLink, RawKodikManifestLinks, SerialScript, SerialScriptError,
    UrlParams, UrlParamsError, UrlParamsScript, VideoParams, VideoParamsError,
};
use kodik_parser::numbers::IntErrorKind;

fn cs(s: &str) -> Vec<char> {
    s.chars().collect()
}

fn st(v: &[char]) -> String {
    v.iter().collect()
}

fn attrs(pairs: &[(&str, &str)]) -> TagAttributes {
    TagAttributes { attributes: pairs.iter().map(|(k, v)| (k.to_string(), v.to_string())).collect() }
}

#[test]
fn js_values_from_lines() {
    let src = cs("x\n  var urlParams = '{\"d\":\"a\"}';  \nvar urlParams = 'second';\nvar n = 5;");
    assert_eq!(find_js_value(&cs("var n = "), &src, &cs(";")).map(|v| st(&v)), Some("5".to_string()));
    assert_eq!(find_js_var(&cs("n"), &src).map(|v| st(&v)), Some("5".to_string()));
    assert_eq!(find_js_var_quoted(&cs("urlParams"), &src).map(|v| st(&v)), Some("{\"d\":\"a\"}".to_string()));
    assert_eq!(find_js_var(&cs("missing"), &src), None);
    assert_eq!(find_js_var_quoted(&cs("n"), &src), None);
}

#[test]
fn vinfo_assignments() {
    let (k, v) = parse_vinfo_assignment(&cs("  vInfo.hash = 'abc';")).unwrap();
    assert_eq!((st(&k), st(&v)), ("hash".to_string(), "abc".to_string()));
    let (k, v) = parse_vinfo_assignment(&cs("vInfo. type='seria';")).unwrap();
    assert_eq!((st(&k), st(&v)), ("type".to_string(), "seria".to_string()));
    assert!(parse_vinfo_assignment(&cs("vInfo.hash = abc;")).is_none());
    assert!(parse_vinfo_assignment(&cs("vInfo.hash = 'abc'")).is_none());
    assert!(parse_vinfo_assignment(&cs("info.hash = 'abc';")).is_none());
    assert!(parse_vinfo_assignment(&cs("vInfo.hash 'abc';")).is_none());
}

#[test]
fn video_params_last_assignment_wins() {
    let s = "vInfo.type = 'seria';\nvInfo.hash = 'h1';\nvInfo.id = '42';\nvInfo.hash = 'h2';\n";
    let p = PlayerScript::new(s.to_string()).get_video_params().unwrap();
    assert_eq!((p.hash.as_str(), p.id.as_str(), p.video_type.as_str()), ("h2", "42", "seria"));
}

#[test]
fn video_params_report_first_missing() {
    let p = PlayerScript::new("vInfo.id = '1';\nvInfo.type = 't';".to_string());
    assert_eq!(p.get_video_params().unwrap_err(), VideoParamsError::NoHash);
    let p = PlayerScript::new("vInfo.hash = '1';\nvInfo.type = 't';".to_string());
    assert_eq!(p.get_video_params().unwrap_err(), VideoParamsError::NoId);
    let p = PlayerScript::new("vInfo.hash = '1';\nvInfo.id = 't';".to_string());
    assert_eq!(p.get_video_params().unwrap_err(), VideoParamsError::NoType);
}

#[test]
fn endpoint_of_serial_script() {
    let s = SerialScript::new("a;$.ajax({type:\"POST\",url:atob(\"L2Z0b3I=\"),cache:!1".to_string());
    assert_eq!(s.extract_endpoint().as_deref(), Some("L2Z0b3I="));
    assert_eq!(s.get_endpoint().unwrap(), "/ftor");
}

#[test]
fn endpoint_errors() {
    let s = SerialScript::new("nothing here".to_string());
    assert!(matches!(s.get_endpoint(), Err(SerialScriptError::EndpointNotFound)));
    let s = SerialScript::new("url:atob(\"L2Z0b3I\")".to_string());
    assert!(matches!(s.get_endpoint(), Err(SerialScriptError::EndpointDecodeError(_))));
    let s = SerialScript::new("url:atob(\"/w==\")".to_string());
    assert!(matches!(s.get_endpoint(), Err(SerialScriptError::EndpointInvalidUtf8(_))));
    assert!(matches!(endpoint_from_bytes(vec![0xff]), Err(SerialScriptError::EndpointInvalidUtf8(_))));
    assert_eq!(endpoint_from_bytes(b"/ftor".to_vec()).unwrap(), "/ftor");
}

#[test]
fn caesar_shift_of_serial_script() {
    let s = SerialScript::new("x=e.charCodeAt(0)+13;y=e.charCodeAt(0)+2".to_string());
    assert_eq!(s.extract_caesar_shift(), Some(13));
    let s = SerialScript::new("c.charCodeAt ( 0 )\t+  7)".to_string());
    assert_eq!(s.extract_caesar_shift(), Some(7));
    let s = SerialScript::new("charCodeAt(0)+26".to_string());
    assert_eq!(s.extract_caesar_shift(), None);
    let s = SerialScript::new("charCodeAt(0)+300".to_string());
    assert_eq!(s.extract_caesar_shift(), None);
    let s = SerialScript::new("charCodeAt(1)+3".to_string());
    assert_eq!(s.extract_caesar_shift(), None);
}

#[test]
fn media_types() {
    assert!(matches!(MediaType::parse("serial", Some("12")), Ok(MediaType::Serial(12))));
    assert!(matches!(MediaType::parse("video", None), Ok(MediaType::Video)));
    assert!(matches!(MediaType::parse("anime", None), Ok(MediaType::Other(s)) if s == "anime"));
    assert!(matches!(MediaType::parse("serial", None), Err(PageTranslationInfoError::NoEpisodeCount)));
    assert!(matches!(
        MediaType::parse("serial", Some("x")),
        Err(PageTranslationInfoError::InvalidEpisodeCount(IntErrorKind::InvalidDigit))
    ));
}

#[test]
fn dub_kinds() {
    assert!(matches!(PageTranslationType::from("voice"), PageTranslationType::Voice));
    assert!(matches!(PageTranslationType::from("subtitles"), PageTranslationType::Subtitles));
    assert!(matches!(PageTranslationType::from("other"), PageTranslationType::Other(s) if s == "other"));
}

fn full_dub_tag() -> Vec<(&'static str, &'static str)> {
    vec![
        ("data-title", "AniLibria"),
        ("data-id", "610"),
        ("data-media-hash", "abc"),
        ("data-media-id", "76639"),
        ("data-media-type", "serial"),
        ("data-episode-count", "12"),
        ("data-translation-type", "voice"),
        ("selected", "selected"),
        ("value", "610"),
    ]
}

#[test]
fn dub_from_tag() {
    let info = PageTranslationInfo::try_from(&attrs(&full_dub_tag())).unwrap();
    let text = format!("{:?}", info);
    assert_eq!(
        text,
        "PageTranslationInfo { title: \"AniLibria\", id: 610, media_hash: \"abc\", media_id: 76639, media_type: Serial(12), translation_type: Voice, selected: true }"
    );
}

#[test]
fn dub_tag_errors() {
    let without = |name: &str| {
        let t: Vec<(&str, &str)> = full_dub_tag().into_iter().filter(|(k, _)| *k != name).collect();
        PageTranslationInfo::try_from(&attrs(&t)).unwrap_err()
    };
    let with = |name: &str, value: &'static str| {
        let t: Vec<(&str, &str)> =
            full_dub_tag().into_iter().map(|(k, v)| if k == name { (k, value) } else { (k, v) }).collect();
        PageTranslationInfo::try_from(&attrs(&t)).unwrap_err()
    };
    assert_eq!(without("data-title"), PageTranslationInfoError::NoTitle);
    assert_eq!(without("data-id"), PageTranslationInfoError::NoId);
    assert_eq!(with("data-id", "a"), PageTranslationInfoError::InvalidId(IntErrorKind::InvalidDigit));
    assert_eq!(without("data-media-hash"), PageTranslationInfoError::NoMediaHash);
    assert_eq!(without("data-media-id"), PageTranslationInfoError::NoMediaId);
    assert_eq!(with("data-media-id", ""), PageTranslationInfoError::InvalidMediaId(IntErrorKind::Empty));
    assert_eq!(without("data-media-type"), PageTranslationInfoError::NoMediaType);
    assert_eq!(without("data-episode-count"), PageTranslationInfoError::NoEpisodeCount);
    assert_eq!(
        with("data-episode-count", "99999999999"),
        PageTranslationInfoError::InvalidEpisodeCount(IntErrorKind::PosOverflow)
    );
    assert_eq!(without("data-translation-type"), PageTranslationInfoError::NoPageTranslationType);
    assert_eq!(without("value"), PageTranslationInfoError::NoValue);
    assert_eq!(with("value", "-1"), PageTranslationInfoError::InvalidValue(IntErrorKind::InvalidDigit));
    assert_eq!(with("value", "611"), PageTranslationInfoError::ValueAndIdNotMatch { value: 611, id: 610 });
    let t: Vec<(&str, &str)> = full_dub_tag().into_iter().filter(|(k, _)| *k != "selected").collect();
    let info = PageTranslationInfo::try_from(&attrs(&t)).unwrap();
    assert!(format!("{:?}", info).ends_with("selected: false }"));
}

#[test]
fn episode_from_tag() {
    let tag = [
        ("data-title", "1 серия"),
        ("data-hash", "h"),
        ("data-id", "5"),
        ("value", "1"),
        ("data-other-translation", "true"),
    ];
    let e = EpisodeInfo::try_from(&attrs(&tag)).unwrap();
    assert_eq!(
        format!("{:?}", e),
        "EpisodeInfo { title: \"1 серия\", hash: \"h\", id: 5, translation_title: None, selected: false, number: 1, other_translation: true }"
    );
    let tag = [
        ("data-title", "t"),
        ("data-hash", "h"),
        ("data-id", "5"),
        ("data-translation-title", "AniDub"),
        ("selected", ""),
        ("value", "2"),
        ("data-other-translation", "yes"),
    ];
    let e = EpisodeInfo::try_from(&attrs(&tag)).unwrap();
    assert_eq!(
        format!("{:?}", e),
        "EpisodeInfo { title: \"t\", hash: \"h\", id: 5, translation_title: Some(\"AniDub\"), selected: true, number: 2, other_translation: false }"
    );
}

#[test]
fn episode_tag_errors() {
    let full = [("data-title", "t"), ("data-hash", "h"), ("data-id", "5"), ("value", "1"), ("data-other-translation", "true")];
    let without = |name: &str| {
        let t: Vec<(&str, &str)> = full.iter().cloned().filter(|(k, _)| *k != name).collect();
        EpisodeInfo::try_from(&attrs(&t)).unwrap_err()
    };
    assert_eq!(without("data-title"), EpisodeInfoError::NoTitle);
    assert_eq!(without("data-hash"), EpisodeInfoError::NoHash);
    assert_eq!(without("data-id"), EpisodeInfoError::NoId);
    assert_eq!(without("value"), EpisodeInfoError::NoValue);
    assert_eq!(without("data-other-translation"), EpisodeInfoError::NoOtherPageTranslation);
    let t = [("data-title", "t"), ("data-hash", "h"), ("data-id", "x"), ("value", "1")];
    assert_eq!(EpisodeInfo::try_from(&attrs(&t)).unwrap_err(), EpisodeInfoError::InvalidId(IntErrorKind::InvalidDigit));
    let t = [("data-title", "t"), ("data-hash", "h"), ("data-id", "1"), ("value", "")];
    assert_eq!(EpisodeInfo::try_from(&attrs(&t)).unwrap_err(), EpisodeInfoError::InvalidNumber(IntErrorKind::Empty));
}

#[test]
fn url_params_json_text() {
    let s = UrlParamsScript::new("var urlParams = '{\"d\":\"x\"}';".to_string());
    assert_eq!(s.url_params_json().unwrap(), "{\"d\":\"x\"}");
    let s = UrlParamsScript::new("var urlParams = {};".to_string());
    assert_eq!(s.url_params_json().unwrap_err(), UrlParamsError::NotFound);
}

#[test]
fn payload_flags() {
    let up = UrlParams {
        domain: "d".into(),
        domain_sign: "ds".into(),
        parent_domain: "p".into(),
        parent_domain_sign: "ps".into(),
        referer: "r".into(),
        referer_sign: "rs".into(),
    };
    let vp = VideoParams { hash: "h".into(), id: "1".into(), video_type: "seria".into() };
    let p = PostPayload::from_params(up, vp);
    assert_eq!((p.bad_user.as_str(), p.cdn_is_working.as_str()), ("true", "true"));
    assert_eq!(p.video_params.hash, "h");
    assert_eq!(p.url_params.referer_sign, "rs");
}

fn link(s: &str) -> RawKodikManifestLink {
    RawKodikManifestLink { source: s.to_string(), source_type: "application/x-mpegURL".to_string() }
}

#[test]
fn link_of_quality() {
    let links = RawKodikManifestLinks::new(vec![
        ("480".to_string(), vec![link("a")]),
        ("360".to_string(), vec![link("b"), link("c")]),
        ("720".to_string(), vec![]),
    ])
    .unwrap();
    assert_eq!(links.get_link_of_quality(360).unwrap().source, "b");
    assert_eq!(links.get_link_of_quality(480).unwrap().source, "a");
    assert!(links.get_link_of_quality(720).is_none());
    assert!(links.get_link_of_quality(1080).is_none());
    assert!(RawKodikManifestLinks::new(vec![("1".to_string(), vec![]), ("1".to_string(), vec![])]).is_none());
}

#[test]
fn manifest_links_and_urls() {
    assert!(is_manifest_link("//cdn/x/360.mp4:hls:manifest.m3u8"));
    assert!(!is_manifest_link("//cdn/x/360.mp4"));
    assert_eq!(parse_manifest_url("//cdn.example/a.m3u8").unwrap(), "https://cdn.example/a.m3u8");
    assert_eq!(parse_manifest_url("http://cdn.example/a").unwrap(), "http://cdn.example/a");
    assert!(parse_manifest_url("not a url").is_err());
}

#[test]
fn caesar_shift_letters() {
    assert_eq!(caesar_decrypt("Abz-Z9", 1), "Bca-A9");
    assert_eq!(caesar_decrypt("Hello, World", 13), "Uryyb, Jbeyq");
    assert_eq!(caesar_decrypt("яXy", 25), "яWx");
    assert_eq!(caesar_decrypt("Az", 230), "Wv");
}

#[test]
fn base64_padding() {
    let mut s = "ab".to_string();
    pad_base64(&mut s).unwrap();
    assert_eq!(s, "ab==");
    let mut s = "abc".to_string();
    pad_base64(&mut s).unwrap();
    assert_eq!(s, "abc=");
    let mut s = "abcd".to_string();
    pad_base64(&mut s).unwrap();
    assert_eq!(s, "abcd");
    let mut s = "abcde".to_string();
    assert!(matches!(pad_base64(&mut s), Err(DecryptError::InvalidBase64Length)));
    assert_eq!(s, "abcde");
    let mut s = "я".to_string();
    pad_base64(&mut s).unwrap();
    assert_eq!(s, "я==");
}

fn conceal(url: &str, shift: u8) -> String {
    let encoded = base64::engine::general_purpose::STANDARD.encode(url);
    let unpadded = encoded.trim_end_matches('=');
    caesar_decrypt(unpadded, 26 - shift)
}

#[test]
fn decrypt_hidden_link() {
    let url = "//cloud.example/useruploads/1/360.mp4:hls:manifest.m3u8";
    let hidden = conceal(url, 18);
    assert!(!is_manifest_link(&hidden));
    let l = link(&hidden).decrypt(18).unwrap();
    assert_eq!(l.as_str(), "https://cloud.example/useruploads/1/360.mp4:hls:manifest.m3u8");
}

#[test]
fn decrypt_plain_link() {
    let l = link("https://cloud.example/360.mp4:hls:manifest.m3u8").decrypt(5).unwrap();
    assert_eq!(l.as_str(), "https://cloud.example/360.mp4:hls:manifest.m3u8");
}

#[test]
fn decrypt_errors() {
    assert!(matches!(link("abcde").decrypt(1), Err(DecryptError::InvalidBase64Length)));
    assert!(matches!(link("ab!d").decrypt(1), Err(DecryptError::Base64(_))));
    let hidden = conceal("//cloud.example/a.mp4", 3);
    assert!(matches!(link(&hidden).decrypt(3), Err(DecryptError::NotManifestLink(s)) if s == "//cloud.example/a.mp4"));
    assert!(matches!(link_text_from_bytes(vec![0xc3]), Err(DecryptError::Utf8(_))));
    assert!(matches!(link("1mp4:hls:manifest").decrypt(1), Err(DecryptError::Url(_))));
}

#[test]
fn shifting_back_restores_the_text() {
    let text = "aGVsbG8gWm9v/+9=";
    for s in [0u8, 1, 13, 18, 25, 26] {
        assert_eq!(caesar_decrypt(&caesar_decrypt(text, s), 26 - s), text);
    }
}

#[test]
fn padding_gives_whole_quads() {
    for t in ["", "a", "ab", "abc", "abcd", "abcdef", "яя", "я"] {
        let mut s = t.to_string();
        match pad_base64(&mut s) {
            Ok(()) => {
                assert_eq!(s.len() % 4, 0);
                assert!(s.starts_with(t));
                assert!(s[t.len()..].chars().all(|c| c == '='));
            },
            Err(_) => assert_eq!(t.len() % 4, 1),
        }
    }
}
