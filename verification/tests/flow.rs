use base64::Engine;
use kodik_parser::flow::{
    page_url, start, step, ManifestAction, ManifestError, ManifestEvent, ManifestState,
};
use kodik_parser::manifests::{
    caesar_decrypt, RawKodikManifestLink, RawKodikManifestLinks, UrlParams, UrlParamsError,
    VideoParamsError,
};

fn page(player_script: &str) -> String {
    format!(
        "<html><head><script>var urlParams = '{{\"d\":\"example.com\"}}';</script>\
         <script src=\"/assets/js/app.serial.abc.js\"></script></head><body>\
         <script>var a = 1;</script><script></script><script>{}</script></body></html>",
        player_script
    )
}

const PLAYER: &str = "\nvInfo.type = 'seria';\nvInfo.hash = 'h1';\nvInfo.id = '42';\n";

fn url_params() -> UrlParams {
    UrlParams {
        domain: "example.com".into(),
        domain_sign: "s1".into(),
        parent_domain: "example.com".into(),
        parent_domain_sign: "s2".into(),
        referer: "https://example.com/".into(),
        referer_sign: "s3".into(),
    }
}

fn hidden_source(url: &str, shift: u8) -> String {
    let encoded = base64::engine::general_purpose::STANDARD.encode(url);
    caesar_decrypt(encoded.trim_end_matches('='), 26 - shift)
}

#[test]
fn page_url_carries_episode() {
    assert_eq!(
        page_url("https://kodikplayer.com/serial/1/abc/720p", 8).unwrap(),
        "https://kodikplayer.com/serial/1/abc/720p?episode=8"
    );
    assert!(matches!(page_url("no url", 1), Err(ManifestError::InvalidPageUrl(_))));
}

#[test]
fn full_run_reaches_the_manifest() {
    let (state, action) = start("https://kodikplayer.com/serial/1/abc/720p", 3);
    assert!(matches!(&action, ManifestAction::FetchPage(u) if u == "https://kodikplayer.com/serial/1/abc/720p?episode=3"));
    let (state, action) = step(state, ManifestEvent::PageFetched(page(PLAYER)));
    assert!(matches!(&action, ManifestAction::ReadUrlParams(j) if j == "{\"d\":\"example.com\"}"));
    let (state, action) = step(state, ManifestEvent::UrlParamsRead(Ok(url_params())));
    assert!(matches!(&action, ManifestAction::FetchSerialScript(u) if u == "https://kodikplayer.com/assets/js/app.serial.abc.js"));
    let serial = "$.ajax({type:\"POST\",url:atob(\"L2Z0b3I=\"),cache:!1});x=e.charCodeAt(0)+18;";
    let (state, action) = step(state, ManifestEvent::SerialScriptFetched(serial.to_string()));
    match &action {
        ManifestAction::PostForm(u, payload) => {
            assert_eq!(u, "https://kodikplayer.com/ftor");
            assert_eq!(payload.video_params.hash, "h1");
            assert_eq!(payload.video_params.id, "42");
            assert_eq!(payload.video_params.video_type, "seria");
            assert_eq!(payload.url_params.referer, "https://example.com/");
            assert_eq!(payload.bad_user, "true");
        },
        other => panic!("unexpected {:?}", other),
    }
    let source = hidden_source("//cloud.example/u/360.mp4:hls:manifest.m3u8", 18);
    let links = RawKodikManifestLinks::new(vec![(
        "360".to_string(),
        vec![RawKodikManifestLink { source, source_type: "application/x-mpegURL".into() }],
    )])
    .unwrap();
    let (state, action) = step(state, ManifestEvent::LinksRead(Ok(links)));
    assert!(matches!(state, ManifestState::Finished));
    match action {
        ManifestAction::Done(Ok(l)) => assert_eq!(l.as_str(), "https://cloud.example/u/360.mp4:hls:manifest.m3u8"),
        other => panic!("unexpected {:?}", other),
    }
}

#[test]
fn page_without_player_script() {
    let html = "<html><script>var urlParams = 'x';</script></html>";
    let (state, action) = step(ManifestState::AwaitingPage, ManifestEvent::PageFetched(html.to_string()));
    assert!(matches!(state, ManifestState::Finished));
    assert!(matches!(action, ManifestAction::Done(Err(ManifestError::NoPlayerScript))));
}

#[test]
fn page_with_incomplete_player_script() {
    let (_, action) = step(ManifestState::AwaitingPage, ManifestEvent::PageFetched(page("vInfo.id = '1';")));
    assert!(matches!(action, ManifestAction::Done(Err(ManifestError::VideoParams(VideoParamsError::NoHash)))));
}

#[test]
fn bad_url_params_end_the_run() {
    let (state, _) = step(ManifestState::AwaitingPage, ManifestEvent::PageFetched(page(PLAYER)));
    let (state, action) = step(state, ManifestEvent::UrlParamsRead(Err("eof".to_string())));
    assert!(matches!(state, ManifestState::Finished));
    assert!(matches!(action, ManifestAction::Done(Err(ManifestError::UrlParams(UrlParamsError::InvalidJson(m)))) if m == "eof"));
}

#[test]
fn serial_script_without_endpoint_or_shift() {
    let (state, _) = step(ManifestState::AwaitingPage, ManifestEvent::PageFetched(page(PLAYER)));
    let (state, _) = step(state, ManifestEvent::UrlParamsRead(Ok(url_params())));
    let (_, action) = step(state, ManifestEvent::SerialScriptFetched("nothing".to_string()));
    assert!(matches!(action, ManifestAction::Done(Err(ManifestError::SerialScript(_)))));

    let (state, _) = step(ManifestState::AwaitingPage, ManifestEvent::PageFetched(page(PLAYER)));
    let (state, _) = step(state, ManifestEvent::UrlParamsRead(Ok(url_params())));
    let (state, _) = step(state, ManifestEvent::SerialScriptFetched("url:atob(\"L2Z0b3I=\")".to_string()));
    let links = RawKodikManifestLinks::new(vec![(
        "360".to_string(),
        vec![RawKodikManifestLink { source: "abcd".into(), source_type: "t".into() }],
    )])
    .unwrap();
    let (_, action) = step(state, ManifestEvent::LinksRead(Ok(links)));
    assert!(matches!(action, ManifestAction::Done(Err(ManifestError::NoCaesarShift))));
}

#[test]
fn missing_quality_ends_the_run() {
    let (state, _) = step(ManifestState::AwaitingPage, ManifestEvent::PageFetched(page(PLAYER)));
    let (state, _) = step(state, ManifestEvent::UrlParamsRead(Ok(url_params())));
    let (state, _) = step(state, ManifestEvent::SerialScriptFetched("url:atob(\"L2Z0b3I=\") charCodeAt(0)+1".to_string()));
    let links = RawKodikManifestLinks::new(vec![("720".to_string(), vec![])]).unwrap();
    let (_, action) = step(state, ManifestEvent::LinksRead(Ok(links)));
    assert!(matches!(action, ManifestAction::Done(Err(ManifestError::NoSourceOfQuality))));
}

#[test]
fn events_out_of_order_are_refused() {
    let (state, action) = step(ManifestState::AwaitingPage, ManifestEvent::SerialScriptFetched(String::new()));
    assert!(matches!(state, ManifestState::Finished));
    assert!(matches!(action, ManifestAction::Done(Err(ManifestError::OutOfOrder))));
    let (_, action) = step(ManifestState::Finished, ManifestEvent::PageFetched(String::new()));
    assert!(matches!(action, ManifestAction::Done(Err(ManifestError::OutOfOrder))));
}
