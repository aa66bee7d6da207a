//! Getting the manifest link of an episode: the decisions between the
//! requests.  The caller performs each request that a step asks for and
//! hands back what came of it; every decision in between is made here.
//!
//! The steps: fetch the episode's player page; read the video parameters
//! and the `urlParams` JSON from its scripts; once the caller has read that
//! JSON, fetch the serial script the page loads; read the hidden endpoint
//! from it and post the form there; once the caller has read the response
//! into manifest sources, recover the link of the 360p source.
use vstd::prelude::*;
use crate::text::{chars_of, string_of, append_chars};
use crate::numbers::{decimal, decimal_u32};
use crate::js::js_var_quoted;
use crate::html::{HtmlElement, attr_lookup, elements_view};
use crate::external::{
    url_join, url_joining, html_select, html_selection, base64_standard_decoding,
};
use crate::manifests::{
    PlayerScript, SerialScript, SerialScriptError, UrlParamsScript, UrlParams, UrlParamsError,
    VideoParams, VideoParamsError, PostPayload, RawKodikManifestLinks, KodikManifestLink,
    DecryptError, DecryptFailure, video_params_of, endpoint_text, caesar_shift_of, link_of_quality,
    decrypted_link, caesar_fits,
};

verus! {

/// The site the player's scripts and endpoints are relative to.
pub open spec fn kodik_base_url() -> Seq<char> {
    "https://kodikplayer.com"@
}

/// The quality whose source is taken.
pub open spec fn wanted_quality() -> u32 {
    360
}

/// Why no manifest link was had.
#[derive(Debug)]
pub enum ManifestError {
    /// The episode page URL could not be formed.
    InvalidPageUrl(url::ParseError),
    /// The script selector was refused.
    InvalidSelector(scraper::error::SelectorErrorKind),
    /// The page has no fifth script, the player script.
    NoPlayerScript,
    VideoParams(VideoParamsError),
    UrlParams(UrlParamsError),
    /// The page has no second script, the serial script.
    NoSerialScript,
    /// The serial script tag has no `src`.
    NoSerialScriptSource,
    InvalidSerialScriptUrl(url::ParseError),
    SerialScript(SerialScriptError),
    InvalidEndpointUrl(url::ParseError),
    /// The manifest response could not be read; the message says why.
    InvalidManifestResponse(String),
    /// The response lists no 360p source.
    NoSourceOfQuality,
    /// The serial script gives no shift.
    NoCaesarShift,
    Decrypt(DecryptError),
    /// The event does not answer the step that was asked for.
    OutOfOrder,
}

/// Why no manifest link was had, as a mathematical value.
pub enum ManifestFailure {
    InvalidPageUrl,
    InvalidSelector,
    NoPlayerScript,
    VideoParams(VideoParamsError),
    UrlParamsNotFound,
    InvalidUrlParams(Seq<char>),
    NoSerialScript,
    NoSerialScriptSource,
    InvalidSerialScriptUrl,
    EndpointNotFound,
    EndpointDecodeError,
    EndpointInvalidUtf8,
    InvalidEndpointUrl,
    InvalidManifestResponse(Seq<char>),
    NoSourceOfQuality,
    NoCaesarShift,
    Decrypt(DecryptFailure),
    OutOfOrder,
}

impl View for ManifestError {
    type V = ManifestFailure;

    open spec fn view(&self) -> ManifestFailure {
        match self {
            ManifestError::InvalidPageUrl(_) => ManifestFailure::InvalidPageUrl,
            ManifestError::InvalidSelector(_) => ManifestFailure::InvalidSelector,
            ManifestError::NoPlayerScript => ManifestFailure::NoPlayerScript,
            ManifestError::VideoParams(e) => ManifestFailure::VideoParams(*e),
            ManifestError::UrlParams(UrlParamsError::NotFound) => ManifestFailure::UrlParamsNotFound,
            ManifestError::UrlParams(UrlParamsError::InvalidJson(m)) => ManifestFailure::InvalidUrlParams(m@),
            ManifestError::NoSerialScript => ManifestFailure::NoSerialScript,
            ManifestError::NoSerialScriptSource => ManifestFailure::NoSerialScriptSource,
            ManifestError::InvalidSerialScriptUrl(_) => ManifestFailure::InvalidSerialScriptUrl,
            ManifestError::SerialScript(SerialScriptError::EndpointNotFound) => ManifestFailure::EndpointNotFound,
            ManifestError::SerialScript(SerialScriptError::EndpointDecodeError(_)) => ManifestFailure::EndpointDecodeError,
            ManifestError::SerialScript(SerialScriptError::EndpointInvalidUtf8(_)) => ManifestFailure::EndpointInvalidUtf8,
            ManifestError::InvalidEndpointUrl(_) => ManifestFailure::InvalidEndpointUrl,
            ManifestError::InvalidManifestResponse(m) => ManifestFailure::InvalidManifestResponse(m@),
            ManifestError::NoSourceOfQuality => ManifestFailure::NoSourceOfQuality,
            ManifestError::NoCaesarShift => ManifestFailure::NoCaesarShift,
            ManifestError::Decrypt(e) => ManifestFailure::Decrypt(e@),
            ManifestError::OutOfOrder => ManifestFailure::OutOfOrder,
        }
    }
}

/// Video parameters as mathematical values.
pub open spec fn video_params_view(p: VideoParams) -> (Seq<char>, Seq<char>, Seq<char>) {
    (p.hash@, p.id@, p.video_type@)
}

/// The URL of the episode's page: `?episode=<n>` resolved against the
/// player URL.
pub open spec fn page_url_of(player_url: Seq<char>, episode_number: u32) -> Option<Seq<char>> {
    url_joining(player_url, "?episode="@ + decimal(episode_number as nat))
}

/// What the player page gives: the video parameters from its fifth script,
/// and the `urlParams` JSON text from its first.
pub open spec fn page_stage(
    scripts: Seq<(Seq<char>, Seq<(Seq<char>, Seq<char>)>)>,
) -> Result<((Seq<char>, Seq<char>, Seq<char>), Seq<char>), ManifestFailure> {
    if scripts.len() <= 4 {
        Err(ManifestFailure::NoPlayerScript)
    } else {
        match video_params_of(scripts[4].0) {
            Err(e) => Err(ManifestFailure::VideoParams(e)),
            Ok(vp) => match js_var_quoted("urlParams"@, scripts[0].0) {
                None => Err(ManifestFailure::UrlParamsNotFound),
                Some(j) => Ok((vp, j)),
            },
        }
    }
}

/// The URL of the serial script: the `src` of the page's second script,
/// resolved against the site.
pub open spec fn serial_script_url_of(scripts: Seq<(Seq<char>, Seq<(Seq<char>, Seq<char>)>)>) -> Result<
    Seq<char>,
    ManifestFailure,
> {
    if scripts.len() <= 1 {
        Err(ManifestFailure::NoSerialScript)
    } else {
        match attr_lookup(scripts[1].1, "src"@) {
            None => Err(ManifestFailure::NoSerialScriptSource),
            Some(src) => match url_joining(kodik_base_url(), src) {
                None => Err(ManifestFailure::InvalidSerialScriptUrl),
                Some(u) => Ok(u),
            },
        }
    }
}

/// Where the form is posted: the serial script's hidden endpoint, resolved
/// against the site.
pub open spec fn post_url_of(serial_script: Seq<char>) -> Result<Seq<char>, ManifestFailure> {
    match endpoint_text(serial_script) {
        None => Err(ManifestFailure::EndpointNotFound),
        Some(t) => match base64_standard_decoding(t) {
            None => Err(ManifestFailure::EndpointDecodeError),
            Some(bytes) => if !vstd::utf8::valid_utf8(bytes) {
                Err(ManifestFailure::EndpointInvalidUtf8)
            } else {
                match url_joining(kodik_base_url(), vstd::utf8::decode_utf8(bytes)) {
                    None => Err(ManifestFailure::InvalidEndpointUrl),
                    Some(u) => Ok(u),
                }
            },
        },
    }
}

/// The manifest link recovered from the response: the first 360p source,
/// unshifted by the serial script's shift.
pub open spec fn link_stage(
    links: Seq<(Seq<char>, Seq<(Seq<char>, Seq<char>)>)>,
    serial_script: Seq<char>,
) -> Result<Seq<char>, ManifestFailure> {
    match link_of_quality(links, wanted_quality()) {
        None => Err(ManifestFailure::NoSourceOfQuality),
        Some(source) => match caesar_shift_of(serial_script) {
            None => Err(ManifestFailure::NoCaesarShift),
            Some(shift) => match decrypted_link(source.0, shift) {
                Err(e) => Err(ManifestFailure::Decrypt(e)),
                Ok(u) => Ok(u),
            },
        },
    }
}

/// The page gives what its first and fifth scripts say, whatever other
/// scripts it holds: a page with at most four scripts has no player script;
/// otherwise the video parameters are those of the fifth script and the
/// JSON is the `urlParams` of the first, so two pages that agree on those
/// two scripts (one with more scripts after them, say) give the same.
pub proof fn lemma_page_reads_first_and_fifth_scripts(
    s1: Seq<(Seq<char>, Seq<(Seq<char>, Seq<char>)>)>,
    s2: Seq<(Seq<char>, Seq<(Seq<char>, Seq<char>)>)>,
)
    ensures
        s1.len() <= 4 ==> page_stage(s1) == Err::<((Seq<char>, Seq<char>, Seq<char>), Seq<char>), ManifestFailure>(
            ManifestFailure::NoPlayerScript,
        ),
        s1.len() > 4 ==> match page_stage(s1) {
            Ok((vp, j)) => video_params_of(s1[4].0) == Ok::<(Seq<char>, Seq<char>, Seq<char>), VideoParamsError>(vp)
                && js_var_quoted("urlParams"@, s1[0].0) == Some(j),
            Err(ManifestFailure::VideoParams(e)) => video_params_of(s1[4].0)
                == Err::<(Seq<char>, Seq<char>, Seq<char>), VideoParamsError>(e),
            Err(f) => f == ManifestFailure::UrlParamsNotFound && video_params_of(s1[4].0) is Ok
                && js_var_quoted("urlParams"@, s1[0].0) is None,
        },
        s1.len() > 4 && s2.len() > 4 && s1[0].0 == s2[0].0 && s1[4].0 == s2[4].0 ==> page_stage(s1)
            == page_stage(s2),
{
}

/// A shift below 26 moves no letter past the end of a byte.
pub proof fn lemma_small_shift_fits(text: Seq<char>, shift: u8)
    requires
        shift < 26,
    ensures
        caesar_fits(text, shift),
{
}

/// The URL of the episode's page.
pub fn page_url(player_url: &str, episode_number: u32) -> (r: Result<String, ManifestError>)
    ensures
        match r {
            Ok(u) => page_url_of(player_url@, episode_number) == Some(u@),
            Err(e) => page_url_of(player_url@, episode_number) is None && e@ == ManifestFailure::InvalidPageUrl,
        },
{
    let mut query = chars_of("?episode=");
    append_chars(&mut query, &decimal_u32(episode_number));
    let query = string_of(&query);
    match url_join(player_url, query.as_str()) {
        Ok(u) => Ok(u),
        Err(e) => Err(ManifestError::InvalidPageUrl(e)),
    }
}

/// What the page's scripts give: the video parameters and the `urlParams`
/// JSON text.
pub fn read_page_scripts(scripts: &Vec<HtmlElement>) -> (r: Result<(VideoParams, String), ManifestError>)
    ensures
        match r {
            Ok((vp, j)) => page_stage(elements_view(scripts@)) == Ok::<((Seq<char>, Seq<char>, Seq<char>), Seq<char>), ManifestFailure>(
                (video_params_view(vp), j@),
            ),
            Err(e) => page_stage(elements_view(scripts@)) == Err::<((Seq<char>, Seq<char>, Seq<char>), Seq<char>), ManifestFailure>(e@),
        },
{
    if scripts.len() <= 4 {
        return Err(ManifestError::NoPlayerScript);
    }
    let player_script = PlayerScript::new(scripts[4].inner_html.clone());
    let video_params = match player_script.get_video_params() {
        Ok(p) => p,
        Err(e) => return Err(ManifestError::VideoParams(e)),
    };
    let url_params_script = UrlParamsScript::new(scripts[0].inner_html.clone());
    match url_params_script.url_params_json() {
        Ok(j) => Ok((video_params, j)),
        Err(e) => Err(ManifestError::UrlParams(e)),
    }
}

/// The URL of the serial script the page loads.
pub fn serial_script_url(scripts: &Vec<HtmlElement>) -> (r: Result<String, ManifestError>)
    ensures
        match r {
            Ok(u) => serial_script_url_of(elements_view(scripts@)) == Ok::<Seq<char>, ManifestFailure>(u@),
            Err(e) => serial_script_url_of(elements_view(scripts@)) == Err::<Seq<char>, ManifestFailure>(e@),
        },
{
    if scripts.len() <= 1 {
        return Err(ManifestError::NoSerialScript);
    }
    let src = match scripts[1].attributes.attr(&chars_of("src")) {
        Some(s) => s,
        None => return Err(ManifestError::NoSerialScriptSource),
    };
    match url_join("https://kodikplayer.com", src.as_str()) {
        Ok(u) => Ok(u),
        Err(e) => Err(ManifestError::InvalidSerialScriptUrl(e)),
    }
}

/// Where to post the form: the serial script's endpoint on the site.
pub fn post_url(serial_script: &SerialScript) -> (r: Result<String, ManifestError>)
    ensures
        match r {
            Ok(u) => post_url_of(serial_script@) == Ok::<Seq<char>, ManifestFailure>(u@),
            Err(e) => post_url_of(serial_script@) == Err::<Seq<char>, ManifestFailure>(e@),
        },
{
    let endpoint = match serial_script.get_endpoint() {
        Ok(e) => e,
        Err(e) => return Err(ManifestError::SerialScript(e)),
    };
    match url_join("https://kodikplayer.com", endpoint.as_str()) {
        Ok(u) => Ok(u),
        Err(e) => Err(ManifestError::InvalidEndpointUrl(e)),
    }
}

/// The manifest link of the first 360p source, unshifted with the serial
/// script's shift.
pub fn manifest_link(links: &RawKodikManifestLinks, serial_script: &SerialScript) -> (r: Result<KodikManifestLink, ManifestError>)
    ensures
        match r {
            Ok(l) => link_stage(links@, serial_script@) == Ok::<Seq<char>, ManifestFailure>(l@),
            Err(e) => link_stage(links@, serial_script@) == Err::<Seq<char>, ManifestFailure>(e@),
        },
{
    let link = match links.get_link_of_quality(360) {
        Some(l) => l,
        None => return Err(ManifestError::NoSourceOfQuality),
    };
    let caesar_shift = match serial_script.extract_caesar_shift() {
        Some(s) => s,
        None => return Err(ManifestError::NoCaesarShift),
    };
    proof {
        lemma_small_shift_fits(link.source@, caesar_shift);
    }
    match link.decrypt(caesar_shift) {
        Ok(l) => Ok(l),
        Err(e) => Err(ManifestError::Decrypt(e)),
    }
}


/// Where the getting of a manifest link stands.
#[derive(Debug)]
pub enum ManifestState {
    /// The episode's page is being fetched.
    AwaitingPage,
    /// The `urlParams` JSON is being read.
    AwaitingUrlParams { video_params: VideoParams, scripts: Vec<HtmlElement> },
    /// The serial script is being fetched.
    AwaitingSerialScript { video_params: VideoParams, url_params: UrlParams },
    /// The form has been posted; its response is being read.
    AwaitingLinks { serial_script: SerialScript },
    /// Nothing more is to be done.
    Finished,
}

/// What came of the step the caller was asked to take.
#[derive(Debug)]
pub enum ManifestEvent {
    /// The text of the fetched page.
    PageFetched(String),
    /// The URL parameters read from the JSON, or why they could not be read.
    UrlParamsRead(Result<UrlParams, String>),
    /// The text of the fetched serial script.
    SerialScriptFetched(String),
    /// The sources read from the response to the form, or why they could not be read.
    LinksRead(Result<RawKodikManifestLinks, String>),
}

/// The step the caller is to take next.
#[derive(Debug)]
pub enum ManifestAction {
    /// Fetch the page at this URL and hand back its text.
    FetchPage(String),
    /// Read this JSON text into [`UrlParams`] and hand them back.
    ReadUrlParams(String),
    /// Fetch the script at this URL and hand back its text.
    FetchSerialScript(String),
    /// Post this form, URL-encoded, to this URL and hand back the sources
    /// read from the JSON of the response.
    PostForm(String, PostPayload),
    /// The outcome.
    Done(Result<KodikManifestLink, ManifestError>),
}

/// The getting has ended with the failure `f`.
pub open spec fn finished_with(new: ManifestState, act: ManifestAction, f: ManifestFailure) -> bool {
    &&& new is Finished
    &&& act matches ManifestAction::Done(Err(e)) && e@ == f
}

/// The first state and step for the episode `episode_number` of the player
/// at `player_url`.
pub open spec fn started(player_url: Seq<char>, episode_number: u32, new: ManifestState, act: ManifestAction) -> bool {
    match page_url_of(player_url, episode_number) {
        None => finished_with(new, act, ManifestFailure::InvalidPageUrl),
        Some(u) => new is AwaitingPage && (act matches ManifestAction::FetchPage(t) && t@ == u),
    }
}

/// The state and step that follow `old` when `ev` comes.
pub open spec fn step_taken(old: ManifestState, ev: ManifestEvent, new: ManifestState, act: ManifestAction) -> bool {
    match (old, ev) {
        (ManifestState::AwaitingPage, ManifestEvent::PageFetched(html)) => match html_selection(html@, "script"@) {
            None => finished_with(new, act, ManifestFailure::InvalidSelector),
            Some(els) => match page_stage(els) {
                Err(f) => finished_with(new, act, f),
                Ok((vp, j)) => {
                    &&& new matches ManifestState::AwaitingUrlParams { video_params, scripts }
                        && video_params_view(video_params) == vp && elements_view(scripts@) == els
                    &&& act matches ManifestAction::ReadUrlParams(t) && t@ == j
                },
            },
        },
        (ManifestState::AwaitingUrlParams { video_params, scripts }, ManifestEvent::UrlParamsRead(res)) => match res {
            Err(m) => finished_with(new, act, ManifestFailure::InvalidUrlParams(m@)),
            Ok(p) => match serial_script_url_of(elements_view(scripts@)) {
                Err(f) => finished_with(new, act, f),
                Ok(u) => {
                    &&& new matches ManifestState::AwaitingSerialScript { video_params: v2, url_params: p2 }
                        && v2 == video_params && p2 == p
                    &&& act matches ManifestAction::FetchSerialScript(t) && t@ == u
                },
            },
        },
        (ManifestState::AwaitingSerialScript { video_params, url_params }, ManifestEvent::SerialScriptFetched(text)) => match post_url_of(text@) {
            Err(f) => finished_with(new, act, f),
            Ok(u) => {
                &&& new matches ManifestState::AwaitingLinks { serial_script } && serial_script@ == text@
                &&& act matches ManifestAction::PostForm(t, payload) && t@ == u
                    && payload.video_params == video_params && payload.url_params == url_params
                    && payload.bad_user@ == "true"@ && payload.cdn_is_working@ == "true"@
            },
        },
        (ManifestState::AwaitingLinks { serial_script }, ManifestEvent::LinksRead(res)) => match res {
            Err(m) => finished_with(new, act, ManifestFailure::InvalidManifestResponse(m@)),
            Ok(links) => match link_stage(links@, serial_script@) {
                Err(f) => finished_with(new, act, f),
                Ok(u) => new is Finished && (act matches ManifestAction::Done(Ok(l)) && l@ == u),
            },
        },
        _ => finished_with(new, act, ManifestFailure::OutOfOrder),
    }
}

/// Begins getting the manifest link of episode `episode_number` of the
/// player at `player_url`: asks for the episode's page.
pub fn start(player_url: &str, episode_number: u32) -> (r: (ManifestState, ManifestAction))
    ensures
        started(player_url@, episode_number, r.0, r.1),
{
    match page_url(player_url, episode_number) {
        Ok(u) => (ManifestState::AwaitingPage, ManifestAction::FetchPage(u)),
        Err(e) => (ManifestState::Finished, ManifestAction::Done(Err(e))),
    }
}

/// The decision that follows `event` in `state`: the next state and the
/// step the caller is to take.
pub fn step(state: ManifestState, event: ManifestEvent) -> (r: (ManifestState, ManifestAction))
    ensures
        step_taken(state, event, r.0, r.1),
{
    match (state, event) {
        (ManifestState::AwaitingPage, ManifestEvent::PageFetched(html)) => {
            let scripts = match html_select(html.as_str(), "script") {
                Ok(s) => s,
                Err(e) => return (ManifestState::Finished, ManifestAction::Done(Err(ManifestError::InvalidSelector(e)))),
            };
            match read_page_scripts(&scripts) {
                Ok((video_params, json)) => (
                    ManifestState::AwaitingUrlParams { video_params, scripts },
                    ManifestAction::ReadUrlParams(json),
                ),
                Err(e) => (ManifestState::Finished, ManifestAction::Done(Err(e))),
            }
        },
        (ManifestState::AwaitingUrlParams { video_params, scripts }, ManifestEvent::UrlParamsRead(res)) => {
            let url_params = match res {
                Ok(p) => p,
                Err(m) => return (
                    ManifestState::Finished,
                    ManifestAction::Done(Err(ManifestError::UrlParams(UrlParamsError::InvalidJson(m)))),
                ),
            };
            match serial_script_url(&scripts) {
                Ok(u) => (
                    ManifestState::AwaitingSerialScript { video_params, url_params },
                    ManifestAction::FetchSerialScript(u),
                ),
                Err(e) => (ManifestState::Finished, ManifestAction::Done(Err(e))),
            }
        },
        (ManifestState::AwaitingSerialScript { video_params, url_params }, ManifestEvent::SerialScriptFetched(text)) => {
            let serial_script = SerialScript::new(text);
            match post_url(&serial_script) {
                Ok(u) => (
                    ManifestState::AwaitingLinks { serial_script },
                    ManifestAction::PostForm(u, PostPayload::from_params(url_params, video_params)),
                ),
                Err(e) => (ManifestState::Finished, ManifestAction::Done(Err(e))),
            }
        },
        (ManifestState::AwaitingLinks { serial_script }, ManifestEvent::LinksRead(res)) => {
            let links = match res {
                Ok(l) => l,
                Err(m) => return (
                    ManifestState::Finished,
                    ManifestAction::Done(Err(ManifestError::InvalidManifestResponse(m))),
                ),
            };
            match manifest_link(&links, &serial_script) {
                Ok(l) => (ManifestState::Finished, ManifestAction::Done(Ok(l))),
                Err(e) => (ManifestState::Finished, ManifestAction::Done(Err(e))),
            }
        },
        _ => (ManifestState::Finished, ManifestAction::Done(Err(ManifestError::OutOfOrder))),
    }
}

} // verus!
