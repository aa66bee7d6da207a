//! The player page and the scripts it loads: video parameters, the serial
//! script's hidden endpoint and shift, dubs and episodes, and the
//! manifest links the player hands out.
use vstd::prelude::*;
use vstd::string::StringSliceAdditionalSpecFns;
use crate::text::{
    chars_of, chars_eq, lines, lines_vec, views, split_once, split_once_vec, contains,
    contains_chars, starts_with, starts_with_chars, string_of,
};
use crate::numbers::{IntErrorKind, parse_unsigned, parse_u32, parse_u8, decimal, decimal_u32};
use crate::js::{last_vinfo, parse_vinfo_assignment};
use crate::html::{TagAttributes, attr_lookup};
use crate::external::{
    base64_decode, base64_standard_decoding, regex_capture, regex_first_capture, string_from_utf8,
    url_parse, url_parsing, push_char,
};

verus! {

/// The script of the player page that sets up the video.
#[derive(Debug)]
pub struct PlayerScript(String);

impl View for PlayerScript {
    type V = Seq<char>;

    closed spec fn view(&self) -> Seq<char> {
        self.0@
    }
}

impl PlayerScript {
    /// Wraps the text of the player script.
    pub fn new(player_script: String) -> (r: PlayerScript)
        ensures
            r@ == player_script@,
    {
        PlayerScript(player_script)
    }

    /// The text of the script.
    pub fn script(&self) -> (r: &str)
        ensures
            r@ == self@,
    {
        self.0.as_str()
    }
}


/// The parameters of the video that the player script assigns to
/// `vInfo.hash`, `vInfo.id` and `vInfo.type`.
#[derive(Debug)]
pub struct VideoParams {
    pub hash: String,
    pub id: String,
    pub video_type: String,
}

/// A missing video parameter.
#[derive(Debug, Clone, Copy, PartialEq, Eq, Structural)]
pub enum VideoParamsError {
    NoHash,
    NoId,
    NoType,
}

/// The video parameters of a script as mathematical values, or the first
/// one (in the order hash, id, type) that no line assigns.
pub open spec fn video_params_of(script: Seq<char>) -> Result<(Seq<char>, Seq<char>, Seq<char>), VideoParamsError> {
    let ls = lines(script);
    match last_vinfo(ls, "hash"@) {
        None => Err(VideoParamsError::NoHash),
        Some(h) => match last_vinfo(ls, "id"@) {
            None => Err(VideoParamsError::NoId),
            Some(i) => match last_vinfo(ls, "type"@) {
                None => Err(VideoParamsError::NoType),
                Some(t) => Ok((h, i, t)),
            },
        },
    }
}

impl PlayerScript {
    /// The video parameters: for each of `hash`, `id` and `type`, the value
    /// of the last line `vInfo.<key> = '<value>';` of the script.
    pub fn get_video_params(&self) -> (r: Result<VideoParams, VideoParamsError>)
        ensures
            match r {
                Ok(p) => video_params_of(self@) == Ok::<(Seq<char>, Seq<char>, Seq<char>), VideoParamsError>(
                    (p.hash@, p.id@, p.video_type@),
                ),
                Err(e) => video_params_of(self@) == Err::<(Seq<char>, Seq<char>, Seq<char>), VideoParamsError>(e),
            },
    {
        let script = chars_of(self.script());
        let ls = lines_vec(&script);
        let ghost lv = views(ls@);
        let key_hash = chars_of("hash");
        let key_id = chars_of("id");
        let key_type = chars_of("type");
        let mut hash: Option<Vec<char>> = None;
        let mut id: Option<Vec<char>> = None;
        let mut video_type: Option<Vec<char>> = None;
        let mut k: usize = 0;
        assert(lv.take(0) == Seq::<Seq<char>>::empty());
        proof {
            reveal_strlit("hash");
            reveal_strlit("id");
            reveal_strlit("type");
            assert("hash"@.len() == 4 && "id"@.len() == 2 && "type"@.len() == 4);
            assert("hash"@ != "id"@);
            assert("type"@ != "id"@);
            assert("hash"@[0] != "type"@[0]);
            assert("hash"@ != "type"@);
        }
        while k < ls.len()
            invariant
                k <= ls.len(),
                lv == views(ls@),
                lv == lines(script@),
                key_hash@ == "hash"@,
                key_id@ == "id"@,
                key_type@ == "type"@,
                "hash"@ != "id"@,
                "type"@ != "id"@,
                "hash"@ != "type"@,
                opt_view(hash) == last_vinfo(lv.take(k as int), "hash"@),
                opt_view(id) == last_vinfo(lv.take(k as int), "id"@),
                opt_view(video_type) == last_vinfo(lv.take(k as int), "type"@),
            decreases ls.len() - k,
        {
            assert(lv.take(k + 1).drop_last() == lv.take(k as int));
            assert(lv.take(k + 1).last() == ls@[k as int]@);
            match parse_vinfo_assignment(&ls[k]) {
                Some((key, value)) => {
                    if chars_eq(&key, &key_hash) {
                        hash = Some(value);
                    } else if chars_eq(&key, &key_id) {
                        id = Some(value);
                    } else if chars_eq(&key, &key_type) {
                        video_type = Some(value);
                    }
                },
                None => {},
            }
            k += 1;
        }
        assert(lv.take(ls.len() as int) == lv);
        let hash = match hash {
            Some(h) => h,
            None => return Err(VideoParamsError::NoHash),
        };
        let id = match id {
            Some(i) => i,
            None => return Err(VideoParamsError::NoId),
        };
        let video_type = match video_type {
            Some(t) => t,
            None => return Err(VideoParamsError::NoType),
        };
        Ok(VideoParams { hash: string_of(&hash), id: string_of(&id), video_type: string_of(&video_type) })
    }
}

/// The contents of an optional character vector.
pub open spec fn opt_view(o: Option<Vec<char>>) -> Option<Seq<char>> {
    match o {
        Some(v) => Some(v@),
        None => None,
    }
}

/// The script that the serial player loads, which hides the endpoint to ask
/// for manifests and the shift that hides the manifest links.
#[derive(Debug)]
pub struct SerialScript(String);

impl View for SerialScript {
    type V = Seq<char>;

    closed spec fn view(&self) -> Seq<char> {
        self.0@
    }
}

/// Why no endpoint could be read from the serial script.
#[derive(Debug)]
pub enum SerialScriptError {
    EndpointNotFound,
    EndpointDecodeError(base64::DecodeError),
    EndpointInvalidUtf8(std::string::FromUtf8Error),
}

/// The text that `url:atob("<text>")` passes in the script.
pub open spec fn endpoint_text(script: Seq<char>) -> Option<Seq<char>> {
    match split_once(script, "url:atob(\""@) {
        Some((_, rest)) => match split_once(rest, "\")"@) {
            Some((e, _)) => Some(e),
            None => None,
        },
        None => None,
    }
}

/// The pattern that finds the Caesar shift in the serial script: the number
/// added to `charCodeAt(0)`.
pub open spec fn caesar_shift_pattern() -> Seq<char> {
    "charCodeAt\\s*\\(\\s*0\\s*\\)\\s*\\+\\s*(\\d+)"@
}

/// A shift read from its digits: a `u8` below 26.
pub open spec fn shift_of_digits(d: Seq<char>) -> Option<u8> {
    match parse_unsigned(d, u8::MAX as int) {
        Ok(v) => if v < 26 {
            Some(v as u8)
        } else {
            None
        },
        Err(_) => None,
    }
}

/// The shift to a script's manifest links: the first number added to
/// `charCodeAt(0)`, where it is below 26.
pub open spec fn caesar_shift_of(script: Seq<char>) -> Option<u8> {
    match regex_first_capture(caesar_shift_pattern(), script, 1) {
        Some(d) => shift_of_digits(d),
        None => None,
    }
}

/// The shift that the digits `d` stand for, where they read as a `u8` below 26.
pub fn caesar_shift_from_digits(d: &[char]) -> (r: Option<u8>)
    ensures
        r == shift_of_digits(d@),
        r matches Some(s) ==> s < 26,
{
    match parse_u8(d) {
        Ok(v) => if v < 26 {
            Some(v)
        } else {
            None
        },
        Err(_) => None,
    }
}

/// The endpoint text, once decoded: the text its bytes encode in UTF-8.
pub fn endpoint_from_bytes(bytes: Vec<u8>) -> (r: Result<String, SerialScriptError>)
    ensures
        match r {
            Ok(s) => vstd::utf8::valid_utf8(bytes@) && s@ == vstd::utf8::decode_utf8(bytes@),
            Err(e) => !vstd::utf8::valid_utf8(bytes@) && e is EndpointInvalidUtf8,
        },
{
    match string_from_utf8(bytes) {
        Ok(s) => Ok(s),
        Err(e) => Err(SerialScriptError::EndpointInvalidUtf8(e)),
    }
}

impl SerialScript {
    /// Wraps the text of the serial script.
    pub fn new(script: String) -> (r: SerialScript)
        ensures
            r@ == script@,
    {
        SerialScript(script)
    }

    /// The text of the script.
    pub fn script(&self) -> (r: &str)
        ensures
            r@ == self@,
    {
        self.0.as_str()
    }

    /// The base64 text of the hidden endpoint: what stands in the first
    /// `url:atob("...")` of the script.
    pub fn extract_endpoint(&self) -> (r: Option<String>)
        ensures
            match r {
                Some(e) => endpoint_text(self@) == Some(e@),
                None => endpoint_text(self@) is None,
            },
    {
        let script = chars_of(self.script());
        let rest = match split_once_vec(&script, &chars_of("url:atob(\"")) {
            Some((_, rest)) => rest,
            None => return None,
        };
        match split_once_vec(&rest, &chars_of("\")")) {
            Some((e, _)) => Some(string_of(&e)),
            None => None,
        }
    }

    /// The hidden endpoint: the extracted text, base64-decoded, as UTF-8.
    pub fn get_endpoint(&self) -> (r: Result<String, SerialScriptError>)
        ensures
            match endpoint_text(self@) {
                None => r matches Err(SerialScriptError::EndpointNotFound),
                Some(t) => match base64_standard_decoding(t) {
                    None => r matches Err(SerialScriptError::EndpointDecodeError(_)),
                    Some(bytes) => match r {
                        Ok(s) => vstd::utf8::valid_utf8(bytes) && s@ == vstd::utf8::decode_utf8(bytes),
                        Err(e) => !vstd::utf8::valid_utf8(bytes) && e is EndpointInvalidUtf8,
                    },
                },
            },
    {
        let coded = match self.extract_endpoint() {
            Some(c) => c,
            None => return Err(SerialScriptError::EndpointNotFound),
        };
        let decoded = match base64_decode(coded.as_str()) {
            Ok(d) => d,
            Err(e) => return Err(SerialScriptError::EndpointDecodeError(e)),
        };
        endpoint_from_bytes(decoded)
    }

    /// The shift that hides the manifest links: the first number the script
    /// adds to `charCodeAt(0)`, where it reads as a `u8` below 26.
    pub fn extract_caesar_shift(&self) -> (r: Option<u8>)
        ensures
            r == caesar_shift_of(self@),
            r matches Some(s) ==> s < 26,
    {
        let captured = match regex_capture(
            "charCodeAt\\s*\\(\\s*0\\s*\\)\\s*\\+\\s*(\\d+)",
            self.script(),
            1,
        ) {
            Ok(Some(d)) => d,
            _ => return None,
        };
        caesar_shift_from_digits(&chars_of(captured.as_str()))
    }
}


/// Why a dub option tag could not be read.
#[derive(Debug, Clone, Copy, PartialEq, Eq, Structural)]
pub enum PageTranslationInfoError {
    NoTitle,
    InvalidEpisodeCount(IntErrorKind),
    NoId,
    InvalidId(IntErrorKind),
    NoMediaHash,
    NoMediaId,
    InvalidMediaId(IntErrorKind),
    NoMediaType,
    NoEpisodeCount,
    NoPageTranslationType,
    NoValue,
    InvalidValue(IntErrorKind),
    ValueAndIdNotMatch { value: u32, id: u32 },
}

/// What kind of media a dub option tag describes.
#[derive(Debug)]
pub enum MediaType {
    /// A serial with this many episodes.
    Serial(u32),
    Video,
    Other(String),
}

/// A media type as a mathematical value.
pub enum MediaTypeView {
    Serial(u32),
    Video,
    Other(Seq<char>),
}

impl View for MediaType {
    type V = MediaTypeView;

    open spec fn view(&self) -> MediaTypeView {
        match self {
            MediaType::Serial(n) => MediaTypeView::Serial(*n),
            MediaType::Video => MediaTypeView::Video,
            MediaType::Other(s) => MediaTypeView::Other(s@),
        }
    }
}

/// The media type that `media_type` names, with the episode count a serial
/// needs.
pub open spec fn media_type_of(media_type: Seq<char>, episode_count: Option<Seq<char>>) -> Result<
    MediaTypeView,
    PageTranslationInfoError,
> {
    if media_type == "serial"@ {
        match episode_count {
            None => Err(PageTranslationInfoError::NoEpisodeCount),
            Some(c) => match parse_unsigned(c, u32::MAX as int) {
                Ok(n) => Ok(MediaTypeView::Serial(n as u32)),
                Err(k) => Err(PageTranslationInfoError::InvalidEpisodeCount(k)),
            },
        }
    } else if media_type == "video"@ {
        Ok(MediaTypeView::Video)
    } else {
        Ok(MediaTypeView::Other(media_type))
    }
}

/// An optional text as a mathematical value.
pub open spec fn opt_str_view(o: Option<&str>) -> Option<Seq<char>> {
    match o {
        Some(s) => Some(s@),
        None => None,
    }
}

impl MediaType {
    /// `serial` (with its episode count, which must read as a `u32`),
    /// `video`, or any other type as it stands.
    pub fn parse(media_type: &str, episode_count: Option<&str>) -> (r: Result<MediaType, PageTranslationInfoError>)
        ensures
            match r {
                Ok(m) => media_type_of(media_type@, opt_str_view(episode_count)) == Ok::<MediaTypeView, PageTranslationInfoError>(m@),
                Err(e) => media_type_of(media_type@, opt_str_view(episode_count)) == Err::<MediaTypeView, PageTranslationInfoError>(e),
            },
    {
        let count = match episode_count {
            Some(c) => Some(chars_of(c)),
            None => None,
        };
        MediaType::parse_chars(&chars_of(media_type), count)
    }

    /// `MediaType::parse` on character sequences.
    pub fn parse_chars(media_type: &[char], episode_count: Option<Vec<char>>) -> (r: Result<MediaType, PageTranslationInfoError>)
        ensures
            match r {
                Ok(m) => media_type_of(media_type@, opt_view(episode_count)) == Ok::<MediaTypeView, PageTranslationInfoError>(m@),
                Err(e) => media_type_of(media_type@, opt_view(episode_count)) == Err::<MediaTypeView, PageTranslationInfoError>(e),
            },
    {
        if chars_eq(media_type, &chars_of("serial")) {
            match episode_count {
                None => Err(PageTranslationInfoError::NoEpisodeCount),
                Some(c) => match parse_u32(&c) {
                    Ok(n) => Ok(MediaType::Serial(n)),
                    Err(k) => Err(PageTranslationInfoError::InvalidEpisodeCount(k)),
                },
            }
        } else if chars_eq(media_type, &chars_of("video")) {
            Ok(MediaType::Video)
        } else {
            Ok(MediaType::Other(string_of(media_type)))
        }
    }
}

/// How a dub is made: voice-over, subtitles, or otherwise.
#[derive(Debug)]
pub enum PageTranslationType {
    Voice,
    Subtitles,
    Other(String),
}

/// A dub kind as a mathematical value.
pub enum PageTranslationTypeView {
    Voice,
    Subtitles,
    Other(Seq<char>),
}

impl View for PageTranslationType {
    type V = PageTranslationTypeView;

    open spec fn view(&self) -> PageTranslationTypeView {
        match self {
            PageTranslationType::Voice => PageTranslationTypeView::Voice,
            PageTranslationType::Subtitles => PageTranslationTypeView::Subtitles,
            PageTranslationType::Other(s) => PageTranslationTypeView::Other(s@),
        }
    }
}

/// The dub kind a text names.
pub open spec fn translation_type_of(value: Seq<char>) -> PageTranslationTypeView {
    if value == "voice"@ {
        PageTranslationTypeView::Voice
    } else if value == "subtitles"@ {
        PageTranslationTypeView::Subtitles
    } else {
        PageTranslationTypeView::Other(value)
    }
}

impl PageTranslationType {
    /// `voice`, `subtitles`, or any other type as it stands.
    pub fn from(value: &str) -> (r: PageTranslationType)
        ensures
            r@ == translation_type_of(value@),
    {
        PageTranslationType::from_chars(&chars_of(value))
    }

    /// `PageTranslationType::from` on a character sequence.
    pub fn from_chars(value: &[char]) -> (r: PageTranslationType)
        ensures
            r@ == translation_type_of(value@),
    {
        if chars_eq(value, &chars_of("voice")) {
            PageTranslationType::Voice
        } else if chars_eq(value, &chars_of("subtitles")) {
            PageTranslationType::Subtitles
        } else {
            PageTranslationType::Other(string_of(value))
        }
    }
}

/// A dub offered on the player page, as its `<option>` tag
/// describes it.
#[derive(Debug)]
pub struct PageTranslationInfo {
    title: String,
    id: u32,
    media_hash: String,
    media_id: u32,
    media_type: MediaType,
    translation_type: PageTranslationType,
    selected: bool,
}

/// A dub as a mathematical value.
pub struct PageTranslationInfoView {
    pub title: Seq<char>,
    pub id: u32,
    pub media_hash: Seq<char>,
    pub media_id: u32,
    pub media_type: MediaTypeView,
    pub translation_type: PageTranslationTypeView,
    pub selected: bool,
}

impl View for PageTranslationInfo {
    type V = PageTranslationInfoView;

    closed spec fn view(&self) -> PageTranslationInfoView {
        PageTranslationInfoView {
            title: self.title@,
            id: self.id,
            media_hash: self.media_hash@,
            media_id: self.media_id,
            media_type: self.media_type@,
            translation_type: self.translation_type@,
            selected: self.selected,
        }
    }
}

/// A required attribute that reads as a `u32`.
pub open spec fn u32_attr(
    a: Seq<(Seq<char>, Seq<char>)>,
    name: Seq<char>,
    missing: PageTranslationInfoError,
    invalid: spec_fn(IntErrorKind) -> PageTranslationInfoError,
) -> Result<u32, PageTranslationInfoError> {
    match attr_lookup(a, name) {
        None => Err(missing),
        Some(t) => match parse_unsigned(t, u32::MAX as int) {
            Ok(v) => Ok(v as u32),
            Err(k) => Err(invalid(k)),
        },
    }
}

/// What a dub option tag with attributes `a` describes, or the first
/// reason (in the order the attributes are read) it describes none.
pub open spec fn translation_info_of(a: Seq<(Seq<char>, Seq<char>)>) -> Result<PageTranslationInfoView, PageTranslationInfoError> {
    match attr_lookup(a, "data-title"@) {
        None => Err(PageTranslationInfoError::NoTitle),
        Some(title) => match u32_attr(a, "data-id"@, PageTranslationInfoError::NoId, |k| PageTranslationInfoError::InvalidId(k)) {
            Err(e) => Err(e),
            Ok(id) => match attr_lookup(a, "data-media-hash"@) {
                None => Err(PageTranslationInfoError::NoMediaHash),
                Some(media_hash) => match u32_attr(a, "data-media-id"@, PageTranslationInfoError::NoMediaId, |k| PageTranslationInfoError::InvalidMediaId(k)) {
                    Err(e) => Err(e),
                    Ok(media_id) => match attr_lookup(a, "data-media-type"@) {
                        None => Err(PageTranslationInfoError::NoMediaType),
                        Some(mt) => match media_type_of(mt, attr_lookup(a, "data-episode-count"@)) {
                            Err(e) => Err(e),
                            Ok(media_type) => match attr_lookup(a, "data-translation-type"@) {
                                None => Err(PageTranslationInfoError::NoPageTranslationType),
                                Some(tt) => match u32_attr(a, "value"@, PageTranslationInfoError::NoValue, |k| PageTranslationInfoError::InvalidValue(k)) {
                                    Err(e) => Err(e),
                                    Ok(value) => if value != id {
                                        Err(PageTranslationInfoError::ValueAndIdNotMatch { value, id })
                                    } else {
                                        Ok(PageTranslationInfoView {
                                            title,
                                            id,
                                            media_hash,
                                            media_id,
                                            media_type,
                                            translation_type: translation_type_of(tt),
                                            selected: attr_lookup(a, "selected"@) is Some,
                                        })
                                    },
                                },
                            },
                        },
                    },
                },
            },
        },
    }
}

impl PageTranslationInfo {
    /// Reads a dub from the attributes of its tag: `data-title`,
    /// `data-id`, `data-media-hash`, `data-media-id`, `data-media-type`
    /// (with `data-episode-count` for a serial), `data-translation-type`,
    /// `selected`, and `value`, which must equal `data-id`.
    pub fn try_from(element: &TagAttributes) -> (r: Result<PageTranslationInfo, PageTranslationInfoError>)
        ensures
            match r {
                Ok(t) => translation_info_of(element@) == Ok::<PageTranslationInfoView, PageTranslationInfoError>(t@),
                Err(e) => translation_info_of(element@) == Err::<PageTranslationInfoView, PageTranslationInfoError>(e),
            },
    {
        let title = match element.attr(&chars_of("data-title")) {
            Some(t) => t,
            None => return Err(PageTranslationInfoError::NoTitle),
        };
        let id = match element.attr(&chars_of("data-id")) {
            None => return Err(PageTranslationInfoError::NoId),
            Some(t) => match parse_u32(&chars_of(t.as_str())) {
                Ok(v) => v,
                Err(k) => return Err(PageTranslationInfoError::InvalidId(k)),
            },
        };
        let media_hash = match element.attr(&chars_of("data-media-hash")) {
            Some(t) => t,
            None => return Err(PageTranslationInfoError::NoMediaHash),
        };
        let media_id = match element.attr(&chars_of("data-media-id")) {
            None => return Err(PageTranslationInfoError::NoMediaId),
            Some(t) => match parse_u32(&chars_of(t.as_str())) {
                Ok(v) => v,
                Err(k) => return Err(PageTranslationInfoError::InvalidMediaId(k)),
            },
        };
        let media_type_text = match element.attr(&chars_of("data-media-type")) {
            Some(t) => t,
            None => return Err(PageTranslationInfoError::NoMediaType),
        };
        let episode_count = match element.attr(&chars_of("data-episode-count")) {
            Some(c) => Some(chars_of(c.as_str())),
            None => None,
        };
        let media_type = match MediaType::parse_chars(&chars_of(media_type_text.as_str()), episode_count) {
            Ok(m) => m,
            Err(e) => return Err(e),
        };
        let translation_type = match element.attr(&chars_of("data-translation-type")) {
            Some(t) => PageTranslationType::from(t.as_str()),
            None => return Err(PageTranslationInfoError::NoPageTranslationType),
        };
        let selected = element.has_attr(&chars_of("selected"));
        let value = match element.attr(&chars_of("value")) {
            None => return Err(PageTranslationInfoError::NoValue),
            Some(t) => match parse_u32(&chars_of(t.as_str())) {
                Ok(v) => v,
                Err(k) => return Err(PageTranslationInfoError::InvalidValue(k)),
            },
        };
        if value != id {
            return Err(PageTranslationInfoError::ValueAndIdNotMatch { value, id });
        }
        Ok(PageTranslationInfo { title, id, media_hash, media_id, media_type, translation_type, selected })
    }
}


/// An episode offered on the player page, as its `<option>` tag describes it.
#[derive(Debug)]
pub struct EpisodeInfo {
    title: String,
    hash: String,
    id: u32,
    translation_title: Option<String>,
    selected: bool,
    number: u32,
    other_translation: bool,
}

/// An episode as a mathematical value.
pub struct EpisodeInfoView {
    pub title: Seq<char>,
    pub hash: Seq<char>,
    pub id: u32,
    pub translation_title: Option<Seq<char>>,
    pub selected: bool,
    pub number: u32,
    pub other_translation: bool,
}

pub open spec fn opt_string_view(o: Option<String>) -> Option<Seq<char>> {
    match o {
        Some(s) => Some(s@),
        None => None,
    }
}

impl View for EpisodeInfo {
    type V = EpisodeInfoView;

    closed spec fn view(&self) -> EpisodeInfoView {
        EpisodeInfoView {
            title: self.title@,
            hash: self.hash@,
            id: self.id,
            translation_title: opt_string_view(self.translation_title),
            selected: self.selected,
            number: self.number,
            other_translation: self.other_translation,
        }
    }
}

/// Why an episode tag could not be read.
#[derive(Debug, Clone, Copy, PartialEq, Eq, Structural)]
pub enum EpisodeInfoError {
    InvalidId(IntErrorKind),
    InvalidNumber(IntErrorKind),
    NoTitle,
    NoHash,
    NoId,
    NoValue,
    NoOtherPageTranslation,
}

/// What an episode tag with attributes `a` describes, or the first reason
/// (in the order the attributes are read) it describes none.
pub open spec fn episode_info_of(a: Seq<(Seq<char>, Seq<char>)>) -> Result<EpisodeInfoView, EpisodeInfoError> {
    match attr_lookup(a, "data-title"@) {
        None => Err(EpisodeInfoError::NoTitle),
        Some(title) => match attr_lookup(a, "data-hash"@) {
            None => Err(EpisodeInfoError::NoHash),
            Some(hash) => match attr_lookup(a, "data-id"@) {
                None => Err(EpisodeInfoError::NoId),
                Some(id_text) => match parse_unsigned(id_text, u32::MAX as int) {
                    Err(k) => Err(EpisodeInfoError::InvalidId(k)),
                    Ok(id) => match attr_lookup(a, "value"@) {
                        None => Err(EpisodeInfoError::NoValue),
                        Some(number_text) => match parse_unsigned(number_text, u32::MAX as int) {
                            Err(k) => Err(EpisodeInfoError::InvalidNumber(k)),
                            Ok(number) => match attr_lookup(a, "data-other-translation"@) {
                                None => Err(EpisodeInfoError::NoOtherPageTranslation),
                                Some(other) => Ok(EpisodeInfoView {
                                    title,
                                    hash,
                                    id: id as u32,
                                    translation_title: attr_lookup(a, "data-translation-title"@),
                                    selected: attr_lookup(a, "selected"@) is Some,
                                    number: number as u32,
                                    other_translation: other == "true"@,
                                }),
                            },
                        },
                    },
                },
            },
        },
    }
}

impl EpisodeInfo {
    /// Reads an episode from the attributes of its tag: `data-title`,
    /// `data-hash`, `data-id`, `data-translation-title` (optional),
    /// `selected`, `value` (the episode number) and
    /// `data-other-translation` (`true` or anything else, which counts as
    /// false).
    pub fn try_from(element: &TagAttributes) -> (r: Result<EpisodeInfo, EpisodeInfoError>)
        ensures
            match r {
                Ok(t) => episode_info_of(element@) == Ok::<EpisodeInfoView, EpisodeInfoError>(t@),
                Err(e) => episode_info_of(element@) == Err::<EpisodeInfoView, EpisodeInfoError>(e),
            },
    {
        let title = match element.attr(&chars_of("data-title")) {
            Some(t) => t,
            None => return Err(EpisodeInfoError::NoTitle),
        };
        let hash = match element.attr(&chars_of("data-hash")) {
            Some(t) => t,
            None => return Err(EpisodeInfoError::NoHash),
        };
        let id = match element.attr(&chars_of("data-id")) {
            None => return Err(EpisodeInfoError::NoId),
            Some(t) => match parse_u32(&chars_of(t.as_str())) {
                Ok(v) => v,
                Err(k) => return Err(EpisodeInfoError::InvalidId(k)),
            },
        };
        let translation_title = element.attr(&chars_of("data-translation-title"));
        let selected = element.has_attr(&chars_of("selected"));
        let number = match element.attr(&chars_of("value")) {
            None => return Err(EpisodeInfoError::NoValue),
            Some(t) => match parse_u32(&chars_of(t.as_str())) {
                Ok(v) => v,
                Err(k) => return Err(EpisodeInfoError::InvalidNumber(k)),
            },
        };
        let other_translation = match element.attr(&chars_of("data-other-translation")) {
            Some(t) => chars_eq(&chars_of(t.as_str()), &chars_of("true")),
            None => return Err(EpisodeInfoError::NoOtherPageTranslation),
        };
        Ok(EpisodeInfo { title, hash, id, translation_title, selected, number, other_translation })
    }
}

/// The script of the player page that declares `urlParams`.
#[derive(Debug)]
pub struct UrlParamsScript(String);

impl View for UrlParamsScript {
    type V = Seq<char>;

    closed spec fn view(&self) -> Seq<char> {
        self.0@
    }
}

/// Why the `urlParams` of the page could not be had.
#[derive(Debug, Clone, PartialEq, Eq)]
pub enum UrlParamsError {
    /// The script declares no `var urlParams = '...';`.
    NotFound,
    /// The declared text is not the JSON of the parameters; the message says why.
    InvalidJson(String),
}

impl UrlParamsScript {
    /// Wraps the text of the script.
    pub fn new(script: String) -> (r: UrlParamsScript)
        ensures
            r@ == script@,
    {
        UrlParamsScript(script)
    }

    /// The text of the script.
    pub fn script(&self) -> (r: &str)
        ensures
            r@ == self@,
    {
        self.0.as_str()
    }

    /// The JSON text of the URL parameters: the quoted value of the first
    /// `var urlParams = '...';` line.  Reading the JSON into [`UrlParams`]
    /// is the caller's.
    pub fn url_params_json(&self) -> (r: Result<String, UrlParamsError>)
        ensures
            match r {
                Ok(j) => crate::js::js_var_quoted("urlParams"@, self@) == Some(j@),
                Err(e) => crate::js::js_var_quoted("urlParams"@, self@) is None && e == UrlParamsError::NotFound,
            },
    {
        match crate::js::find_js_var_quoted(&chars_of("urlParams"), &chars_of(self.script())) {
            Some(j) => Ok(string_of(&j)),
            None => Err(UrlParamsError::NotFound),
        }
    }
}

/// The URL parameters the page declares (the domain it is embedded in, the
/// parent domain, the referer, and a signature of each).
#[derive(Debug, Clone)]
pub struct UrlParams {
    pub domain: String,
    pub domain_sign: String,
    pub parent_domain: String,
    pub parent_domain_sign: String,
    pub referer: String,
    pub referer_sign: String,
}

/// The form that asks for the manifest links: the video and URL
/// parameters, with `bad_user` and `cdn_is_working` both `"true"`.
#[derive(Debug)]
pub struct PostPayload {
    pub video_params: VideoParams,
    pub url_params: UrlParams,
    pub bad_user: String,
    pub cdn_is_working: String,
}

impl PostPayload {
    /// The form for these parameters.
    pub fn from_params(url_params: UrlParams, video_params: VideoParams) -> (r: PostPayload)
        ensures
            r.url_params == url_params,
            r.video_params == video_params,
            r.bad_user@ == "true"@,
            r.cdn_is_working@ == "true"@,
    {
        PostPayload {
            video_params,
            url_params,
            bad_user: string_of(&chars_of("true")),
            cdn_is_working: string_of(&chars_of("true")),
        }
    }
}


/// One source of a video as the manifest response lists it: its (possibly
/// hidden) link and its type.
#[derive(Debug, Clone)]
pub struct RawKodikManifestLink {
    pub source: String,
    pub source_type: String,
}

/// A manifest source as a mathematical value.
pub open spec fn raw_link_view(l: RawKodikManifestLink) -> (Seq<char>, Seq<char>) {
    (l.source@, l.source_type@)
}

/// The sources listed for one quality, as mathematical values.
pub open spec fn raw_links_view(v: Seq<RawKodikManifestLink>) -> Seq<(Seq<char>, Seq<char>)> {
    Seq::new(v.len(), |i: int| raw_link_view(v[i]))
}

/// The qualities and their sources as mathematical values.
pub open spec fn quality_table_view(v: Seq<(String, Vec<RawKodikManifestLink>)>) -> Seq<
    (Seq<char>, Seq<(Seq<char>, Seq<char>)>),
> {
    Seq::new(v.len(), |i: int| (v[i].0@, raw_links_view(v[i].1@)))
}

/// No quality is listed twice.
pub open spec fn distinct_qualities(t: Seq<(Seq<char>, Seq<(Seq<char>, Seq<char>)>)>) -> bool {
    forall|i: int, j: int| 0 <= i < j < t.len() ==> t[i].0 != t[j].0
}

/// The sources listed under `key`.
pub open spec fn sources_for(t: Seq<(Seq<char>, Seq<(Seq<char>, Seq<char>)>)>, key: Seq<char>) -> Option<
    Seq<(Seq<char>, Seq<char>)>,
>
    decreases t.len(),
{
    if t.len() == 0 {
        None
    } else if t[0].0 == key {
        Some(t[0].1)
    } else {
        sources_for(t.drop_first(), key)
    }
}

/// The first source listed for `quality` (its number written in decimal).
pub open spec fn link_of_quality(t: Seq<(Seq<char>, Seq<(Seq<char>, Seq<char>)>)>, quality: u32) -> Option<
    (Seq<char>, Seq<char>),
> {
    match sources_for(t, decimal(quality as nat)) {
        Some(links) => if links.len() > 0 {
            Some(links[0])
        } else {
            None
        },
        None => None,
    }
}

/// The manifest response: the sources of the video, by quality.
#[derive(Debug)]
pub struct RawKodikManifestLinks {
    links: Vec<(String, Vec<RawKodikManifestLink>)>,
}

impl View for RawKodikManifestLinks {
    type V = Seq<(Seq<char>, Seq<(Seq<char>, Seq<char>)>)>;

    closed spec fn view(&self) -> Seq<(Seq<char>, Seq<(Seq<char>, Seq<char>)>)> {
        quality_table_view(self.links@)
    }
}

impl RawKodikManifestLinks {
    #[verifier::type_invariant]
    closed spec fn qualities_distinct(self) -> bool {
        distinct_qualities(quality_table_view(self.links@))
    }

    /// The table of these sources, where no quality is listed twice (as in
    /// the response's map from quality to sources).
    pub fn new(links: Vec<(String, Vec<RawKodikManifestLink>)>) -> (r: Option<RawKodikManifestLinks>)
        ensures
            r is Some <==> distinct_qualities(quality_table_view(links@)),
            r matches Some(t) ==> t@ == quality_table_view(links@),
    {
        let ghost t = quality_table_view(links@);
        let mut i: usize = 0;
        while i < links.len()
            invariant
                i <= links.len(),
                t == quality_table_view(links@),
                forall|a: int, b: int| 0 <= a < b < t.len() && a < i ==> t[a].0 != t[b].0,
            decreases links.len() - i,
        {
            let ki = chars_of(links[i].0.as_str());
            let mut j: usize = i + 1;
            while j < links.len()
                invariant
                    i < j <= links.len(),
                    i < links.len(),
                    t == quality_table_view(links@),
                    ki@ == t[i as int].0,
                    forall|a: int, b: int| 0 <= a < b < t.len() && a < i ==> t[a].0 != t[b].0,
                    forall|b: int| i < b < j ==> t[i as int].0 != #[trigger] t[b].0,
                decreases links.len() - j,
            {
                if chars_eq(&ki, &chars_of(links[j].0.as_str())) {
                    assert(t[i as int].0 == t[j as int].0);
                    return None;
                }
                j += 1;
            }
            i += 1;
        }
        Some(RawKodikManifestLinks { links })
    }

    /// The first source listed for `quality`.
    pub fn get_link_of_quality(&self, quality: u32) -> (r: Option<&RawKodikManifestLink>)
        ensures
            match r {
                Some(l) => link_of_quality(self@, quality) == Some(raw_link_view(*l)),
                None => link_of_quality(self@, quality) is None,
            },
    {
        let key = decimal_u32(quality);
        let mut k: usize = 0;
        assert(self@.skip(0) == self@);
        while k < self.links.len()
            invariant
                k <= self.links.len(),
                self@ == quality_table_view(self.links@),
                sources_for(self@, key@) == sources_for(self@.skip(k as int), key@),
                key@ == decimal(quality as nat),
            decreases self.links.len() - k,
        {
            assert(self@.skip(k as int)[0] == self@[k as int]);
            if chars_eq(&chars_of(self.links[k].0.as_str()), &key) {
                let sources = &self.links[k].1;
                assert(self@[k as int].1 == raw_links_view(sources@));
                if sources.len() > 0 {
                    return Some(&sources[0]);
                } else {
                    return None;
                }
            }
            assert(self@.skip(k as int).drop_first() == self@.skip(k + 1));
            k += 1;
        }
        None
    }
}

/// A link to an HLS manifest of the video.
#[derive(Debug)]
pub struct KodikManifestLink {
    manifest_link: String,
}

impl View for KodikManifestLink {
    type V = Seq<char>;

    closed spec fn view(&self) -> Seq<char> {
        self.manifest_link@
    }
}

impl KodikManifestLink {
    /// The link's URL text.
    pub fn as_str(&self) -> (r: &str)
        ensures
            r@ == self@,
    {
        self.manifest_link.as_str()
    }
}

/// The text that marks a link to an HLS manifest.
pub open spec fn manifest_marker() -> Seq<char> {
    "mp4:hls:manifest"@
}

/// `value` is a link to an HLS manifest.
pub fn is_manifest_link(value: &str) -> (b: bool)
    ensures
        b == contains(value@, manifest_marker()),
{
    contains_chars(&chars_of(value), &chars_of("mp4:hls:manifest"))
}

/// The URL a manifest link stands for: a protocol-relative link `//...`
/// taken as `https:` first.
pub open spec fn manifest_url(link: Seq<char>) -> Option<Seq<char>> {
    if starts_with(link, "//"@) {
        url_parsing("https:"@ + link)
    } else {
        url_parsing(link)
    }
}

/// Parses a manifest link, a protocol-relative one as `https:`.
pub fn parse_manifest_url(protocol_rel_url: &str) -> (r: Result<String, url::ParseError>)
    ensures
        r is Ok <==> manifest_url(protocol_rel_url@) is Some,
        r matches Ok(u) ==> manifest_url(protocol_rel_url@) == Some(u@),
{
    let link = chars_of(protocol_rel_url);
    if starts_with_chars(&link, &chars_of("//")) {
        let mut full = chars_of("https:");
        let ghost head = full@;
        let mut k: usize = 0;
        while k < link.len()
            invariant
                k <= link.len(),
                full@ == head + link@.subrange(0, k as int),
            decreases link.len() - k,
        {
            full.push(link[k]);
            assert(link@.subrange(0, k + 1) == link@.subrange(0, k as int).push(link@[k as int]));
            k += 1;
        }
        assert(link@.subrange(0, link.len() as int) == link@);
        let text = string_of(&full);
        url_parse(text.as_str())
    } else {
        url_parse(protocol_rel_url)
    }
}

/// `c` is one of `A`..`Z`.
pub open spec fn is_ascii_upper(c: char) -> bool {
    0x41 <= (c as u32) <= 0x5a
}

/// `c` is one of `a`..`z`.
pub open spec fn is_ascii_lower(c: char) -> bool {
    0x61 <= (c as u32) <= 0x7a
}

/// `c` with letters moved `shift` places on in the alphabet, wrapping
/// around; other characters unchanged.
pub open spec fn shifted(c: char, shift: u8) -> char {
    if is_ascii_upper(c) {
        (((c as u32 - 0x41) + shift) % 26 + 0x41) as char
    } else if is_ascii_lower(c) {
        (((c as u32 - 0x61) + shift) % 26 + 0x61) as char
    } else {
        c
    }
}

/// Every letter's place in the alphabet plus `shift` fits in a byte, which
/// the shift computation needs.
pub open spec fn caesar_fits(text: Seq<char>, shift: u8) -> bool {
    forall|i: int|
        0 <= i < text.len() ==> {
            &&& is_ascii_upper(#[trigger] text[i]) ==> text[i] as u32 - 0x41 + shift <= 255
            &&& is_ascii_lower(text[i]) ==> text[i] as u32 - 0x61 + shift <= 255
        }
}

/// `text` with every letter shifted.
pub open spec fn caesar(text: Seq<char>, shift: u8) -> Seq<char> {
    Seq::new(text.len(), |i: int| shifted(text[i], shift))
}

/// Shifts every ASCII letter of `text` by `shift` places, wrapping around
/// the alphabet.
pub fn caesar_decrypt(text: &str, shift: u8) -> (r: String)
    requires
        caesar_fits(text@, shift),
    ensures
        r@ == caesar(text@, shift),
{
    let v = chars_of(text);
    let mut out = String::new();
    let mut k: usize = 0;
    while k < v.len()
        invariant
            k <= v.len(),
            v@ == text@,
            caesar_fits(text@, shift),
            out@ == caesar(text@, shift).subrange(0, k as int),
        decreases v.len() - k,
    {
        let c = v[k];
        let u = c as u32;
        let d = if 0x41 <= u && u <= 0x5a {
            let offset = (u - 0x41) as u8;
            (0x41u8 + (offset + shift) % 26) as char
        } else if 0x61 <= u && u <= 0x7a {
            let offset = (u - 0x61) as u8;
            (0x61u8 + (offset + shift) % 26) as char
        } else {
            c
        };
        assert(d == shifted(text@[k as int], shift));
        push_char(&mut out, d);
        assert(caesar(text@, shift).subrange(0, k + 1) == caesar(text@, shift).subrange(0, k as int).push(d));
        k += 1;
    }
    assert(caesar(text@, shift).subrange(0, v.len() as int) == caesar(text@, shift));
    out
}

/// The number of bytes of `s` in UTF-8.
pub open spec fn utf8_len(s: Seq<char>) -> int {
    vstd::utf8::encode_utf8(s).len() as int
}

/// `s` padded with `=` to a multiple of four bytes, where that can be done.
pub open spec fn padded(s: Seq<char>) -> Option<Seq<char>> {
    let r = utf8_len(s) % 4;
    if r == 0 {
        Some(s)
    } else if r == 2 {
        Some(s + "=="@)
    } else if r == 3 {
        Some(s.push('='))
    } else {
        None
    }
}

/// Why a manifest link could not be recovered.
#[derive(Debug)]
pub enum DecryptError {
    /// The unshifted text has a byte length of the form `4k + 1`, which no
    /// padding makes base64.
    InvalidBase64Length,
    Base64(base64::DecodeError),
    Utf8(std::string::FromUtf8Error),
    /// The recovered text is no manifest link.
    NotManifestLink(String),
    Url(url::ParseError),
}

/// Why a manifest link could not be recovered, as a mathematical value.
pub enum DecryptFailure {
    InvalidBase64Length,
    Base64,
    Utf8,
    NotManifestLink(Seq<char>),
    Url,
}

impl View for DecryptError {
    type V = DecryptFailure;

    open spec fn view(&self) -> DecryptFailure {
        match self {
            DecryptError::InvalidBase64Length => DecryptFailure::InvalidBase64Length,
            DecryptError::Base64(_) => DecryptFailure::Base64,
            DecryptError::Utf8(_) => DecryptFailure::Utf8,
            DecryptError::NotManifestLink(s) => DecryptFailure::NotManifestLink(s@),
            DecryptError::Url(_) => DecryptFailure::Url,
        }
    }
}

/// Pads base64 text with `=` to a multiple of four bytes; a length of the
/// form `4k + 1` is refused and the text left as it is.
pub fn pad_base64(value: &mut String) -> (r: Result<(), DecryptError>)
    ensures
        match r {
            Ok(()) => padded(old(value)@) == Some(final(value)@),
            Err(e) => padded(old(value)@) is None && final(value)@ == old(value)@ && e is InvalidBase64Length,
        },
{
    let sv = value.as_str();
    let n = sv.as_bytes().len();
    assert(n as int == utf8_len(old(value)@)) by {
        assert(sv@ == old(value)@);
        assert(sv.spec_bytes() == vstd::utf8::encode_utf8(sv@));
    }
    let r = n % 4;
    if r == 0 {
        Ok(())
    } else if r == 2 {
        push_char(value, '=');
        push_char(value, '=');
        proof {
            reveal_strlit("==");
            assert(old(value)@.push('=').push('=') =~= old(value)@ + "=="@);
        }
        Ok(())
    } else if r == 3 {
        push_char(value, '=');
        Ok(())
    } else {
        Err(DecryptError::InvalidBase64Length)
    }
}

/// The link that decoded bytes hold, as a mathematical value.
pub open spec fn link_text_of_bytes(bytes: Seq<u8>) -> Result<Seq<char>, DecryptFailure> {
    if !vstd::utf8::valid_utf8(bytes) {
        Err(DecryptFailure::Utf8)
    } else {
        let u = vstd::utf8::decode_utf8(bytes);
        if !contains(u, manifest_marker()) {
            Err(DecryptFailure::NotManifestLink(u))
        } else {
            Ok(u)
        }
    }
}

/// The manifest URL that a manifest source stands for, as a mathematical
/// value.
pub open spec fn decrypted_link(source: Seq<char>, shift: u8) -> Result<Seq<char>, DecryptFailure> {
    if contains(source, manifest_marker()) {
        match manifest_url(source) {
            Some(u) => Ok(u),
            None => Err(DecryptFailure::Url),
        }
    } else {
        match padded(caesar(source, shift)) {
            None => Err(DecryptFailure::InvalidBase64Length),
            Some(p) => match base64_standard_decoding(p) {
                None => Err(DecryptFailure::Base64),
                Some(bytes) => match link_text_of_bytes(bytes) {
                    Err(e) => Err(e),
                    Ok(u) => match manifest_url(u) {
                        Some(x) => Ok(x),
                        None => Err(DecryptFailure::Url),
                    },
                },
            },
        }
    }
}

/// The text that decoded bytes hold, where it is UTF-8 and a manifest link.
pub fn link_text_from_bytes(bytes: Vec<u8>) -> (r: Result<String, DecryptError>)
    ensures
        match r {
            Ok(s) => link_text_of_bytes(bytes@) == Ok::<Seq<char>, DecryptFailure>(s@),
            Err(e) => link_text_of_bytes(bytes@) == Err::<Seq<char>, DecryptFailure>(e@),
        },
{
    let ghost b = bytes@;
    let text = match string_from_utf8(bytes) {
        Ok(s) => s,
        Err(e) => return Err(DecryptError::Utf8(e)),
    };
    if !is_manifest_link(text.as_str()) {
        return Err(DecryptError::NotManifestLink(text));
    }
    Ok(text)
}

impl RawKodikManifestLink {
    /// The manifest link this source stands for: the source itself where it
    /// is a manifest link; else the source with its letters shifted by
    /// `caesar_shift`, padded and base64-decoded, which must be a manifest
    /// link.  Protocol-relative links are taken as `https:`.
    pub fn decrypt(&self, caesar_shift: u8) -> (r: Result<KodikManifestLink, DecryptError>)
        requires
            !contains(self.source@, manifest_marker()) ==> caesar_fits(self.source@, caesar_shift),
        ensures
            match r {
                Ok(l) => decrypted_link(self.source@, caesar_shift) == Ok::<Seq<char>, DecryptFailure>(l@),
                Err(e) => decrypted_link(self.source@, caesar_shift) == Err::<Seq<char>, DecryptFailure>(e@),
            },
    {
        if is_manifest_link(self.source.as_str()) {
            return match parse_manifest_url(self.source.as_str()) {
                Ok(u) => Ok(KodikManifestLink { manifest_link: u }),
                Err(e) => Err(DecryptError::Url(e)),
            };
        }
        let mut decrypted_caesar = caesar_decrypt(self.source.as_str(), caesar_shift);
        match pad_base64(&mut decrypted_caesar) {
            Ok(()) => {},
            Err(e) => return Err(e),
        }
        let decoded = match base64_decode(decrypted_caesar.as_str()) {
            Ok(d) => d,
            Err(e) => return Err(DecryptError::Base64(e)),
        };
        let text = match link_text_from_bytes(decoded) {
            Ok(t) => t,
            Err(e) => return Err(e),
        };
        match parse_manifest_url(text.as_str()) {
            Ok(u) => Ok(KodikManifestLink { manifest_link: u }),
            Err(e) => Err(DecryptError::Url(e)),
        }
    }
}

/// Shifting a character by `s` and then by `26 - s` gives it back.
proof fn lemma_shift_round_trip(c: char, s: u8)
    requires
        s <= 26,
    ensures
        shifted(shifted(c, s), (26 - s) as u8) == c,
{
    let u = c as u32;
    vstd::utf8::char_u32_cast(c, u);
    if is_ascii_upper(c) {
        let o = u - 0x41;
        let v = (o + s) % 26 + 0x41;
        assert((v as char) as u32 == v);
        assert(((o + s) % 26 + (26 - s)) % 26 == o) by (nonlinear_arith)
            requires
                0 <= o < 26,
                0 <= s <= 26,
        ;
    } else if is_ascii_lower(c) {
        let o = u - 0x61;
        let v = (o + s) % 26 + 0x61;
        assert((v as char) as u32 == v);
        assert(((o + s) % 26 + (26 - s)) % 26 == o) by (nonlinear_arith)
            requires
                0 <= o < 26,
                0 <= s <= 26,
        ;
    }
}

/// Moving the letters of a text `s` places on and then `26 - s` places on
/// restores the text: the shift that hides a manifest link and the one
/// that recovers it undo each other.
pub proof fn lemma_caesar_round_trip(text: Seq<char>, s: u8)
    requires
        s <= 26,
    ensures
        caesar(caesar(text, s), (26 - s) as u8) == text,
{
    assert forall|i: int| 0 <= i < text.len() implies #[trigger] caesar(caesar(text, s), (26 - s) as u8)[i] == text[i] by {
        lemma_shift_round_trip(text[i], s);
    }
    assert(caesar(caesar(text, s), (26 - s) as u8) =~= text);
}

proof fn lemma_encode_utf8_concat(a: Seq<char>, b: Seq<char>)
    ensures
        vstd::utf8::encode_utf8(a + b) == vstd::utf8::encode_utf8(a) + vstd::utf8::encode_utf8(b),
    decreases a.len(),
{
    if a.len() > 0 {
        lemma_encode_utf8_concat(a.drop_first(), b);
        assert((a + b).drop_first() =~= a.drop_first() + b);
        assert((a + b)[0] == a[0]);
        assert(vstd::utf8::encode_scalar(a[0] as u32) + (vstd::utf8::encode_utf8(a.drop_first())
            + vstd::utf8::encode_utf8(b)) =~= (vstd::utf8::encode_scalar(a[0] as u32)
            + vstd::utf8::encode_utf8(a.drop_first())) + vstd::utf8::encode_utf8(b));
    } else {
        assert(a + b =~= b);
        assert(vstd::utf8::encode_utf8(a) + vstd::utf8::encode_utf8(b) =~= vstd::utf8::encode_utf8(b));
    }
}

proof fn lemma_utf8_len_eq_signs(n: nat)
    ensures
        utf8_len(Seq::new(n, |i: int| '=')) == n,
    decreases n,
{
    let s = Seq::new(n, |i: int| '=');
    if n > 0 {
        lemma_utf8_len_eq_signs((n - 1) as nat);
        assert(s.drop_first() =~= Seq::new((n - 1) as nat, |i: int| '='));
        assert(('=' as u32) == 0x3d);
        assert(vstd::utf8::encode_scalar('=' as u32).len() == 1);
    }
}

/// Padding makes base64 text whole: the padded text is the text followed
/// by `=` signs only, and its length in bytes is a multiple of four.
pub proof fn lemma_padding_completes_quads(s: Seq<char>)
    ensures
        padded(s) matches Some(p) ==> {
            &&& utf8_len(p) % 4 == 0
            &&& p.subrange(0, s.len() as int) == s
            &&& forall|i: int| s.len() <= i < p.len() ==> #[trigger] p[i] == '='
        },
{
    reveal_strlit("==");
    let r = utf8_len(s) % 4;
    if r == 2 {
        let t = Seq::new(2, |i: int| '=');
        assert("=="@ =~= t);
        lemma_encode_utf8_concat(s, t);
        lemma_utf8_len_eq_signs(2);
        assert((s + t).subrange(0, s.len() as int) =~= s);
    } else if r == 3 {
        let t = Seq::new(1, |i: int| '=');
        assert(s.push('=') =~= s + t);
        lemma_encode_utf8_concat(s, t);
        lemma_utf8_len_eq_signs(1);
        assert((s + t).subrange(0, s.len() as int) =~= s);
    } else if r == 0 {
        assert(s.subrange(0, s.len() as int) =~= s);
    }
}

/// The endpoint is the text between the first `url:atob("` of the script
/// and the first `")` after it, whatever follows: for a script
/// `p + url:atob(" + e + ") + q` where `p` holds no `url:atob("` and `e`
/// no `")`, the endpoint text is `e`.
pub proof fn lemma_endpoint_is_first_atob_argument(p: Seq<char>, e: Seq<char>, q: Seq<char>)
    requires
        !contains(p, "url:atob(\""@),
        !contains(e, "\")"@),
    ensures
        endpoint_text(p + "url:atob(\""@ + e + "\")"@ + q) == Some(e),
{
    let open = "url:atob(\""@;
    let close = "\")"@;
    reveal_strlit("url:atob(\"");
    reveal_strlit("\")");
    assert(forall|k: int| 0 < k < open.len() ==> #[trigger] open[k] != open[0]);
    assert(forall|k: int| 0 < k < close.len() ==> #[trigger] close[k] != close[0]);
    let rest = e + close + q;
    let s = p + open + e + close + q;
    assert(s =~= p + open + rest);
    crate::text::lemma_find_after(p, open, rest);
    assert(s.subrange((p.len() + open.len()) as int, s.len() as int) =~= rest);
    crate::text::lemma_find_after(e, close, q);
    assert(rest.subrange(0, e.len() as int) =~= e);
}

/// `n` padding signs.
pub open spec fn eq_signs(n: nat) -> Seq<char> {
    Seq::new(n, |i: int| '=')
}

/// The manifest URL that base64 text `p` decodes to, as a mathematical value.
pub open spec fn link_of_base64(p: Seq<char>) -> Result<Seq<char>, DecryptFailure> {
    match base64_standard_decoding(p) {
        None => Err(DecryptFailure::Base64),
        Some(bytes) => match link_text_of_bytes(bytes) {
            Err(e) => Err(e),
            Ok(u) => match manifest_url(u) {
                Some(x) => Ok(x),
                None => Err(DecryptFailure::Url),
            },
        },
    }
}

/// A hidden source is decoded only once padded to whole quads: for a source
/// that is no manifest link, with `t` its letters shifted back, a `t` of
/// byte length `4k + 1` is refused, and any other `t` is decoded with the
/// fewest `=` signs that make its byte length a multiple of four (none, two
/// or one for lengths `4k`, `4k + 2`, `4k + 3`), never without them.
pub proof fn lemma_decrypt_decodes_whole_quads(source: Seq<char>, shift: u8)
    ensures
        !contains(source, manifest_marker()) ==> {
            let t = caesar(source, shift);
            let r = utf8_len(t) % 4;
            &&& r == 1 ==> decrypted_link(source, shift) == Err::<Seq<char>, DecryptFailure>(
                DecryptFailure::InvalidBase64Length,
            )
            &&& r != 1 ==> decrypted_link(source, shift) == link_of_base64(t + eq_signs(((4 - r) % 4) as nat))
        },
{
    reveal_strlit("==");
    let t = caesar(source, shift);
    let r = utf8_len(t) % 4;
    if r == 0 {
        assert(t + eq_signs(0) =~= t);
    } else if r == 2 {
        assert(t + "=="@ =~= t + eq_signs(2));
    } else if r == 3 {
        assert(t.push('=') =~= t + eq_signs(1));
    }
}

/// Decrypting undoes hiding: a link hidden as its base64 text `b` (without
/// padding) with letters moved `26 - s` places on is read back, for every
/// shift `s` below 26, as that base64 text padded to whole quads and
/// decoded; the shift is undone exactly.
pub proof fn lemma_decrypt_undoes_hiding(b: Seq<char>, s: u8)
    requires
        s < 26,
        !contains(caesar(b, (26 - s) as u8), manifest_marker()),
        utf8_len(b) % 4 != 1,
    ensures
        decrypted_link(caesar(b, (26 - s) as u8), s) == link_of_base64(
            b + eq_signs(((4 - utf8_len(b) % 4) % 4) as nat),
        ),
{
    lemma_caesar_round_trip(b, (26 - s) as u8);
    assert((26 - (26 - s) as u8) as u8 == s);
    lemma_decrypt_decodes_whole_quads(caesar(b, (26 - s) as u8), s);
}

} // verus!
