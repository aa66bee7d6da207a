use kodik_parser::chapters::{
    parse_timecode, Chapter, ChapterKind, ChapterParseError, ChaptersMediaKind, RawChapters,
};
use kodik_parser::manifests::PlayerScript;

fn cs(s: &str) -> Vec<char> {
    s.chars().collect()
}

#[test]
fn timecodes_in_seconds() {
    assert_eq!(parse_timecode(&cs("90")), Some(90));
    assert_eq!(parse_timecode(&cs("1:30")), Some(90));
    assert_eq!(parse_timecode(&cs("1:00:05")), Some(3605));
    assert_eq!(parse_timecode(&cs("4294967295")), Some(u32::MAX));
    assert_eq!(parse_timecode(&cs("71582789:0")), None);
    assert_eq!(parse_timecode(&cs("1193046:28:15")), Some(4294967295));
    assert_eq!(parse_timecode(&cs("1193046:28:16")), None);
    assert_eq!(parse_timecode(&cs("1:2:3:4")), None);
    assert_eq!(parse_timecode(&cs("a")), None);
}

#[test]
fn chapter_with_label() {
    let c = Chapter::try_from("[opening]0-1:30").unwrap();
    assert_eq!((c.start(), c.end()), (0, 90));
    assert_eq!(c.kind(), Some(&ChapterKind::Opening));
    let c = Chapter::try_from("[recap]10-20").unwrap();
    assert_eq!(c.kind(), Some(&ChapterKind::Other("recap".to_string())));
    let c = Chapter::try_from("[a]b]1-2").unwrap();
    assert_eq!(c.kind(), Some(&ChapterKind::Other("a]b".to_string())));
    let c = Chapter::try_from("1:00:00-1:01:00").unwrap();
    assert_eq!((c.start(), c.end(), c.kind()), (3600, 3660, None));
}

#[test]
fn chapter_errors() {
    assert_eq!(Chapter::try_from("abc").unwrap_err(), ChapterParseError::InvalidFormat("abc".to_string()));
    assert_eq!(Chapter::try_from("[]1-2").unwrap_err(), ChapterParseError::InvalidFormat("[]1-2".to_string()));
    assert_eq!(Chapter::try_from("[a\nb]1-2").unwrap_err(), ChapterParseError::InvalidFormat("[a\nb]1-2".to_string()));
    assert_eq!(Chapter::try_from("1:2:3:4-5").unwrap_err(), ChapterParseError::InvalidFormat("1:2:3:4-5".to_string()));
    assert_eq!(Chapter::try_from("1-2-3").unwrap_err(), ChapterParseError::InvalidFormat("1-2-3".to_string()));
    assert_eq!(Chapter::try_from(" 1-2").unwrap_err(), ChapterParseError::InvalidFormat(" 1-2".to_string()));
    assert_eq!(Chapter::try_from("99999999999-1").unwrap_err(), ChapterParseError::InvalidStart("99999999999".to_string()));
    assert_eq!(Chapter::try_from("1-99999999999").unwrap_err(), ChapterParseError::InvalidEnd("99999999999".to_string()));
    assert_eq!(Chapter::try_from("10-5").unwrap_err(), ChapterParseError::InvalidRange(10, 5));
    assert_eq!(Chapter::try_from("5-5").unwrap_err(), ChapterParseError::InvalidRange(5, 5));
}

#[test]
fn kinds_from_labels() {
    assert_eq!(ChapterKind::from("ending"), ChapterKind::Ending);
    assert_eq!(ChapterKind::from("intro"), ChapterKind::Intro);
    assert_eq!(ChapterKind::from("credits"), ChapterKind::Credits);
    assert_eq!(ChapterKind::from("Opening"), ChapterKind::Other("Opening".to_string()));
    assert_eq!(ChaptersMediaKind::from("anime"), ChaptersMediaKind::Anime);
    assert_eq!(ChaptersMediaKind::from("movie"), ChaptersMediaKind::Other("movie".to_string()));
}

fn summary(v: &[Chapter]) -> Vec<(u32, u32, Option<ChapterKind>)> {
    v.iter().map(|c| (c.start(), c.end(), c.kind().cloned())).collect()
}

#[test]
fn parse_sorts_stably_and_skips_bad_entries() {
    let raw = RawChapters {
        chapters: " 20-30 ,bad, [x]5-9,[y]20-25,[z]5-6 ".to_string(),
        media_kind: "anime".to_string(),
    };
    let chapters = raw.parse().into_guessed();
    assert_eq!(
        summary(&chapters),
        vec![
            (5, 9, Some(ChapterKind::Other("x".to_string()))),
            (5, 6, Some(ChapterKind::Other("z".to_string()))),
            (20, 30, None),
            (20, 25, Some(ChapterKind::Other("y".to_string()))),
        ]
    );
}

#[test]
fn guesses_opening_and_ending_for_anime() {
    let raw = RawChapters { chapters: "1000-1090,0-90".to_string(), media_kind: "anime".to_string() };
    let chapters = raw.parse().into_guessed();
    assert_eq!(
        summary(&chapters),
        vec![(0, 90, Some(ChapterKind::Opening)), (1000, 1090, Some(ChapterKind::Ending))]
    );
}

#[test]
fn guesses_intro_and_credits_for_other_media() {
    let raw = RawChapters { chapters: "180-200,900-950".to_string(), media_kind: "serial".to_string() };
    let chapters = raw.parse().into_guessed();
    assert_eq!(
        summary(&chapters),
        vec![(180, 200, Some(ChapterKind::Intro)), (900, 950, Some(ChapterKind::Credits))]
    );
}

#[test]
fn no_guess_outside_the_windows() {
    let raw = RawChapters { chapters: "181-200,899-950,1000-1010".to_string(), media_kind: "anime".to_string() };
    let chapters = raw.parse().into_guessed();
    assert_eq!(summary(&chapters), vec![(181, 200, None), (899, 950, None), (1000, 1010, None)]);
}

#[test]
fn guess_kind_keeps_a_named_chapter() {
    let mut c = Chapter::try_from("[recap]0-10").unwrap();
    c.guess_kind(0, 1, &ChaptersMediaKind::Anime);
    assert_eq!(c.kind(), Some(&ChapterKind::Other("recap".to_string())));
    let mut c = Chapter::try_from("0-10").unwrap();
    c.guess_kind(0, 1, &ChaptersMediaKind::Anime);
    assert_eq!(c.kind(), Some(&ChapterKind::Opening));
}

#[test]
fn chapters_from_player_script() {
    let script = "var a = 1;\n  playerSettings.skipButton = parseSkipButton(\"0-90,[ending]1300-1390\", \"anime\");\nvar b = 2;";
    let p = PlayerScript::new(script.to_string());
    let raw = p.extract_raw_chapters_info().unwrap();
    assert_eq!(raw.chapters, "0-90,[ending]1300-1390");
    assert_eq!(raw.media_kind, "anime");
    let chapters = p.get_chapters().unwrap();
    assert_eq!(
        summary(&chapters),
        vec![(0, 90, Some(ChapterKind::Opening)), (1300, 1390, Some(ChapterKind::Ending))]
    );
}

#[test]
fn no_chapters_without_skip_button() {
    let p = PlayerScript::new("var a = 1;".to_string());
    assert!(p.extract_raw_chapters_info().is_none());
    assert!(p.get_chapters().is_none());
    let p = PlayerScript::new("playerSettings.skipButton = parseSkipButton(\"0-90\");".to_string());
    assert!(p.get_chapters().is_none());
}

#[test]
fn guessing_again_changes_nothing() {
    let raw = RawChapters { chapters: "0-90,[recap]100-200,1000-1100".to_string(), media_kind: "anime".to_string() };
    let once = raw.parse().into_guessed();
    let mut twice = once.clone();
    let total = twice.len();
    for (i, c) in twice.iter_mut().enumerate() {
        c.guess_kind(i, total, &ChaptersMediaKind::Anime);
    }
    assert_eq!(summary(&once), summary(&twice));
    assert_eq!(
        summary(&once),
        vec![(0, 90, Some(ChapterKind::Opening)), (100, 200, Some(ChapterKind::Other("recap".to_string()))), (1000, 1100, None)]
    );
}
