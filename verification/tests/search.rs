use kodik_parser::search::{compare_options, update_groups, DisplayTitle, GroupReleases, Release, ReleaseGroup, SearchResponse};

fn release(title: &str, orig: &str, shikimori: Option<&str>, team: &str, episodes: Option<i32>) -> Release {
    Release {
        title: title.to_string(),
        title_orig: orig.to_string(),
        other_title: None,
        kinopoisk_id: None,
        imdb_id: None,
        mdl_id: None,
        worldart_link: None,
        shikimori_id: shikimori.map(|s| s.to_string()),
        translation_title: team.to_string(),
        episodes_count: episodes,
    }
}

#[test]
fn options_compare_only_when_both_present() {
    assert!(compare_options(&Some("a".to_string()), &Some("a".to_string())));
    assert!(!compare_options(&Some("a".to_string()), &Some("b".to_string())));
    assert!(!compare_options(&None, &None));
    assert!(!compare_options(&Some("a".to_string()), &None));
}

#[test]
fn same_release_by_title_or_id() {
    let a = release("Re:Zero", "Re:Zero kara", Some("1"), "AniDub", None);
    let b = release("Re Zero", "Re:Zero kara", None, "AniLibria", None);
    let c = release("Other", "Other", Some("1"), "X", None);
    let d = release("Other", "Else", Some("2"), "X", None);
    assert!(a.is_same_release(&b));
    assert!(b.is_same_release(&a));
    assert!(a.is_same_release(&c));
    assert!(!a.is_same_release(&d));
    assert!(c.is_same_release(&d));
}

#[test]
fn grouping_follows_first_members() {
    let rs = SearchResponse {
        results: vec![
            release("A", "a", None, "t1", None),
            release("B", "b", None, "t2", None),
            release("A", "x", None, "t3", None),
            release("C", "x", None, "t4", None),
            release("D", "b", None, "t5", None),
        ],
    };
    let groups = rs.group_releases();
    let teams: Vec<Vec<&str>> =
        groups.iter().map(|g| g.releases().iter().map(|r| r.translation_title.as_str()).collect()).collect();
    assert_eq!(teams, vec![vec!["t1", "t3"], vec!["t2", "t5"], vec!["t4"]]);
    let titles: Vec<&str> = groups.iter().map(|g| g.title()).collect();
    assert_eq!(titles, vec!["A", "B", "C"]);
    assert_eq!(groups.iter().map(|g| g.releases().len()).sum::<usize>(), rs.results.len());
}

#[test]
fn update_groups_adds_or_opens_a_group() {
    let a = release("A", "a", None, "t1", None);
    let b = release("B", "b", None, "t2", None);
    let a2 = release("A", "z", None, "t3", None);
    let mut groups: Vec<ReleaseGroup> = Vec::new();
    update_groups(&mut groups, &a);
    update_groups(&mut groups, &b);
    update_groups(&mut groups, &a2);
    assert_eq!(groups.len(), 2);
    assert_eq!(groups[0].releases().len(), 2);
    let mut with_empty = vec![ReleaseGroup::new(Vec::new())];
    update_groups(&mut with_empty, &a);
    assert_eq!(with_empty.len(), 2);
    assert_eq!(with_empty[1].title(), "A");
}

#[test]
fn display_titles() {
    assert_eq!(release("A", "a", None, "AniDub", Some(12)).display_title(), "AniDub (12 ep.)");
    assert_eq!(release("A", "a", None, "AniDub", Some(-1)).display_title(), "AniDub (-1 ep.)");
    assert_eq!(release("A", "a", None, "AniDub", None).display_title(), "AniDub");
}
