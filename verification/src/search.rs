//! Search results grouped by the title they release: two releases belong
//! together when they share a title, an original title, or one of the
//! catalogue ids both of them carry.
use vstd::prelude::*;
use crate::text::chars_of;
use crate::numbers::{signed_decimal, decimal_i32};
use crate::text::{string_of, append_chars};

verus! {

/// What a search result tells about a release: its titles, the ids other
/// catalogues give it, the team that dubbed it and its episode count.
#[derive(Debug, Clone)]
pub struct Release {
    pub title: String,
    pub title_orig: String,
    pub other_title: Option<String>,
    pub kinopoisk_id: Option<String>,
    pub imdb_id: Option<String>,
    pub mdl_id: Option<String>,
    pub worldart_link: Option<String>,
    pub shikimori_id: Option<String>,
    pub translation_title: String,
    pub episodes_count: Option<i32>,
}

/// A release as a mathematical value.
pub struct ReleaseView {
    pub title: Seq<char>,
    pub title_orig: Seq<char>,
    pub other_title: Option<Seq<char>>,
    pub kinopoisk_id: Option<Seq<char>>,
    pub imdb_id: Option<Seq<char>>,
    pub mdl_id: Option<Seq<char>>,
    pub worldart_link: Option<Seq<char>>,
    pub shikimori_id: Option<Seq<char>>,
    pub translation_title: Seq<char>,
    pub episodes_count: Option<i32>,
}

pub open spec fn opt_view(o: Option<String>) -> Option<Seq<char>> {
    match o {
        Some(s) => Some(s@),
        None => None,
    }
}

impl View for Release {
    type V = ReleaseView;

    open spec fn view(&self) -> ReleaseView {
        ReleaseView {
            title: self.title@,
            title_orig: self.title_orig@,
            other_title: opt_view(self.other_title),
            kinopoisk_id: opt_view(self.kinopoisk_id),
            imdb_id: opt_view(self.imdb_id),
            mdl_id: opt_view(self.mdl_id),
            worldart_link: opt_view(self.worldart_link),
            shikimori_id: opt_view(self.shikimori_id),
            translation_title: self.translation_title@,
            episodes_count: self.episodes_count,
        }
    }
}

/// Both values are present and equal.
pub open spec fn both_equal(a: Option<Seq<char>>, b: Option<Seq<char>>) -> bool {
    match (a, b) {
        (Some(x), Some(y)) => x == y,
        _ => false,
    }
}

/// Two releases release the same title: equal titles, equal original
/// titles, or an equal value of an identifier both of them carry.
pub open spec fn same_release(a: ReleaseView, b: ReleaseView) -> bool {
    ||| a.title == b.title
    ||| a.title_orig == b.title_orig
    ||| both_equal(a.other_title, b.other_title)
    ||| both_equal(a.kinopoisk_id, b.kinopoisk_id)
    ||| both_equal(a.imdb_id, b.imdb_id)
    ||| both_equal(a.mdl_id, b.mdl_id)
    ||| both_equal(a.worldart_link, b.worldart_link)
    ||| both_equal(a.shikimori_id, b.shikimori_id)
}

/// Whether both values are present and equal.
pub fn compare_options(o1: &Option<String>, o2: &Option<String>) -> (r: bool)
    ensures
        r == both_equal(opt_view(*o1), opt_view(*o2)),
{
    match (o1, o2) {
        (Some(r1), Some(r2)) => (*r1).eq(r2),
        _ => false,
    }
}

impl Release {
    /// Whether this release and `release` release the same title.
    pub fn is_same_release(&self, release: &Release) -> (r: bool)
        ensures
            r == same_release(self@, release@),
    {
        self.title == release.title || self.title_orig == release.title_orig || compare_options(
            &self.other_title,
            &release.other_title,
        ) || compare_options(&self.kinopoisk_id, &release.kinopoisk_id) || compare_options(
            &self.imdb_id,
            &release.imdb_id,
        ) || compare_options(&self.mdl_id, &release.mdl_id) || compare_options(
            &self.worldart_link,
            &release.worldart_link,
        ) || compare_options(&self.shikimori_id, &release.shikimori_id)
    }
}

/// Releasing the same title does not depend on the order of the two
/// releases.
pub proof fn lemma_same_release_symmetric(a: ReleaseView, b: ReleaseView)
    ensures
        same_release(a, b) == same_release(b, a),
{
}

/// Two releases release the same title exactly when they share their
/// title, their original title, or the value of a catalogue id (other
/// title, Kinopoisk, IMDb, MyDramaList, World Art or Shikimori) that both
/// carry; sharing any one of these is enough, and releases that share none
/// are different.
pub proof fn lemma_shared_key_makes_same_release(a: ReleaseView, b: ReleaseView)
    ensures
        a.title == b.title ==> same_release(a, b),
        a.title_orig == b.title_orig ==> same_release(a, b),
        both_equal(a.other_title, b.other_title) ==> same_release(a, b),
        both_equal(a.kinopoisk_id, b.kinopoisk_id) ==> same_release(a, b),
        both_equal(a.imdb_id, b.imdb_id) ==> same_release(a, b),
        both_equal(a.mdl_id, b.mdl_id) ==> same_release(a, b),
        both_equal(a.worldart_link, b.worldart_link) ==> same_release(a, b),
        both_equal(a.shikimori_id, b.shikimori_id) ==> same_release(a, b),
        a.title != b.title && a.title_orig != b.title_orig && !both_equal(a.other_title, b.other_title)
            && !both_equal(a.kinopoisk_id, b.kinopoisk_id) && !both_equal(a.imdb_id, b.imdb_id)
            && !both_equal(a.mdl_id, b.mdl_id) && !both_equal(a.worldart_link, b.worldart_link)
            && !both_equal(a.shikimori_id, b.shikimori_id) ==> !same_release(a, b),
        (forall|x: Seq<char>| a.kinopoisk_id == Some(x) && b.kinopoisk_id == Some(x) ==> same_release(a, b)),
{
}

/// Grouping two releases that are the same title puts them in one group,
/// and two that are not in two groups, in the order found.
pub proof fn lemma_group_pair(a: ReleaseView, b: ReleaseView)
    ensures
        same_release(a, b) ==> grouped(seq![a, b]) == seq![seq![a, b]],
        !same_release(a, b) ==> grouped(seq![a, b]) == seq![seq![a], seq![b]],
{
    assert(seq![a, b].drop_last() =~= seq![a]);
    assert(seq![a].drop_last() =~= Seq::<ReleaseView>::empty());
    let e = Seq::<ReleaseView>::empty();
    assert(grouped(e) == Seq::<Seq<ReleaseView>>::empty());
    assert(matching_group(Seq::<Seq<ReleaseView>>::empty(), a, 0) is None);
    assert(grouped(seq![a]) == add_to_groups(grouped(e), a));
    let g1 = grouped(seq![a]);
    assert(g1 =~= seq![seq![a]]);
    assert(g1[0][0] == a);
    assert(matching_group(g1, b, 1) is None);
    if same_release(a, b) {
        assert(matching_group(g1, b, 0) == Some(0int));
        assert(g1[0].push(b) =~= seq![a, b]);
        assert(g1.update(0, g1[0].push(b)) =~= seq![seq![a, b]]);
    } else {
        assert(g1.push(seq![b]) =~= seq![seq![a], seq![b]]);
    }
}

/// Releases of one title, in the order the search found them.
#[derive(Debug)]
pub struct ReleaseGroup<'a>(pub Vec<&'a Release>);

/// A group as a mathematical value.
pub open spec fn group_view(g: Seq<&Release>) -> Seq<ReleaseView> {
    Seq::new(g.len(), |i: int| g[i]@)
}

/// Groups as mathematical values.
pub open spec fn groups_view(gs: Seq<ReleaseGroup>) -> Seq<Seq<ReleaseView>> {
    Seq::new(gs.len(), |i: int| group_view(gs[i].0@))
}

/// The index of the first group at or after `i` whose first release
/// releases the same title as `r`.
pub open spec fn matching_group(gs: Seq<Seq<ReleaseView>>, r: ReleaseView, i: int) -> Option<int>
    decreases gs.len() - i,
{
    if i < 0 || i >= gs.len() {
        None
    } else if gs[i].len() > 0 && same_release(gs[i][0], r) {
        Some(i)
    } else {
        matching_group(gs, r, i + 1)
    }
}

/// The groups once `r` is added: to the first group whose first release is
/// the same title, else as a group of its own at the end.
pub open spec fn add_to_groups(gs: Seq<Seq<ReleaseView>>, r: ReleaseView) -> Seq<Seq<ReleaseView>> {
    match matching_group(gs, r, 0) {
        Some(i) => gs.update(i, gs[i].push(r)),
        None => gs.push(seq![r]),
    }
}

/// The groups that the releases `rs` form when added one after another.
pub open spec fn grouped(rs: Seq<ReleaseView>) -> Seq<Seq<ReleaseView>>
    decreases rs.len(),
{
    if rs.len() == 0 {
        Seq::empty()
    } else {
        add_to_groups(grouped(rs.drop_last()), rs.last())
    }
}

impl<'a> ReleaseGroup<'a> {
    /// A group of these releases.
    pub fn new(release_group: Vec<&'a Release>) -> (r: ReleaseGroup<'a>)
        ensures
            r.0@ == release_group@,
    {
        ReleaseGroup(release_group)
    }

    /// The title of the group's first release.
    pub fn title(&self) -> (r: &str)
        requires
            self.0@.len() > 0,
        ensures
            r@ == self.0@[0]@.title,
    {
        self.0[0].title.as_str()
    }

    /// The releases of the group.
    pub fn releases(&self) -> (r: &[&'a Release])
        ensures
            r@ == self.0@,
    {
        self.0.as_slice()
    }
}

/// Adds `release` to the first group whose first release is the same title,
/// or as a new group at the end.
pub fn update_groups<'a>(groups: &mut Vec<ReleaseGroup<'a>>, release: &'a Release)
    ensures
        groups_view(final(groups)@) == add_to_groups(groups_view(old(groups)@), release@),
{
    let ghost gv = groups_view(groups@);
    let mut i: usize = 0;
    while i < groups.len()
        invariant
            i <= groups.len(),
            gv == groups_view(groups@),
            gv == groups_view(old(groups)@),
            matching_group(gv, release@, i as int) == matching_group(gv, release@, 0),
        decreases groups.len() - i,
    {
        let found = match groups[i].0.first() {
            Some(first) => first.is_same_release(release),
            None => false,
        };
        assert(groups@[i as int].0@.len() > 0 ==> gv[i as int][0] == groups@[i as int].0@[0]@);
        if found {
            let ghost og = groups@;
            let mut group = groups.remove(i);
            group.0.push(release);
            let ghost ng = group;
            assert(group_view(ng.0@) =~= gv[i as int].push(release@));
            groups.insert(i, group);
            assert(groups@ =~= og.update(i as int, ng));
            assert(groups_view(groups@) =~= gv.update(i as int, gv[i as int].push(release@)));
            return;
        }
        i += 1;
    }
    let mut single: Vec<&'a Release> = Vec::new();
    single.push(release);
    let ghost og = groups@;
    let group = ReleaseGroup::new(single);
    let ghost ng = group;
    assert(group_view(ng.0@) =~= seq![release@]);
    groups.push(group);
    assert(groups@ =~= og.push(ng));
    assert(groups_view(groups@) =~= gv.push(seq![release@]));
}

/// The releases of a search response.
#[derive(Debug, Clone)]
pub struct SearchResponse {
    pub results: Vec<Release>,
}

/// Releases as mathematical values.
pub open spec fn releases_view(rs: Seq<Release>) -> Seq<ReleaseView> {
    Seq::new(rs.len(), |i: int| rs[i]@)
}

/// Grouping of search results by the title they release.
pub trait GroupReleases {
    /// The results grouped by title.
    fn group_releases(&self) -> Vec<ReleaseGroup<'_>>;
}

impl GroupReleases for SearchResponse {
    /// Adds the results one after another to the groups (see
    /// [`update_groups`]).
    fn group_releases(&self) -> (r: Vec<ReleaseGroup<'_>>)
        ensures
            groups_view(r@) == grouped(releases_view(self.results@)),
    {
        let mut release_groups: Vec<ReleaseGroup<'_>> = Vec::new();
        let ghost rv = releases_view(self.results@);
        let mut k: usize = 0;
        assert(groups_view(release_groups@) =~= grouped(rv.take(0)));
        while k < self.results.len()
            invariant
                k <= self.results.len(),
                rv == releases_view(self.results@),
                groups_view(release_groups@) == grouped(rv.take(k as int)),
            decreases self.results.len() - k,
        {
            assert(rv.take(k + 1).drop_last() =~= rv.take(k as int));
            assert(rv.take(k + 1).last() == self.results@[k as int]@);
            update_groups(&mut release_groups, &self.results[k]);
            k += 1;
        }
        assert(rv.take(self.results.len() as int) =~= rv);
        release_groups
    }
}

/// The total number of releases in the groups.
pub open spec fn total_len(gs: Seq<Seq<ReleaseView>>) -> int
    decreases gs.len(),
{
    if gs.len() == 0 {
        0
    } else {
        total_len(gs.drop_last()) + gs.last().len()
    }
}

/// Every group is non-empty and every release of a group releases the same
/// title as the group's first.
pub open spec fn well_grouped(gs: Seq<Seq<ReleaseView>>) -> bool {
    forall|i: int| 0 <= i < gs.len() ==> {
        &&& #[trigger] gs[i].len() > 0
        &&& forall|j: int| 0 < j < gs[i].len() ==> same_release(gs[i][0], #[trigger] gs[i][j])
    }
}

proof fn lemma_matching_group(gs: Seq<Seq<ReleaseView>>, r: ReleaseView, i: int)
    requires
        0 <= i,
    ensures
        matching_group(gs, r, i) matches Some(k) ==> i <= k < gs.len() && gs[k].len() > 0
            && same_release(gs[k][0], r),
    decreases gs.len() - i,
{
    if i < gs.len() && !(gs[i].len() > 0 && same_release(gs[i][0], r)) {
        lemma_matching_group(gs, r, i + 1);
    }
}

proof fn lemma_total_len_update(gs: Seq<Seq<ReleaseView>>, i: int, g: Seq<ReleaseView>)
    requires
        0 <= i < gs.len(),
    ensures
        total_len(gs.update(i, g)) == total_len(gs) - gs[i].len() + g.len(),
    decreases gs.len(),
{
    if i < gs.len() - 1 {
        lemma_total_len_update(gs.drop_last(), i, g);
        assert(gs.update(i, g).drop_last() =~= gs.drop_last().update(i, g));
    } else {
        assert(gs.update(i, g).drop_last() =~= gs.drop_last());
    }
}

/// Grouping loses no release and adds none: the groups hold as many
/// releases as there were results; no group is empty; and each release of
/// a group releases the same title as the group's first.
pub proof fn lemma_grouping_keeps_releases(rs: Seq<ReleaseView>)
    ensures
        total_len(grouped(rs)) == rs.len(),
        well_grouped(grouped(rs)),
    decreases rs.len(),
{
    if rs.len() > 0 {
        let prev = grouped(rs.drop_last());
        let r = rs.last();
        lemma_grouping_keeps_releases(rs.drop_last());
        lemma_matching_group(prev, r, 0);
        match matching_group(prev, r, 0) {
            Some(i) => {
                lemma_total_len_update(prev, i, prev[i].push(r));
                let next = prev.update(i, prev[i].push(r));
                assert forall|a: int| 0 <= a < next.len() implies {
                    &&& #[trigger] next[a].len() > 0
                    &&& forall|j: int| 0 < j < next[a].len() ==> same_release(next[a][0], #[trigger] next[a][j])
                } by {
                    if a == i {
                        assert forall|j: int| 0 < j < next[a].len() implies same_release(next[a][0], #[trigger] next[a][j]) by {
                            if j < prev[i].len() {
                                assert(next[a][j] == prev[i][j]);
                            }
                        }
                    }
                }
            },
            None => {
                assert(prev.push(seq![r]).drop_last() =~= prev);
            },
        }
    }
}

/// The name a release is listed under: the dubbing team's title, with
/// the episode count where there is one.
pub open spec fn display_title_of(r: ReleaseView) -> Seq<char> {
    match r.episodes_count {
        Some(c) => r.translation_title + " ("@ + signed_decimal(c as int) + " ep.)"@,
        None => r.translation_title,
    }
}

/// The name a release is listed under.
pub trait DisplayTitle {
    /// The name to list it under.
    fn display_title(&self) -> String;
}

impl DisplayTitle for Release {
    /// `"<team title> (<episodes> ep.)"`, or the team title
    /// alone where the episode count is unknown.
    fn display_title(&self) -> (r: String)
        ensures
            r@ == display_title_of(self@),
    {
        match self.episodes_count {
            Some(c) => {
                let mut v = chars_of(self.translation_title.as_str());
                append_chars(&mut v, &chars_of(" ("));
                append_chars(&mut v, &decimal_i32(c));
                append_chars(&mut v, &chars_of(" ep.)"));
                string_of(&v)
            },
            None => self.translation_title.clone(),
        }
    }
}

} // verus!
