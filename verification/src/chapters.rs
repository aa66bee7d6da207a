//! Chapter marks of an episode ("skip intro" buttons): the text format
//! `[label]start-end`, time codes `s`, `m:s` or `h:m:s`, and the guesses
//! that name unlabelled chapters.
use vstd::prelude::*;
use crate::text::{
    chars_of, chars_eq, string_of, find, rfind, rfind_index, find_index, slice_vec, split, split_vec, views,
    trim, trimmed, rsplit_once_vec, strip_suffix_vec, strip_prefix_vec, rsplit_once, strip_suffix,
    strip_prefix, lemma_split_len, lemma_find_occurs, lemma_rfind_occurs,
};
use crate::numbers::{is_digit, parse_unsigned, parse_u32};
use crate::js::{js_value, find_js_value};
use crate::manifests::PlayerScript;

verus! {

/// What a chapter is, by its label or by a guess.
#[derive(Debug, Clone, PartialEq, Eq)]
pub enum ChapterKind {
    Opening,
    Ending,
    Intro,
    Credits,
    Other(String),
}

/// A chapter kind as a mathematical value.
pub enum ChapterKindView {
    Opening,
    Ending,
    Intro,
    Credits,
    Other(Seq<char>),
}

impl View for ChapterKind {
    type V = ChapterKindView;

    open spec fn view(&self) -> ChapterKindView {
        match self {
            ChapterKind::Opening => ChapterKindView::Opening,
            ChapterKind::Ending => ChapterKindView::Ending,
            ChapterKind::Intro => ChapterKindView::Intro,
            ChapterKind::Credits => ChapterKindView::Credits,
            ChapterKind::Other(s) => ChapterKindView::Other(s@),
        }
    }
}

/// The kind a label names.
pub open spec fn kind_of_label(label: Seq<char>) -> ChapterKindView {
    if label == "opening"@ {
        ChapterKindView::Opening
    } else if label == "ending"@ {
        ChapterKindView::Ending
    } else if label == "intro"@ {
        ChapterKindView::Intro
    } else if label == "credits"@ {
        ChapterKindView::Credits
    } else {
        ChapterKindView::Other(label)
    }
}

impl ChapterKind {
    /// The kind a label names: `opening`, `ending`, `intro`, `credits`, or
    /// any other label as it stands.
    pub fn from(value: &str) -> (k: ChapterKind)
        ensures
            k@ == kind_of_label(value@),
    {
        ChapterKind::from_chars(&chars_of(value))
    }
}

/// The media a set of chapters belongs to.
#[derive(Debug, Clone, PartialEq, Eq)]
pub enum ChaptersMediaKind {
    Anime,
    Other(String),
}

/// A media kind as a mathematical value.
pub enum ChaptersMediaKindView {
    Anime,
    Other(Seq<char>),
}

impl View for ChaptersMediaKind {
    type V = ChaptersMediaKindView;

    open spec fn view(&self) -> ChaptersMediaKindView {
        match self {
            ChaptersMediaKind::Anime => ChaptersMediaKindView::Anime,
            ChaptersMediaKind::Other(s) => ChaptersMediaKindView::Other(s@),
        }
    }
}

/// The media kind a text names.
pub open spec fn media_kind_of(value: Seq<char>) -> ChaptersMediaKindView {
    if value == "anime"@ {
        ChaptersMediaKindView::Anime
    } else {
        ChaptersMediaKindView::Other(value)
    }
}

impl ChaptersMediaKind {
    /// `anime`, or any other text as it stands.
    pub fn from(value: &str) -> (k: ChaptersMediaKind)
        ensures
            k@ == media_kind_of(value@),
    {
        let v = chars_of(value);
        if chars_eq(&v, &chars_of("anime")) {
            ChaptersMediaKind::Anime
        } else {
            ChaptersMediaKind::Other(string_of(&v))
        }
    }
}

/// A chapter as a mathematical value.
pub struct ChapterView {
    pub start: u32,
    pub end: u32,
    pub kind: Option<ChapterKindView>,
}

/// A chapter of an episode: where it starts and ends, in seconds, and what
/// it is, where that is known.
#[derive(Debug, Clone)]
pub struct Chapter {
    start: u32,
    end: u32,
    kind: Option<ChapterKind>,
}

pub open spec fn kind_view(k: Option<ChapterKind>) -> Option<ChapterKindView> {
    match k {
        Some(k) => Some(k@),
        None => None,
    }
}

impl View for Chapter {
    type V = ChapterView;

    closed spec fn view(&self) -> ChapterView {
        ChapterView { start: self.start, end: self.end, kind: kind_view(self.kind) }
    }
}

/// Why a chapter text was rejected.
#[derive(Debug, Clone, PartialEq, Eq)]
pub enum ChapterParseError {
    InvalidFormat(String),
    InvalidStart(String),
    InvalidEnd(String),
    InvalidRange(u32, u32),
}

/// A chapter error as a mathematical value.
pub enum ChapterParseErrorView {
    InvalidFormat(Seq<char>),
    InvalidStart(Seq<char>),
    InvalidEnd(Seq<char>),
    InvalidRange(u32, u32),
}

impl View for ChapterParseError {
    type V = ChapterParseErrorView;

    open spec fn view(&self) -> ChapterParseErrorView {
        match self {
            ChapterParseError::InvalidFormat(s) => ChapterParseErrorView::InvalidFormat(s@),
            ChapterParseError::InvalidStart(s) => ChapterParseErrorView::InvalidStart(s@),
            ChapterParseError::InvalidEnd(s) => ChapterParseErrorView::InvalidEnd(s@),
            ChapterParseError::InvalidRange(a, b) => ChapterParseErrorView::InvalidRange(*a, *b),
        }
    }
}

/// Every character of `t` is an ASCII digit.
pub open spec fn all_digits(t: Seq<char>) -> bool {
    forall|i: int| 0 <= i < t.len() ==> is_digit(#[trigger] t[i])
}

/// `t` is a time code in form: one to three non-empty runs of digits
/// separated by `:`.
pub open spec fn is_timecode_text(t: Seq<char>) -> bool {
    let parts = split(t, ':');
    &&& 1 <= parts.len() <= 3
    &&& forall|k: int| 0 <= k < parts.len() ==> #[trigger] parts[k].len() > 0 && all_digits(parts[k])
}

/// The start and end time codes of a text `start-end`.
pub open spec fn span_text(r: Seq<char>) -> Option<(Seq<char>, Seq<char>)> {
    match find(r, "-"@) {
        Some(i) => {
            let a = r.subrange(0, i);
            let b = r.subrange(i + 1, r.len() as int);
            if is_timecode_text(a) && is_timecode_text(b) {
                Some((a, b))
            } else {
                None
            }
        },
        None => None,
    }
}

/// No line break in `t`.
pub open spec fn single_line(t: Seq<char>) -> bool {
    forall|i: int| 0 <= i < t.len() ==> #[trigger] t[i] != '\n'
}

/// The label, start and end of a chapter text `[label]start-end` (the label
/// and its brackets optional; a label is at least one character, no line
/// break), which is the language of the pattern
/// `^(?:\[(?<label>.+)\])?(?<start>[0-9]+(?::[0-9]+){0,2})-(?<end>[0-9]+(?::[0-9]+){0,2})$`.
/// As the times hold no `]` and no `-`, the label ends at the last `]` and
/// the start at the first `-` after it.
pub open spec fn chapter_fields(s: Seq<char>) -> Option<(Option<Seq<char>>, Seq<char>, Seq<char>)> {
    if s.len() > 0 && s[0] == '[' {
        match rfind(s, "]"@) {
            Some(j) => {
                let label = s.subrange(1, j);
                if j >= 2 && single_line(label) {
                    match span_text(s.subrange(j + 1, s.len() as int)) {
                        Some((a, b)) => Some((Some(label), a, b)),
                        None => None,
                    }
                } else {
                    None
                }
            },
            None => None,
        }
    } else {
        match span_text(s) {
            Some((a, b)) => Some((None, a, b)),
            None => None,
        }
    }
}

/// The numbers a list of texts reads as, if each reads as a `u32`.
pub open spec fn part_values(parts: Seq<Seq<char>>) -> Option<Seq<int>>
    decreases parts.len(),
{
    if parts.len() == 0 {
        Some(Seq::<int>::empty())
    } else {
        match part_values(parts.drop_last()) {
            Some(vs) => match parse_unsigned(parts.last(), u32::MAX as int) {
                Ok(v) => Some(vs.push(v)),
                Err(_) => None,
            },
            None => None,
        }
    }
}

/// The number of seconds a time code `s`, `m:s` or `h:m:s` stands for, where
/// each part reads as a `u32` and the total fits in a `u32`.
pub open spec fn timecode_seconds(t: Seq<char>) -> Option<u32> {
    match part_values(split(t, ':')) {
        Some(vs) => if vs.len() == 1 {
            Some(vs[0] as u32)
        } else if vs.len() == 2 && vs[0] * 60 + vs[1] <= u32::MAX {
            Some((vs[0] * 60 + vs[1]) as u32)
        } else if vs.len() == 3 && vs[0] * 3600 + vs[1] * 60 + vs[2] <= u32::MAX {
            Some((vs[0] * 3600 + vs[1] * 60 + vs[2]) as u32)
        } else {
            None
        },
        None => None,
    }
}

/// What a chapter text stands for, or why it is rejected.
pub open spec fn chapter_of_text(s: Seq<char>) -> Result<ChapterView, ChapterParseErrorView> {
    match chapter_fields(s) {
        None => Err(ChapterParseErrorView::InvalidFormat(s)),
        Some((label, a, b)) => match timecode_seconds(a) {
            None => Err(ChapterParseErrorView::InvalidStart(a)),
            Some(start) => match timecode_seconds(b) {
                None => Err(ChapterParseErrorView::InvalidEnd(b)),
                Some(end) => if start >= end {
                    Err(ChapterParseErrorView::InvalidRange(start, end))
                } else {
                    Ok(
                        ChapterView {
                            start,
                            end,
                            kind: match label {
                                Some(l) => Some(kind_of_label(l)),
                                None => None,
                            },
                        },
                    )
                },
            },
        },
    }
}

proof fn lemma_part_values_len(parts: Seq<Seq<char>>)
    ensures
        part_values(parts) matches Some(vs) ==> vs.len() == parts.len() && forall|i: int|
            0 <= i < vs.len() ==> 0 <= #[trigger] vs[i] <= u32::MAX,
    decreases parts.len(),
{
    if parts.len() > 0 {
        lemma_part_values_len(parts.drop_last());
        crate::numbers::lemma_parse_unsigned_bounded(parts.last(), u32::MAX as int);
    }
}

/// The number of seconds a time code `s`, `m:s` or `h:m:s` stands for.
pub fn parse_timecode(value: &[char]) -> (r: Option<u32>)
    ensures
        r == timecode_seconds(value@),
{
    let parts = split_vec(value, ':');
    let ghost pv = views(parts@);
    let mut nums: Vec<u32> = Vec::new();
    let mut k: usize = 0;
    assert(pv.take(0) == Seq::<Seq<char>>::empty());
    while k < parts.len()
        invariant
            k <= parts.len(),
            pv == views(parts@),
            pv == split(value@, ':'),
            part_values(pv.take(k as int)) == Some(nums@.map_values(|x: u32| x as int)),
        decreases parts.len() - k,
    {
        assert(pv.take(k + 1).drop_last() == pv.take(k as int));
        assert(pv.take(k + 1).last() == parts@[k as int]@);
        match parse_u32(&parts[k]) {
            Ok(v) => {
                let ghost before = nums@;
                nums.push(v);
                assert(nums@.map_values(|x: u32| x as int) =~= before.map_values(|x: u32| x as int).push(
                    v as int,
                ));
            },
            Err(_) => {
                proof {
                    lemma_part_values_none_stays(pv, (k + 1) as int);
                }
                assert(pv.take(pv.len() as int) == pv);
                return None;
            },
        }
        k += 1;
    }
    assert(pv.take(pv.len() as int) == pv);
    proof {
        lemma_part_values_len(pv);
    }
    let n = nums.len();
    if n == 1 {
        Some(nums[0])
    } else if n == 2 {
        let total: u64 = (nums[0] as u64) * 60 + (nums[1] as u64);
        if total <= u32::MAX as u64 {
            Some(total as u32)
        } else {
            None
        }
    } else if n == 3 {
        let total: u64 = (nums[0] as u64) * 3600 + (nums[1] as u64) * 60 + (nums[2] as u64);
        if total <= u32::MAX as u64 {
            Some(total as u32)
        } else {
            None
        }
    } else {
        None
    }
}

proof fn lemma_part_values_none_stays(parts: Seq<Seq<char>>, k: int)
    requires
        0 <= k <= parts.len(),
        part_values(parts.take(k)) is None,
    ensures
        part_values(parts) is None,
    decreases parts.len() - k,
{
    if k < parts.len() {
        assert(parts.take(k + 1).drop_last() == parts.take(k));
        lemma_part_values_none_stays(parts, k + 1);
    } else {
        assert(parts.take(k) == parts);
    }
}

} // verus!

verus! {

/// Whether every part of a time code text is a non-empty run of digits,
/// with one to three parts.
pub fn is_timecode(t: &[char]) -> (b: bool)
    ensures
        b == is_timecode_text(t@),
{
    let parts = split_vec(t, ':');
    let ghost pv = views(parts@);
    proof {
        lemma_split_len(t@, ':');
    }
    if parts.len() > 3 {
        return false;
    }
    let mut k: usize = 0;
    while k < parts.len()
        invariant
            k <= parts.len() <= 3,
            pv == views(parts@),
            pv == split(t@, ':'),
            forall|j: int| 0 <= j < k ==> #[trigger] pv[j].len() > 0 && all_digits(pv[j]),
        decreases parts.len() - k,
    {
        let part = &parts[k];
        assert(pv[k as int] == part@);
        if part.len() == 0 {
            return false;
        }
        let mut i: usize = 0;
        while i < part.len()
            invariant
                i <= part.len(),
                k < parts.len(),
                pv.len() == parts.len(),
                pv == split(t@, ':'),
                part@ == pv[k as int],
                forall|m: int| 0 <= m < i ==> is_digit(#[trigger] part@[m]),
            decreases part.len() - i,
        {
            let u = part[i] as u32;
            if !(0x30 <= u && u <= 0x39) {
                assert(!is_digit(part@[i as int]));
                assert(!all_digits(part@));
                assert(!(pv[k as int].len() > 0 && all_digits(pv[k as int])));
                return false;
            }
            i += 1;
        }
        k += 1;
    }
    true
}

/// The start and end texts of `start-end`.
pub fn span(r: &[char]) -> (res: Option<(Vec<char>, Vec<char>)>)
    ensures
        match res {
            Some((a, b)) => span_text(r@) == Some((a@, b@)),
            None => span_text(r@) is None,
        },
{
    let dash = chars_of("-");
    proof {
        reveal_strlit("-");
    }
    match find_index(r, &dash) {
        Some(i) => {
            proof {
                lemma_find_occurs(r@, dash@, 0);
            }
            let n = r.len();
            let a = slice_vec(r, 0, i);
            let b = slice_vec(r, i + 1, n);
            if is_timecode(&a) && is_timecode(&b) {
                Some((a, b))
            } else {
                None
            }
        },
        None => None,
    }
}

/// The label, start and end texts of a chapter text `[label]start-end`.
pub fn parse_chapter_fields(s: &[char]) -> (res: Option<(Option<Vec<char>>, Vec<char>, Vec<char>)>)
    ensures
        match res {
            Some((l, a, b)) => chapter_fields(s@) == Some(
                (
                    match l {
                        Some(l) => Some(l@),
                        None => None,
                    },
                    a@,
                    b@,
                ),
            ),
            None => chapter_fields(s@) is None,
        },
{
    if s.len() > 0 && s[0] == '[' {
        let close = chars_of("]");
        proof {
            reveal_strlit("]");
        }
        match rfind_index(s, &close) {
            Some(j) => {
                proof {
                    lemma_rfind_occurs(s@, close@, s@.len() - close@.len());
                }
                if j < 2 {
                    return None;
                }
                let label = slice_vec(s, 1, j);
                let mut i: usize = 0;
                while i < label.len()
                    invariant
                        i <= label.len(),
                        s@.len() > 0 && s@[0] == '[',
                        j >= 2,
                        rfind(s@, "]"@) == Some(j as int),
                        label@ == s@.subrange(1, j as int),
                        forall|m: int| 0 <= m < i ==> #[trigger] label@[m] != '\n',
                    decreases label.len() - i,
                {
                    if label[i] == '\n' {
                        assert(!single_line(label@));
                        return None;
                    }
                    i += 1;
                }
                let n = s.len();
                let rest = slice_vec(s, j + 1, n);
                match span(&rest) {
                    Some((a, b)) => Some((Some(label), a, b)),
                    None => None,
                }
            },
            None => None,
        }
    } else {
        match span(s) {
            Some((a, b)) => Some((None, a, b)),
            None => None,
        }
    }
}

impl Chapter {
    /// Seconds from the start of the episode to the start of the chapter.
    pub fn start(&self) -> (r: u32)
        ensures
            r == self@.start,
    {
        self.start
    }

    /// Seconds from the start of the episode to the end of the chapter.
    pub fn end(&self) -> (r: u32)
        ensures
            r == self@.end,
    {
        self.end
    }

    /// What the chapter is, where that is known.
    pub fn kind(&self) -> (r: Option<&ChapterKind>)
        ensures
            match r {
                Some(k) => self@.kind == Some(k@),
                None => self@.kind is None,
            },
    {
        match &self.kind {
            Some(k) => Some(k),
            None => None,
        }
    }

    /// Reads a chapter from its text `[label]start-end`.
    pub fn try_from(value: &str) -> (r: Result<Chapter, ChapterParseError>)
        ensures
            match r {
                Ok(c) => chapter_of_text(value@) == Ok::<ChapterView, ChapterParseErrorView>(c@),
                Err(e) => chapter_of_text(value@) == Err::<ChapterView, ChapterParseErrorView>(e@),
            },
    {
        let v = chars_of(value);
        Chapter::try_from_chars(&v)
    }

    /// Reads a chapter from its text `[label]start-end`.
    pub fn try_from_chars(v: &[char]) -> (r: Result<Chapter, ChapterParseError>)
        ensures
            match r {
                Ok(c) => chapter_of_text(v@) == Ok::<ChapterView, ChapterParseErrorView>(c@),
                Err(e) => chapter_of_text(v@) == Err::<ChapterView, ChapterParseErrorView>(e@),
            },
    {
        let (label, a, b) = match parse_chapter_fields(v) {
            Some(f) => f,
            None => return Err(ChapterParseError::InvalidFormat(string_of(v))),
        };
        let start = match parse_timecode(&a) {
            Some(x) => x,
            None => return Err(ChapterParseError::InvalidStart(string_of(&a))),
        };
        let end = match parse_timecode(&b) {
            Some(x) => x,
            None => return Err(ChapterParseError::InvalidEnd(string_of(&b))),
        };
        if start >= end {
            return Err(ChapterParseError::InvalidRange(start, end));
        }
        let kind = match label {
            Some(l) => Some(ChapterKind::from_chars(&l)),
            None => None,
        };
        Ok(Chapter { start, end, kind })
    }

    /// Names an unnamed chapter by its place: the first chapter, when it
    /// starts within the first three minutes, is the opening (for anime) or
    /// intro; the second of exactly two chapters, when it starts after
    /// fifteen minutes, is the ending (for anime) or credits.
    pub fn guess_kind(&mut self, index: usize, total: usize, media_kind: &ChaptersMediaKind)
        ensures
            final(self)@ == guessed(old(self)@, index as int, total as int, media_kind@),
    {
        if self.kind.is_some() {
            return;
        }
        if index == 0 && self.start <= 180 {
            self.kind = Some(
                match media_kind {
                    ChaptersMediaKind::Anime => ChapterKind::Opening,
                    _ => ChapterKind::Intro,
                },
            );
            return;
        }
        if index == 1 && total == 2 && self.start >= 900 {
            self.kind = Some(
                match media_kind {
                    ChaptersMediaKind::Anime => ChapterKind::Ending,
                    _ => ChapterKind::Credits,
                },
            );
        }
    }
}

impl ChapterKind {
    /// The kind a label names.
    pub fn from_chars(v: &[char]) -> (k: ChapterKind)
        ensures
            k@ == kind_of_label(v@),
    {
        if chars_eq(v, &chars_of("opening")) {
            ChapterKind::Opening
        } else if chars_eq(v, &chars_of("ending")) {
            ChapterKind::Ending
        } else if chars_eq(v, &chars_of("intro")) {
            ChapterKind::Intro
        } else if chars_eq(v, &chars_of("credits")) {
            ChapterKind::Credits
        } else {
            ChapterKind::Other(string_of(v))
        }
    }
}

/// The chapter `c`, at place `index` of `total`, with the kind that
/// `Chapter::guess_kind` gives it.
pub open spec fn guessed(c: ChapterView, index: int, total: int, media: ChaptersMediaKindView) -> ChapterView {
    if c.kind is Some {
        c
    } else if index == 0 && c.start <= 180 {
        ChapterView {
            kind: Some(
                if media is Anime {
                    ChapterKindView::Opening
                } else {
                    ChapterKindView::Intro
                },
            ),
            ..c
        }
    } else if index == 1 && total == 2 && c.start >= 900 {
        ChapterView {
            kind: Some(
                if media is Anime {
                    ChapterKindView::Ending
                } else {
                    ChapterKindView::Credits
                },
            ),
            ..c
        }
    } else {
        c
    }
}

} // verus!

verus! {

/// The index of the first chapter at or after `i` that starts after `key`
/// (or the length, where none does).
pub open spec fn first_after(s: Seq<ChapterView>, key: u32, i: int) -> int
    decreases s.len() - i,
{
    if i >= s.len() {
        s.len() as int
    } else if s[i].start > key {
        i
    } else {
        first_after(s, key, i + 1)
    }
}

/// `x` put into `s` after every chapter that starts no later than it.
pub open spec fn insert_by_start(s: Seq<ChapterView>, x: ChapterView) -> Seq<ChapterView> {
    s.insert(first_after(s, x.start, 0), x)
}

/// `s` sorted by start, chapters with equal starts keeping their order (the
/// order `slice::sort_by_key` gives).
pub open spec fn sort_by_start(s: Seq<ChapterView>) -> Seq<ChapterView>
    decreases s.len(),
{
    if s.len() == 0 {
        s
    } else {
        insert_by_start(sort_by_start(s.drop_last()), s.last())
    }
}

/// The chapters of `s` come in order of their starts.
pub open spec fn sorted_by_start(s: Seq<ChapterView>) -> bool {
    forall|i: int, j: int| 0 <= i <= j < s.len() ==> s[i].start <= s[j].start
}

/// The test for a chapter starting at `k`.
pub open spec fn starting_at(k: u32) -> spec_fn(ChapterView) -> bool {
    |c: ChapterView| c.start == k
}

proof fn lemma_first_after(s: Seq<ChapterView>, key: u32, i: int)
    requires
        0 <= i <= s.len(),
    ensures
        i <= first_after(s, key, i) <= s.len(),
        forall|j: int| i <= j < first_after(s, key, i) ==> s[j].start <= key,
        first_after(s, key, i) < s.len() ==> s[first_after(s, key, i)].start > key,
    decreases s.len() - i,
{
    if i < s.len() && s[i].start <= key {
        lemma_first_after(s, key, i + 1);
    }
}

proof fn lemma_filter_none(s: Seq<ChapterView>, p: spec_fn(ChapterView) -> bool)
    requires
        forall|i: int| 0 <= i < s.len() ==> !p(#[trigger] s[i]),
    ensures
        s.filter(p) == Seq::<ChapterView>::empty(),
    decreases s.len(),
{
    reveal(Seq::filter);
    if s.len() > 0 {
        lemma_filter_none(s.drop_last(), p);
    }
}

/// Sorting by start is a stable sort: its result is ordered by start, and
/// for every start time the chapters that have it come in the order they
/// came in before (so nothing is lost, added or reordered among equals).
pub proof fn lemma_sort_by_start(s: Seq<ChapterView>)
    ensures
        sort_by_start(s).len() == s.len(),
        sorted_by_start(sort_by_start(s)),
        forall|k: u32| #[trigger] sort_by_start(s).filter(starting_at(k)) == s.filter(starting_at(k)),
    decreases s.len(),
{
    if s.len() > 0 {
        let prev = s.drop_last();
        let x = s.last();
        lemma_sort_by_start(prev);
        let r = sort_by_start(prev);
        let p = first_after(r, x.start, 0);
        lemma_first_after(r, x.start, 0);
        let new = r.insert(p, x);
        assert(new == sort_by_start(s));
        assert forall|j: int| p <= j < r.len() implies r[j].start > x.start by {
            assert(r[p].start <= r[j].start);
        }
        assert(sorted_by_start(new)) by {
            assert forall|a: int, b: int| 0 <= a <= b < new.len() implies new[a].start <= new[b].start by {
                if a < p && b < p {
                } else if a < p && b == p {
                } else if a < p && b > p {
                    assert(new[b] == r[b - 1]);
                } else if a == p && b == p {
                } else if a == p {
                    assert(new[b] == r[b - 1]);
                } else {
                    assert(new[a] == r[a - 1]);
                    assert(new[b] == r[b - 1]);
                }
            }
        }
        let front = r.subrange(0, p);
        let back = r.subrange(p, r.len() as int);
        assert(new =~= front + seq![x] + back);
        assert(r =~= front + back);
        assert(s =~= prev.push(x));
        assert forall|k: u32| #[trigger] new.filter(starting_at(k)) == s.filter(starting_at(k)) by {
            let f = starting_at(k);
            Seq::filter_distributes_over_add(front + seq![x], back, f);
            Seq::filter_distributes_over_add(front, seq![x], f);
            Seq::filter_distributes_over_add(front, back, f);
            prev.lemma_filter_push(x, f);
            Seq::<ChapterView>::empty().lemma_filter_push(x, f);
            assert(seq![x] =~= Seq::<ChapterView>::empty().push(x));
            lemma_filter_none(Seq::<ChapterView>::empty(), f);
            if x.start == k {
                lemma_filter_none(back, f);
                assert(new.filter(f) =~= front.filter(f) + seq![x]);
                assert(r.filter(f) =~= front.filter(f));
            } else {
                assert(new.filter(f) =~= front.filter(f) + back.filter(f));
            }
        }
    }
}

/// The chapters as mathematical values.
pub open spec fn chapters_view(v: Seq<Chapter>) -> Seq<ChapterView> {
    Seq::new(v.len(), |i: int| v[i]@)
}

/// The chapter a text stands for, where it stands for one.
pub open spec fn ok_chapter(t: Seq<char>) -> Option<ChapterView> {
    match chapter_of_text(t) {
        Ok(c) => Some(c),
        Err(_) => None,
    }
}

/// The chapters that the comma-separated list `text` holds, in list order,
/// texts that are no chapter (after trimming) left out.
pub open spec fn listed_chapters(text: Seq<char>) -> Seq<ChapterView> {
    split(text, ',').filter_map(|p: Seq<char>| ok_chapter(trim(p)))
}

/// Every chapter of `s`, named by place where it has no kind.
pub open spec fn guess_all(s: Seq<ChapterView>, media: ChaptersMediaKindView) -> Seq<ChapterView> {
    Seq::new(s.len(), |i: int| guessed(s[i], i, s.len() as int, media))
}

/// The chapter list and media kind as found in the player script.
#[derive(Debug)]
pub struct RawChapters {
    pub chapters: String,
    pub media_kind: String,
}

/// Chapters sorted by start, with the media kind they belong to.
#[derive(Debug)]
pub struct Chapters {
    chapters: Vec<Chapter>,
    media_kind: ChaptersMediaKind,
}

/// A chapter list as a mathematical value.
pub struct ChaptersView {
    pub chapters: Seq<ChapterView>,
    pub media_kind: ChaptersMediaKindView,
}

impl View for Chapters {
    type V = ChaptersView;

    closed spec fn view(&self) -> ChaptersView {
        ChaptersView { chapters: chapters_view(self.chapters@), media_kind: self.media_kind@ }
    }
}

impl RawChapters {
    /// The chapters of the list, sorted by start (equal starts keeping list
    /// order), and the media kind.
    pub fn parse(self) -> (r: Chapters)
        ensures
            r@.chapters == sort_by_start(listed_chapters(self.chapters@)),
            r@.media_kind == media_kind_of(self.media_kind@),
    {
        let text = chars_of(self.chapters.as_str());
        let pieces = split_vec(&text, ',');
        let ghost pv = views(pieces@);
        let ghost f = |p: Seq<char>| ok_chapter(trim(p));
        let mut out: Vec<Chapter> = Vec::new();
        let mut k: usize = 0;
        assert(pv.take(0).filter_map(f) =~= Seq::<ChapterView>::empty());
        while k < pieces.len()
            invariant
                k <= pieces.len(),
                pv == views(pieces@),
                pv == split(text@, ','),
                f == (|p: Seq<char>| ok_chapter(trim(p))),
                chapters_view(out@) == sort_by_start(pv.take(k as int).filter_map(f)),
            decreases pieces.len() - k,
        {
            let piece = trimmed(&pieces[k]);
            assert(pv.take(k + 1).drop_last() == pv.take(k as int));
            assert(pv.take(k + 1).last() == pieces@[k as int]@);
            match Chapter::try_from_chars(&piece) {
                Ok(c) => {
                    let ghost before = chapters_view(out@);
                    let mut p: usize = 0;
                    while p < out.len() && out[p].start <= c.start
                        invariant
                            p <= out.len(),
                            before == chapters_view(out@),
                            first_after(before, c.start, p as int) == first_after(before, c.start, 0),
                        decreases out.len() - p,
                    {
                        p += 1;
                    }
                    let ghost cv = c@;
                    out.insert(p, c);
                    assert(chapters_view(out@) =~= before.insert(p as int, cv));
                    assert(pv.take(k + 1).filter_map(f) == pv.take(k as int).filter_map(f) + seq![cv]);
                    assert(pv.take(k as int).filter_map(f) + seq![cv] =~= pv.take(k as int).filter_map(f).push(cv));
                    assert(pv.take(k as int).filter_map(f).push(cv).drop_last() =~= pv.take(k as int).filter_map(f));
                },
                Err(_) => {
                    assert(pv.take(k + 1).filter_map(f) == pv.take(k as int).filter_map(f));
                },
            }
            k += 1;
        }
        assert(pv.take(pieces.len() as int) == pv);
        Chapters { chapters: out, media_kind: ChaptersMediaKind::from(self.media_kind.as_str()) }
    }
}

} // verus!

verus! {

impl Chapters {
    /// The chapters, each unnamed one named by its place where
    /// `Chapter::guess_kind` can.
    pub fn into_guessed(self) -> (r: Vec<Chapter>)
        ensures
            chapters_view(r@) == guess_all(self@.chapters, self@.media_kind),
    {
        let Chapters { chapters, media_kind } = self;
        let total = chapters.len();
        let ghost orig = chapters_view(chapters@);
        let mut rest = chapters;
        let mut reversed: Vec<Chapter> = Vec::new();
        while rest.len() > 0
            invariant
                rest.len() + reversed.len() == total,
                orig.len() == total,
                forall|i: int| 0 <= i < rest.len() ==> #[trigger] rest@[i]@ == orig[i],
                forall|i: int| 0 <= i < reversed.len() ==> #[trigger] reversed@[i]@ == orig[total - 1 - i],
            decreases rest.len(),
        {
            let c = rest.pop().unwrap();
            reversed.push(c);
        }
        let mut out: Vec<Chapter> = Vec::new();
        while reversed.len() > 0
            invariant
                out.len() + reversed.len() == total,
                orig.len() == total,
                forall|i: int| 0 <= i < reversed.len() ==> #[trigger] reversed@[i]@ == orig[total - 1 - i],
                forall|i: int| 0 <= i < out.len() ==> #[trigger] out@[i]@ == guessed(orig[i], i, total as int, media_kind@),
            decreases reversed.len(),
        {
            let mut c = reversed.pop().unwrap();
            let index = out.len();
            c.guess_kind(index, total, &media_kind);
            out.push(c);
        }
        assert(chapters_view(out@) =~= guess_all(orig, media_kind@));
        out
    }
}

/// The prefix of the player script line that holds the chapters.
pub open spec fn skip_button_prefix() -> Seq<char> {
    "playerSettings.skipButton = parseSkipButton(\""@
}

/// The chapter list and media kind that the player script passes to
/// `parseSkipButton("<chapters>", "<kind>")`, without quotes and spaces.
pub open spec fn raw_chapters_info(script: Seq<char>) -> Option<(Seq<char>, Seq<char>)> {
    match js_value(script, skip_button_prefix(), "\");"@) {
        Some(v) => match rsplit_once(v, ","@) {
            Some((c, m)) => match strip_suffix(trim(c), "\""@) {
                Some(c2) => match strip_prefix(trim(m), "\""@) {
                    Some(m2) => Some((c2, m2)),
                    None => None,
                },
                None => None,
            },
            None => None,
        },
        None => None,
    }
}

/// The chapters a player script declares: sorted by start, unnamed ones
/// named by place.
pub open spec fn script_chapters(script: Seq<char>) -> Option<Seq<ChapterView>> {
    match raw_chapters_info(script) {
        Some((c, m)) => Some(guess_all(sort_by_start(listed_chapters(c)), media_kind_of(m))),
        None => None,
    }
}

impl PlayerScript {
    /// The chapter list and media kind of the script's skip button.
    pub fn extract_raw_chapters_info(&self) -> (r: Option<RawChapters>)
        ensures
            match r {
                Some(raw) => raw_chapters_info(self@) == Some((raw.chapters@, raw.media_kind@)),
                None => raw_chapters_info(self@) is None,
            },
    {
        let script = chars_of(self.script());
        let v = match find_js_value(&chars_of("playerSettings.skipButton = parseSkipButton(\""), &script, &chars_of("\");")) {
            Some(v) => v,
            None => return None,
        };
        let (c, m) = match rsplit_once_vec(&v, &chars_of(",")) {
            Some(p) => p,
            None => return None,
        };
        let quote = chars_of("\"");
        let chapters = match strip_suffix_vec(&trimmed(&c), &quote) {
            Some(x) => x,
            None => return None,
        };
        let media_kind = match strip_prefix_vec(&trimmed(&m), &quote) {
            Some(x) => x,
            None => return None,
        };
        Some(RawChapters { chapters: string_of(&chapters), media_kind: string_of(&media_kind) })
    }

    /// The chapters the script declares, sorted by start, with kinds guessed
    /// where the script names none; `None` where it declares no skip button.
    pub fn get_chapters(&self) -> (r: Option<Vec<Chapter>>)
        ensures
            match r {
                Some(v) => script_chapters(self@) == Some(chapters_view(v@)),
                None => script_chapters(self@) is None,
            },
    {
        let raw = match self.extract_raw_chapters_info() {
            Some(raw) => raw,
            None => return None,
        };
        Some(raw.parse().into_guessed())
    }
}

/// Guessing only names: every chapter keeps its start, its end and its
/// place, a chapter with a kind keeps that kind, and guessing again changes
/// nothing.
pub proof fn lemma_guessing_only_names(s: Seq<ChapterView>, media: ChaptersMediaKindView)
    ensures
        guess_all(s, media).len() == s.len(),
        forall|i: int| 0 <= i < s.len() ==> {
            &&& #[trigger] guess_all(s, media)[i].start == s[i].start
            &&& guess_all(s, media)[i].end == s[i].end
            &&& s[i].kind is Some ==> guess_all(s, media)[i] == s[i]
        },
        guess_all(guess_all(s, media), media) == guess_all(s, media),
{
    assert(guess_all(guess_all(s, media), media) =~= guess_all(s, media));
}

/// Guessing names an unnamed chapter only in two windows: the first
/// chapter when it starts within the first three minutes (opening for
/// anime, intro otherwise), and the second of exactly two chapters when it
/// starts after fifteen minutes (ending for anime, credits otherwise).  Any
/// other unnamed chapter, a first one at 10 minutes say, stays unnamed.
pub proof fn lemma_guess_windows(c: ChapterView, index: int, total: int, media: ChaptersMediaKindView)
    ensures
        c.kind is None && !(index == 0 && c.start <= 180) && !(index == 1 && total == 2 && c.start >= 900)
            ==> guessed(c, index, total, media).kind is None,
        c.kind is None && index == 0 && c.start > 180 ==> guessed(c, index, total, media).kind is None,
        c.kind is None && index == 0 && c.start <= 180 ==> guessed(c, index, total, media).kind == Some(
            if media is Anime {
                ChapterKindView::Opening
            } else {
                ChapterKindView::Intro
            },
        ),
        c.kind is None && index == 1 && total == 2 && c.start >= 900 ==> guessed(c, index, total, media).kind
            == Some(
            if media is Anime {
                ChapterKindView::Ending
            } else {
                ChapterKindView::Credits
            },
        ),
        guessed(c, index, total, media).start == c.start,
        guessed(c, index, total, media).end == c.end,
{
}

} // verus!
