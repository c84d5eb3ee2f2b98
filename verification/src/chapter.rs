use vstd::prelude::*;
use crate::time::Time;

verus! {

/// Whether a channel is on air.
#[derive(Debug, Clone, Copy, PartialEq, Eq, Structural)]
pub enum LiveStatusType {
    Open,
    Close,
}

/// What a channel reported at one moment.
#[derive(Debug, Clone, PartialEq, Eq)]
pub struct LiveStatus {
    pub status: LiveStatusType,
    pub live_title: String,
    pub live_category: Option<String>,
}

/// A title and category, with the time into the recording at which they
/// were seen.
#[derive(Debug, Clone, PartialEq, Eq)]
pub struct Chapter(pub Time, pub LiveStatus);

/// A chapter as plain values.
pub struct ChapterView {
    pub offset: Time,
    pub open: bool,
    pub title: Seq<char>,
    pub category: Option<Seq<char>>,
}

/// What to do with a newly seen status.
#[derive(Debug, Clone, Copy, PartialEq, Eq, Structural)]
pub enum Decision {
    /// Nothing changes.
    Ignore,
    /// The status becomes a new chapter at the end.
    Append,
    /// The chapter at this index takes the category of the status.
    RewriteCategoryOf(usize),
}

/// The characters of an optional text.
pub open spec fn text_of(t: Option<String>) -> Option<Seq<char>> {
    match t {
        Some(s) => Some(s@),
        None => None,
    }
}

impl View for Chapter {
    type V = ChapterView;

    open spec fn view(&self) -> ChapterView {
        ChapterView {
            offset: self.0,
            open: self.1.status == LiveStatusType::Open,
            title: self.1.live_title@,
            category: text_of(self.1.live_category),
        }
    }
}

/// The chapters of a list as plain values, in the same order.
pub open spec fn views(chapters: Seq<Chapter>) -> Seq<ChapterView> {
    Seq::new(chapters.len(), |i: int| chapters[i]@)
}

/// Every offset of the list can be counted in seconds.
pub open spec fn offsets_wf(chapters: Seq<Chapter>) -> bool {
    forall|i: int| 0 <= i < chapters.len() ==> (#[trigger] chapters[i]).0.wf()
}

/// The window that absorbs a repeated title, in seconds.
pub const MERGE_WINDOW_SECS: u64 = 60;

/// `entry` was seen at most sixty seconds before `candidate`, or after it.
pub open spec fn in_window(entry: ChapterView, candidate: ChapterView) -> bool {
    candidate.offset.total_secs() - entry.offset.total_secs() <= MERGE_WINDOW_SECS
}

/// `entry` lies in the window and carries the candidate's title.
pub open spec fn is_match(entry: ChapterView, candidate: ChapterView) -> bool {
    in_window(entry, candidate) && entry.title == candidate.title
}

/// Among the first `n` entries, the one at `i` matches the candidate and has
/// the smallest offset of all that match; of several with that offset it is
/// the first.
pub open spec fn is_oldest_match_upto(
    history: Seq<ChapterView>,
    candidate: ChapterView,
    i: int,
    n: int,
) -> bool {
    &&& 0 <= i < n <= history.len()
    &&& is_match(history[i], candidate)
    &&& forall|j: int|
        0 <= j < n && is_match(#[trigger] history[j], candidate)
            ==> history[i].offset.total_secs() <= history[j].offset.total_secs()
    &&& forall|j: int|
        0 <= j < i && is_match(#[trigger] history[j], candidate)
            ==> history[i].offset.total_secs() < history[j].offset.total_secs()
}

/// The entry at `i` is the oldest of the whole history that matches.
pub open spec fn is_oldest_match(history: Seq<ChapterView>, candidate: ChapterView, i: int) -> bool {
    is_oldest_match_upto(history, candidate, i, history.len() as int)
}

/// Some entry of the history matches the candidate.
pub open spec fn has_match(history: Seq<ChapterView>, candidate: ChapterView) -> bool {
    exists|j: int| 0 <= j < history.len() && is_match(#[trigger] history[j], candidate)
}

/// The rule by which a status is ignored, appended or merged into an
/// earlier chapter.
pub open spec fn decide(history: Seq<ChapterView>, candidate: ChapterView) -> Decision {
    if !candidate.open {
        Decision::Ignore
    } else if history.len() == 0 {
        Decision::Append
    } else if exists|i: int| is_oldest_match(history, candidate, i) {
        let i = choose|i: int| is_oldest_match(history, candidate, i);
        if history[i].category != candidate.category {
            Decision::RewriteCategoryOf(i as usize)
        } else {
            Decision::Ignore
        }
    } else if history.last().title != candidate.title || history.last().category
        != candidate.category {
        Decision::Append
    } else {
        Decision::Ignore
    }
}

/// The history after a decision has been carried out.
pub open spec fn applied(
    history: Seq<ChapterView>,
    candidate: ChapterView,
    decision: Decision,
) -> Seq<ChapterView> {
    match decision {
        Decision::Ignore => history,
        Decision::Append => history.push(candidate),
        Decision::RewriteCategoryOf(i) => history.update(
            i as int,
            ChapterView { category: candidate.category, ..history[i as int] },
        ),
    }
}

/// No two entries are the oldest match.
pub proof fn lemma_oldest_match_unique(
    history: Seq<ChapterView>,
    candidate: ChapterView,
    i: int,
    j: int,
)
    requires
        is_oldest_match(history, candidate, i),
        is_oldest_match(history, candidate, j),
    ensures
        i == j,
{
    if i < j {
        assert(is_match(history[i], candidate));
    } else if j < i {
        assert(is_match(history[j], candidate));
    }
}

/// Where any entry among the first `n` matches, one of them is the oldest.
pub proof fn lemma_oldest_match_exists(history: Seq<ChapterView>, candidate: ChapterView, n: int)
    requires
        0 <= n <= history.len(),
        exists|j: int| 0 <= j < n && is_match(#[trigger] history[j], candidate),
    ensures
        exists|i: int| is_oldest_match_upto(history, candidate, i, n),
    decreases n,
{
    let last = n - 1;
    if exists|j: int| 0 <= j < last && is_match(#[trigger] history[j], candidate) {
        lemma_oldest_match_exists(history, candidate, last);
        let b = choose|i: int| is_oldest_match_upto(history, candidate, i, last);
        if is_match(history[last], candidate) && history[last].offset.total_secs()
            < history[b].offset.total_secs() {
            assert(is_oldest_match_upto(history, candidate, last, n));
        } else {
            assert(is_oldest_match_upto(history, candidate, b, n));
        }
    } else {
        assert(is_match(history[last], candidate));
        assert(is_oldest_match_upto(history, candidate, last, n));
    }
}

fn same_text(a: &Option<String>, b: &Option<String>) -> (same: bool)
    ensures
        same == (text_of(*a) == text_of(*b)),
{
    match (a, b) {
        (Some(x), Some(y)) => *x == *y,
        (None, None) => true,
        _ => false,
    }
}

/// Decides what a newly seen status does to the chapters recorded so far.
pub fn consider(history: &Vec<Chapter>, candidate: &Chapter) -> (decision: Decision)
    requires
        offsets_wf(history@),
        candidate.0.wf(),
    ensures
        decision == decide(views(history@), candidate@),
        match decision {
            Decision::RewriteCategoryOf(i) => is_oldest_match(
                views(history@),
                candidate@,
                i as int,
            ),
            _ => true,
        },
{
    if candidate.1.status == LiveStatusType::Close {
        return Decision::Ignore;
    }
    let n: usize = history.len();
    if n == 0 {
        return Decision::Append;
    }
    let ghost hv = views(history@);
    let ghost cv = candidate@;
    let at: u64 = candidate.0.as_secs();
    let mut best: Option<usize> = None;
    let mut best_secs: u64 = 0;
    let mut i: usize = 0;
    while i < n
        invariant
            n == history.len(),
            i <= n,
            hv == views(history@),
            cv == candidate@,
            offsets_wf(history@),
            at == cv.offset.total_secs(),
            match best {
                Some(b) => is_oldest_match_upto(hv, cv, b as int, i as int) && best_secs
                    == hv[b as int].offset.total_secs(),
                None => forall|j: int| 0 <= j < i ==> !is_match(#[trigger] hv[j], cv),
            },
        decreases n - i,
    {
        let entry = &history[i];
        assert(hv[i as int] == entry@);
        let secs: u64 = entry.0.as_secs();
        let near: bool = at <= secs || at - secs <= MERGE_WINDOW_SECS;
        if near && entry.1.live_title == candidate.1.live_title {
            match best {
                Some(_) => {
                    if secs < best_secs {
                        best = Some(i);
                        best_secs = secs;
                    }
                },
                None => {
                    best = Some(i);
                    best_secs = secs;
                },
            }
        }
        i += 1;
    }
    match best {
        Some(b) => {
            proof {
                assert(is_oldest_match(hv, cv, b as int));
                let c = choose|k: int| is_oldest_match(hv, cv, k);
                lemma_oldest_match_unique(hv, cv, b as int, c);
            }
            assert(hv[b as int] == history[b as int]@);
            if same_text(&history[b].1.live_category, &candidate.1.live_category) {
                Decision::Ignore
            } else {
                Decision::RewriteCategoryOf(b)
            }
        },
        None => {
            assert(forall|k: int| !is_oldest_match(hv, cv, k));
            let last = &history[n - 1];
            assert(hv.last() == last@);
            if last.1.live_title != candidate.1.live_title || !same_text(
                &last.1.live_category,
                &candidate.1.live_category,
            ) {
                Decision::Append
            } else {
                Decision::Ignore
            }
        },
    }
}

/// Records a newly seen status: it is ignored, appended, or merged into the
/// oldest chapter of the last minute with the same title. Returns whether
/// the chapters changed.
pub fn modify_or_push_chapter(chapters: &mut Vec<Chapter>, curr: Chapter) -> (modified: bool)
    requires
        offsets_wf(old(chapters)@),
        curr.0.wf(),
    ensures
        views(final(chapters)@) == applied(
            views(old(chapters)@),
            curr@,
            decide(views(old(chapters)@), curr@),
        ),
        modified == (decide(views(old(chapters)@), curr@) != Decision::Ignore),
        offsets_wf(final(chapters)@),
{
    let decision = consider(chapters, &curr);
    let ghost before = chapters@;
    match decision {
        Decision::Ignore => false,
        Decision::Append => {
            chapters.push(curr);
            assert(views(chapters@) =~= views(before).push(curr@));
            true
        },
        Decision::RewriteCategoryOf(i) => {
            let Chapter(offset, status) = chapters.remove(i);
            let merged = Chapter(
                offset,
                LiveStatus {
                    status: status.status,
                    live_title: status.live_title,
                    live_category: curr.1.live_category,
                },
            );
            chapters.insert(i, merged);
            assert(views(chapters@) =~= views(before).update(
                i as int,
                ChapterView { category: curr@.category, ..views(before)[i as int] },
            ));
            true
        },
    }
}

/// The history after one status has been considered.
pub open spec fn recorded(history: Seq<ChapterView>, candidate: ChapterView) -> Seq<ChapterView> {
    applied(history, candidate, decide(history, candidate))
}

/// The history after the statuses of `candidates` have been considered in
/// turn.
pub open spec fn recorded_all(
    history: Seq<ChapterView>,
    candidates: Seq<ChapterView>,
) -> Seq<ChapterView>
    decreases candidates.len(),
{
    if candidates.len() == 0 {
        history
    } else {
        recorded(recorded_all(history, candidates.drop_last()), candidates.last())
    }
}

/// A status is merged or ignored, never appended, where any chapter
/// matches it: the history keeps its length.
pub proof fn lemma_match_never_grows(history: Seq<ChapterView>, candidate: ChapterView)
    requires
        has_match(history, candidate),
    ensures
        recorded(history, candidate).len() == history.len(),
        !(decide(history, candidate) is Append),
{
    if candidate.open {
        lemma_oldest_match_exists(history, candidate, history.len() as int);
        let w = choose|i: int| is_oldest_match_upto(history, candidate, i, history.len() as int);
        assert(is_oldest_match(history, candidate, w));
    }
}

/// Statuses that are on air and repeat one title and category, none more
/// than the window after the first, leave a single chapter: the first.
pub proof fn lemma_repeats_keep_one_chapter(candidates: Seq<ChapterView>)
    requires
        candidates.len() > 0,
        forall|i: int|
            0 <= i < candidates.len() ==> {
                &&& (#[trigger] candidates[i]).open
                &&& candidates[i].title == candidates[0].title
                &&& candidates[i].category == candidates[0].category
                &&& in_window(candidates[0], candidates[i])
            },
    ensures
        recorded_all(Seq::empty(), candidates) == seq![candidates[0]],
    decreases candidates.len(),
{
    let first = candidates[0];
    if candidates.len() == 1 {
        assert(candidates.drop_last() =~= Seq::<ChapterView>::empty());
        assert(recorded_all(Seq::empty(), candidates.drop_last()) == Seq::<ChapterView>::empty());
        assert(Seq::<ChapterView>::empty().push(first) =~= seq![first]);
    } else {
        let earlier = candidates.drop_last();
        assert(earlier[0] == first);
        assert forall|i: int| 0 <= i < earlier.len() implies {
            &&& (#[trigger] earlier[i]).open
            &&& earlier[i].title == earlier[0].title
            &&& earlier[i].category == earlier[0].category
            &&& in_window(earlier[0], earlier[i])
        } by {
            assert(earlier[i] == candidates[i]);
        }
        lemma_repeats_keep_one_chapter(earlier);
        let history = seq![first];
        let last = candidates.last();
        assert(is_oldest_match(history, last, 0));
        let i = choose|i: int| is_oldest_match(history, last, i);
        lemma_oldest_match_unique(history, last, i, 0);
    }
}

/// A status with the title of the only chapter, seen within the window but
/// with another category, leaves that one chapter, at its old offset and
/// with the new category.
pub proof fn lemma_category_is_corrected(entry: ChapterView, candidate: ChapterView)
    requires
        candidate.open,
        is_match(entry, candidate),
        entry.category != candidate.category,
    ensures
        decide(seq![entry], candidate) == Decision::RewriteCategoryOf(0),
        recorded(seq![entry], candidate) == seq![
            ChapterView { category: candidate.category, ..entry },
        ],
{
    let history = seq![entry];
    assert(is_oldest_match(history, candidate, 0));
    let i = choose|i: int| is_oldest_match(history, candidate, i);
    lemma_oldest_match_unique(history, candidate, i, 0);
    assert(history.update(0, ChapterView { category: candidate.category, ..entry }) =~= seq![
        ChapterView { category: candidate.category, ..entry },
    ]);
}

/// A status on air whose title no chapter has is appended, however close
/// in time the chapters are.
pub proof fn lemma_new_title_appends(history: Seq<ChapterView>, candidate: ChapterView)
    requires
        candidate.open,
        forall|i: int| 0 <= i < history.len() ==> (#[trigger] history[i]).title != candidate.title,
    ensures
        recorded(history, candidate) == history.push(candidate),
{
    assert(forall|i: int| !is_oldest_match(history, candidate, i));
}

/// A status on air none of whose namesakes lies in the window is not merged
/// into any of them: it is appended where it differs from the latest chapter
/// in title or category, and ignored where it repeats the latest chapter.
pub proof fn lemma_outside_window_never_merges(history: Seq<ChapterView>, candidate: ChapterView)
    requires
        candidate.open,
        history.len() > 0,
        forall|i: int|
            0 <= i < history.len() && (#[trigger] history[i]).title == candidate.title
                ==> !in_window(history[i], candidate),
    ensures
        history.last().title != candidate.title || history.last().category != candidate.category
            ==> recorded(history, candidate) == history.push(candidate),
        history.last().title == candidate.title && history.last().category == candidate.category
            ==> recorded(history, candidate) == history,
{
    assert(forall|i: int| !is_oldest_match(history, candidate, i));
}

/// The offsets of a history never fall from one chapter to the next.
pub open spec fn offsets_ascending(history: Seq<ChapterView>) -> bool {
    forall|i: int, j: int|
        0 <= i <= j < history.len() ==> (#[trigger] history[i]).offset.total_secs() <= (
        #[trigger] history[j]).offset.total_secs()
}

/// A history in ascending order stays so when a status is considered that
/// was seen no earlier than its latest chapter.
pub proof fn lemma_recorded_stays_ascending(history: Seq<ChapterView>, candidate: ChapterView)
    requires
        offsets_ascending(history),
        history.len() > 0 ==> history.last().offset.total_secs()
            <= candidate.offset.total_secs(),
    ensures
        offsets_ascending(recorded(history, candidate)),
{
    let after = recorded(history, candidate);
    match decide(history, candidate) {
        Decision::Ignore => {},
        Decision::Append => {
            assert forall|i: int, j: int| 0 <= i <= j < after.len() implies (
            #[trigger] after[i]).offset.total_secs() <= (
            #[trigger] after[j]).offset.total_secs() by {
                if j == history.len() && i < j {
                    assert(after[i] == history[i]);
                    assert(history[i].offset.total_secs() <= history[history.len()
                        - 1].offset.total_secs());
                } else if j < history.len() {
                    assert(after[i] == history[i] && after[j] == history[j]);
                }
            }
        },
        Decision::RewriteCategoryOf(at) => {
            let w = choose|k: int| is_oldest_match(history, candidate, k);
            assert(is_oldest_match(history, candidate, w));
            assert forall|i: int, j: int| 0 <= i <= j < after.len() implies (
            #[trigger] after[i]).offset.total_secs() <= (
            #[trigger] after[j]).offset.total_secs() by {
                assert(after[i].offset == history[i].offset);
                assert(after[j].offset == history[j].offset);
            }
        },
    }
}

} // verus!
