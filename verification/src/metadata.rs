use vstd::prelude::*;
use vstd::string::*;
use crate::chapter::{Chapter, ChapterView, LiveStatus, offsets_wf, views};
use crate::encode::texts;
use crate::text::{replace_char, replaced};
use crate::time::{make_to_least_two_chars, readable, two_chars, Time};

verus! {

/// A chapter list in the text form that the muxer reads, and the number
/// that the next chapter will get.
pub struct Metadata(pub String, u64);

/// The two lines of the chapter with number `index`: its start, then its name.
pub open spec fn chapter_lines(index: nat, title: Seq<char>, start: Time) -> Seq<char> {
    ("CHAPTER"@ + two_chars(index)).push('=') + readable(start, ":"@) + ".000\n"@ + (("CHAPTER"@
        + two_chars(index) + "NAME="@ + title).push('\n'))
}

/// The name under which a chapter is shown: its title, the word "Playing",
/// and its category with spaces for underscores ("unknown" where it has none).
pub open spec fn chapter_title(chapter: ChapterView) -> Seq<char> {
    let category = match chapter.category {
        Some(c) => c,
        None => "unknown"@,
    };
    chapter.title + " Playing "@ + replaced(category, '_', " "@)
}

/// Where the record of the entry at `k` starts: at the offset of the entry
/// before it, and at zero for the first.
pub open spec fn start_of(chapters: Seq<ChapterView>, k: int) -> Time {
    if k <= 0 {
        Time(0, 0, 0)
    } else {
        chapters[k - 1].offset
    }
}

/// The chapter list of the first `n` entries: entry `k` gets the number
/// `k + 1`, its own name, and the start given by `start_of`.
pub open spec fn rendered(chapters: Seq<ChapterView>, n: nat) -> Seq<char>
    decreases n,
{
    if n == 0 {
        Seq::empty()
    } else {
        rendered(chapters, (n - 1) as nat) + chapter_lines(
            n,
            chapter_title(chapters[n - 1]),
            start_of(chapters, n - 1),
        )
    }
}

/// The chapters of a list whose offset is `secs` seconds, in the order of
/// the list.
pub open spec fn at_offset(chapters: Seq<Chapter>, secs: nat) -> Seq<Chapter> {
    chapters.filter(|c: Chapter| c.0.total_secs() == secs)
}

/// `out` holds the chapters of `input` in ascending order of offset, and
/// chapters with the same offset in the order in which `input` holds them.
pub open spec fn is_stable_sort(out: Seq<Chapter>, input: Seq<Chapter>) -> bool {
    &&& out.len() == input.len()
    &&& ascending(out)
    &&& forall|secs: nat| #[trigger] at_offset(out, secs) == at_offset(input, secs)
}

/// The offsets of a list never fall from one chapter to the next.
pub open spec fn ascending(chapters: Seq<Chapter>) -> bool {
    forall|i: int, j: int|
        0 <= i <= j < chapters.len() ==> (#[trigger] chapters[i]).0.total_secs() <= (
        #[trigger] chapters[j]).0.total_secs()
}

proof fn lemma_at_offset_unfold(chapters: Seq<Chapter>, secs: nat)
    requires
        chapters.len() > 0,
    ensures
        at_offset(chapters, secs) == if chapters.last().0.total_secs() == secs {
            at_offset(chapters.drop_last(), secs).push(chapters.last())
        } else {
            at_offset(chapters.drop_last(), secs)
        },
{
    reveal(Seq::filter);
}

proof fn lemma_at_offset_member(chapters: Seq<Chapter>, secs: nat)
    requires
        at_offset(chapters, secs).len() > 0,
    ensures
        exists|i: int| 0 <= i < chapters.len() && (#[trigger] chapters[i]).0.total_secs() == secs,
    decreases chapters.len(),
{
    if chapters.len() == 0 {
        reveal(Seq::filter);
    } else {
        lemma_at_offset_unfold(chapters, secs);
        if chapters.last().0.total_secs() == secs {
            assert(chapters[chapters.len() - 1].0.total_secs() == secs);
        } else {
            lemma_at_offset_member(chapters.drop_last(), secs);
            let i = choose|i: int|
                0 <= i < chapters.drop_last().len() && (#[trigger] chapters.drop_last()[i]).0.total_secs()
                    == secs;
            assert(chapters[i].0.total_secs() == secs);
        }
    }
}

/// A list whose offsets are in ascending order already is its own stable
/// sort, and it has no other.
pub proof fn lemma_ascending_input_is_kept(out: Seq<Chapter>, input: Seq<Chapter>)
    requires
        is_stable_sort(out, input),
        ascending(input),
    ensures
        out == input,
    decreases input.len(),
{
    if input.len() == 0 {
        assert(out =~= input);
    } else {
        let k = input.last().0.total_secs();
        let k2 = out.last().0.total_secs();
        let out_rest = out.drop_last();
        let input_rest = input.drop_last();
        lemma_at_offset_unfold(out, k2);
        assert(at_offset(out, k2) == at_offset(input, k2));
        lemma_at_offset_member(input, k2);
        lemma_at_offset_unfold(input, k);
        assert(at_offset(out, k) == at_offset(input, k));
        lemma_at_offset_member(out, k);
        assert(k == k2);
        lemma_at_offset_unfold(out, k);
        let a = at_offset(out_rest, k);
        let b = at_offset(input_rest, k);
        assert(a.push(out.last()) == b.push(input.last()));
        assert(a.push(out.last()).last() == out.last());
        assert(b.push(input.last()).last() == input.last());
        assert(a.push(out.last()).drop_last() =~= a);
        assert(b.push(input.last()).drop_last() =~= b);
        assert forall|secs: nat| #[trigger]
            at_offset(out_rest, secs) == at_offset(input_rest, secs) by {
            lemma_at_offset_unfold(out, secs);
            lemma_at_offset_unfold(input, secs);
            assert(at_offset(out, secs) == at_offset(input, secs));
        }
        assert forall|i: int, j: int| 0 <= i <= j < out_rest.len() implies (
        #[trigger] out_rest[i]).0.total_secs() <= (#[trigger] out_rest[j]).0.total_secs() by {
            assert(out_rest[i] == out[i] && out_rest[j] == out[j]);
        }
        assert(ascending(input_rest)) by {
            assert forall|i: int, j: int| 0 <= i <= j < input_rest.len() implies (
            #[trigger] input_rest[i]).0.total_secs() <= (
            #[trigger] input_rest[j]).0.total_secs() by {
                assert(input_rest[i] == input[i] && input_rest[j] == input[j]);
            }
        }
        lemma_ascending_input_is_kept(out_rest, input_rest);
        assert(out =~= out_rest.push(out.last()));
        assert(input =~= input_rest.push(input.last()));
    }
}

/// `sort_by_key` of the standard library's slices, with the offset in
/// seconds as the key. It sorts in place, ascending by key, and is stable:
/// elements with equal keys keep their order.
#[verifier::external_body]
fn sort_by_offset(chapters: &mut Vec<Chapter>)
    requires
        offsets_wf(old(chapters)@),
    ensures
        is_stable_sort(final(chapters)@, old(chapters)@),
{
    chapters.sort_by_key(|chapter| chapter.0.as_secs());
}

impl Metadata {
    /// The text written so far: what the public field holds.
    pub closed spec fn text(&self) -> Seq<char> {
        self.0@
    }

    /// The number that the next chapter gets.
    pub closed spec fn next_index(&self) -> nat {
        self.1 as nat
    }

    /// An empty chapter list, whose first chapter gets the number 1.
    pub fn new() -> (m: Metadata)
        ensures
            m.text() == Seq::<char>::empty(),
            m.next_index() == 1,
    {
        Metadata(String::new(), 1)
    }

    /// Appends the two lines of one chapter and counts it.
    pub fn add_chapter(&mut self, title: &str, start: Time)
        requires
            old(self).next_index() < u64::MAX,
        ensures
            final(self).text() == old(self).text() + chapter_lines(
                old(self).next_index(),
                title@,
                start,
            ),
            final(self).next_index() == old(self).next_index() + 1,
    {
        let ghost before = self.0@;
        let index = make_to_least_two_chars(self.1);
        let clock = start.to_readable(":");

        self.0.append("CHAPTER");
        self.0.append(index.as_str());
        self.0.push('=');
        self.0.append(clock.as_str());
        self.0.append(".000\n");

        self.0.append("CHAPTER");
        self.0.append(index.as_str());
        self.0.append("NAME=");
        self.0.append(title);
        self.0.push('\n');

        self.1 += 1;
        assert(self.0@ =~= before + chapter_lines(old(self).next_index(), title@, start));
    }

    /// Hands the text out.
    pub fn into_text(self) -> (out: String)
        ensures
            out@ == self.text(),
    {
        self.0
    }
}

/// The name under which the chapter of a status is shown.
pub fn chapter_name(status: &LiveStatus) -> (name: String)
    ensures
        name@ == chapter_title(Chapter(Time(0, 0, 0), *status)@),
{
    let category = match &status.live_category {
        Some(c) => replace_char(c.as_str(), '_', " "),
        None => replace_char("unknown", '_', " "),
    };
    let mut name = status.live_title.clone();
    name.append(" Playing ");
    name.append(category.as_str());
    name
}

/// The chapter list of a recording, from the statuses seen while it ran.
/// They are put in order of offset first; what the list then holds is
/// `rendered` of that order.
pub fn chapter_list(chapters: Vec<Chapter>) -> (metadata: Metadata)
    requires
        offsets_wf(chapters@),
        chapters.len() < u64::MAX,
    ensures
        exists|sorted: Seq<Chapter>|
            #![auto]
            is_stable_sort(sorted, chapters@) && metadata.text() == rendered(
                views(sorted),
                sorted.len(),
            ),
        ascending(chapters@) ==> metadata.text() == rendered(
            views(chapters@),
            chapters@.len(),
        ),
        metadata.next_index() == chapters.len() + 1,
{
    let mut chapters = chapters;
    let ghost input = chapters@;
    sort_by_offset(&mut chapters);
    let ghost sorted = chapters@;
    let mut metadata = Metadata::new();
    let n: usize = chapters.len();
    let mut k: usize = 0;
    while k < n
        invariant
            n == chapters.len(),
            chapters@ == sorted,
            n < u64::MAX,
            k <= n,
            metadata.next_index() == k + 1,
            metadata.text() == rendered(views(sorted), k as nat),
        decreases n - k,
    {
        let start = if k == 0 {
            Time(0, 0, 0)
        } else {
            chapters[k - 1].0
        };
        let name = chapter_name(&chapters[k].1);
        metadata.add_chapter(name.as_str(), start);
        k += 1;
    }
    proof {
        if ascending(input) {
            lemma_ascending_input_is_kept(sorted, input);
        }
    }
    metadata
}

/// What embedding the chapters of a finished recording takes.
pub struct AddMetadata {
    /// The recorded file.
    pub container_path: String,
    /// Where the chapter list is written for the muxer to read.
    pub metadata_path: String,
    pub chapters: Vec<Chapter>,
}

/// The chapter list to write and the muxer's command line.
pub struct MuxJob {
    pub text: String,
    pub args: Vec<String>,
}

/// The muxer's arguments: the file, the audio track's language set to
/// Korean, and the chapter list to embed.
pub open spec fn mkvpropedit_args(
    container_path: Seq<char>,
    metadata_path: Seq<char>,
) -> Seq<Seq<char>> {
    seq![
        container_path,
        "--edit"@,
        "track:a1"@,
        "--set"@,
        "language=ko"@,
        "--chapters"@,
        metadata_path,
    ]
}

impl AddMetadata {
    /// Puts the chapters in order and writes them out as a chapter list,
    /// with the command line that embeds it.
    pub fn execute(self) -> (job: MuxJob)
        requires
            offsets_wf(self.chapters@),
            self.chapters.len() < u64::MAX,
        ensures
            exists|sorted: Seq<Chapter>|
                #![auto]
                is_stable_sort(sorted, self.chapters@) && job.text@ == rendered(
                    views(sorted),
                    sorted.len(),
                ),
            ascending(self.chapters@) ==> job.text@ == rendered(
                views(self.chapters@),
                self.chapters@.len(),
            ),
            texts(job.args@) == mkvpropedit_args(self.container_path@, self.metadata_path@),
    {
        let metadata = chapter_list(self.chapters);
        let mut args: Vec<String> = Vec::new();
        args.push(self.container_path);
        args.push("--edit".to_owned());
        args.push("track:a1".to_owned());
        args.push("--set".to_owned());
        args.push("language=ko".to_owned());
        args.push("--chapters".to_owned());
        args.push(self.metadata_path);
        assert(texts(args@) =~= mkvpropedit_args(self.container_path@, self.metadata_path@));
        MuxJob { text: metadata.into_text(), args }
    }
}

/// What is reported of the muxer's run: nothing where it succeeded, else
/// what it printed, or "unknown error" where that was no text.
pub fn mux_outcome(success: bool, printed: Option<String>) -> (report: Option<String>)
    ensures
        success ==> report is None,
        !success ==> report is Some && report->0@ == (match printed {
            Some(text) => text@,
            None => "unknown error"@,
        }),
{
    if success {
        None
    } else {
        match printed {
            Some(text) => Some(text),
            None => Some("unknown error".to_owned()),
        }
    }
}

} // verus!
