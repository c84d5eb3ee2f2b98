use vstd::prelude::*;
use vstd::string::*;
use crate::chapter::LiveStatusType;
use crate::text::{replace_char, replaced};

verus! {

/// What `str::trim` of the standard library returns for a text: the text
/// without the white space at its two ends.
pub uninterp spec fn trimmed(text: Seq<char>) -> Seq<char>;

/// `str::trim` of the standard library. The result is a function of the
/// text alone.
#[verifier::external_body]
fn trim_text(text: &str) -> (out: &str)
    ensures
        out@ == trimmed(text@),
{
    text.trim()
}

/// The text that chrono writes with the pattern `%Y-%m-%d_%H-%M-%S` for the
/// moment `unix_secs` seconds after the epoch, on a clock that is
/// `offset_secs` seconds east of UTC.
pub uninterp spec fn started_at_text(unix_secs: int, offset_secs: int) -> Seq<char>;

/// chrono's `FixedOffset::east_opt`, `DateTime::from_timestamp`,
/// `DateTime::with_timezone` and `DateTime::format`: the moment is built
/// from the seconds, moved to the offset and written out. The bounds keep
/// to offsets of less than a day and to moments from 1970 to a day before
/// the end of the year 9999, for which chrono builds both values and the
/// local date has a year of four digits; the text depends on the two
/// numbers alone.
#[verifier::external_body]
fn format_started_at(unix_secs: i64, offset_secs: i32) -> (stamp: String)
    requires
        0 <= unix_secs <= MAX_STARTED_AT,
        -DAY_SECS < offset_secs < DAY_SECS,
    ensures
        stamp@ == started_at_text(unix_secs as int, offset_secs as int),
{
    let offset = chrono::FixedOffset::east_opt(offset_secs).unwrap();
    let utc = chrono::DateTime::from_timestamp(unix_secs, 0).unwrap();
    utc.with_timezone(&offset).format("%Y-%m-%d_%H-%M-%S").to_string()
}

/// The seconds of a day: a clock's offset from UTC stays below it.
pub const DAY_SECS: i32 = 86_400;

/// The last moment that gets a directory name: one day before the end of
/// the year 9999, in seconds after the epoch.
pub const MAX_STARTED_AT: i64 = 253_402_214_399;

/// The name of the directory of a recording that started at `unix_secs`
/// seconds after the epoch, for a clock `offset_secs` seconds east of UTC.
/// There is none for an offset of a day or more, nor for a moment before
/// 1970 or after `MAX_STARTED_AT`.
pub fn session_directory_name(unix_secs: i64, offset_secs: i32) -> (name: Option<String>)
    ensures
        name is Some <==> (0 <= unix_secs <= MAX_STARTED_AT && -DAY_SECS < offset_secs
            < DAY_SECS),
        name is Some ==> name->0@ == started_at_text(unix_secs as int, offset_secs as int),
{
    if 0 <= unix_secs && unix_secs <= MAX_STARTED_AT && -DAY_SECS < offset_secs && offset_secs
        < DAY_SECS {
        Some(format_started_at(unix_secs, offset_secs))
    } else {
        None
    }
}

/// A text as the transcoder's metadata option takes it: `=`, `;` and `#`
/// get a backslash in front, then every backslash is doubled, then a line
/// break becomes a space. The steps follow one another, so the backslashes
/// of the first three are doubled too.
pub open spec fn escaped(text: Seq<char>) -> Seq<char> {
    replaced(
        replaced(
            replaced(replaced(replaced(text, '=', "\\="@), ';', "\\;"@), '#', "\\#"@),
            '\\',
            "\\\\"@,
        ),
        '\n',
        " "@,
    )
}

/// Escapes a text for the transcoder's metadata option.
pub fn escape_special_chars(s: &str) -> (out: String)
    ensures
        out@ == escaped(s@),
{
    let a = replace_char(s, '=', "\\=");
    let b = replace_char(a.as_str(), ';', "\\;");
    let c = replace_char(b.as_str(), '#', "\\#");
    let d = replace_char(c.as_str(), '\\', "\\\\");
    replace_char(d.as_str(), '\n', " ")
}

/// The texts of a list of strings, in the same order.
pub open spec fn texts(list: Seq<String>) -> Seq<Seq<char>> {
    Seq::new(list.len(), |i: int| list[i]@)
}

/// What a recording is started with.
pub struct EncodeStream<'a> {
    pub stream_url: &'a str,
    /// Where the finished file goes.
    pub save_file_path: &'a str,
    pub title: &'a str,
    pub artist: &'a str,
    pub ffmpeg_binary: &'a str,
    /// Whether the capture is piped through the transcoder.
    pub post_process: bool,
    pub video_codec: &'a str,
    pub audio_codec: &'a str,
}

/// The two command lines of a recording; the second only where the capture
/// is piped through the transcoder.
pub struct Launch {
    pub streamlink: Vec<String>,
    pub ffmpeg: Option<Vec<String>>,
}

/// The arguments of the capture process: it writes to its standard output
/// where the transcoder follows, and to the file where not.
pub open spec fn streamlink_args(
    stream_url: Seq<char>,
    ffmpeg_binary: Seq<char>,
    post_process: bool,
    save_file_path: Seq<char>,
) -> Seq<Seq<char>> {
    let common = seq![
        stream_url,
        "best"@,
        "--loglevel"@,
        "info"@,
        "--ffmpeg-ffmpeg"@,
        trimmed(ffmpeg_binary),
        "--ffmpeg-copyts"@,
        "--ffmpeg-fout"@,
        "matroska"@,
    ];
    if post_process {
        common.push("--stdout"@)
    } else {
        common.push("-o"@).push(save_file_path)
    }
}

/// The arguments of the transcoder, which reads the capture from its
/// standard input and writes the file.
pub open spec fn ffmpeg_args(
    video_codec: Seq<char>,
    audio_codec: Seq<char>,
    title: Seq<char>,
    artist: Seq<char>,
    save_file_path: Seq<char>,
) -> Seq<Seq<char>> {
    seq![
        "-hide_banner"@,
        "-nostats"@,
        "-loglevel"@,
        "info"@,
        "-i"@,
        "pipe:"@,
        "-c:v"@,
        video_codec,
        "-c:a"@,
        audio_codec,
        "-map_metadata"@,
        "0"@,
        "-metadata"@,
        ("title=\""@ + escaped(title)).push('"'),
        "-metadata"@,
        ("artist=\""@ + escaped(artist)).push('"'),
        save_file_path,
    ]
}

fn metadata_option(key: &str, value: &str) -> (out: String)
    ensures
        out@ == (key@ + escaped(value@)).push('"'),
{
    let mut out = key.to_owned();
    let value = escape_special_chars(value);
    out.append(value.as_str());
    out.push('"');
    out
}

impl<'a> EncodeStream<'a> {
    /// The command lines with which the recording is started.
    pub fn execute(self) -> (launch: Launch)
        ensures
            texts(launch.streamlink@) == streamlink_args(
                self.stream_url@,
                self.ffmpeg_binary@,
                self.post_process,
                self.save_file_path@,
            ),
            launch.ffmpeg is Some <==> self.post_process,
            launch.ffmpeg is Some ==> texts(launch.ffmpeg->0@) == ffmpeg_args(
                self.video_codec@,
                self.audio_codec@,
                self.title@,
                self.artist@,
                self.save_file_path@,
            ),
    {
        let mut streamlink: Vec<String> = Vec::new();
        streamlink.push(self.stream_url.to_owned());
        streamlink.push("best".to_owned());
        streamlink.push("--loglevel".to_owned());
        streamlink.push("info".to_owned());
        streamlink.push("--ffmpeg-ffmpeg".to_owned());
        streamlink.push(trim_text(self.ffmpeg_binary).to_owned());
        streamlink.push("--ffmpeg-copyts".to_owned());
        streamlink.push("--ffmpeg-fout".to_owned());
        streamlink.push("matroska".to_owned());
        if self.post_process {
            streamlink.push("--stdout".to_owned());
        } else {
            streamlink.push("-o".to_owned());
            streamlink.push(self.save_file_path.to_owned());
        }
        assert(texts(streamlink@) =~= streamlink_args(
            self.stream_url@,
            self.ffmpeg_binary@,
            self.post_process,
            self.save_file_path@,
        ));
        let ffmpeg = if self.post_process {
            let mut args: Vec<String> = Vec::new();
            args.push("-hide_banner".to_owned());
            args.push("-nostats".to_owned());
            args.push("-loglevel".to_owned());
            args.push("info".to_owned());
            args.push("-i".to_owned());
            args.push("pipe:".to_owned());
            args.push("-c:v".to_owned());
            args.push(self.video_codec.to_owned());
            args.push("-c:a".to_owned());
            args.push(self.audio_codec.to_owned());
            args.push("-map_metadata".to_owned());
            args.push("0".to_owned());
            args.push("-metadata".to_owned());
            args.push(metadata_option("title=\"", self.title));
            args.push("-metadata".to_owned());
            args.push(metadata_option("artist=\"", self.artist));
            args.push(self.save_file_path.to_owned());
            assert(texts(args@) =~= ffmpeg_args(
                self.video_codec@,
                self.audio_codec@,
                self.title@,
                self.artist@,
                self.save_file_path@,
            ));
            Some(args)
        } else {
            None
        };
        Launch { streamlink, ffmpeg }
    }
}

/// The place of the first medium with the identifier "HLS", if there is one.
pub fn first_hls_media(media_ids: &Vec<String>) -> (found: Option<usize>)
    ensures
        match found {
            Some(i) => i < media_ids.len() && media_ids[i as int]@ == "HLS"@ && forall|j: int|
                0 <= j < i ==> (#[trigger] media_ids[j])@ != "HLS"@,
            None => forall|j: int| 0 <= j < media_ids.len() ==> (#[trigger] media_ids[j])@ != "HLS"@,
        },
{
    let wanted = "HLS".to_owned();
    let mut i: usize = 0;
    while i < media_ids.len()
        invariant
            i <= media_ids.len(),
            wanted@ == "HLS"@,
            forall|j: int| 0 <= j < i ==> (#[trigger] media_ids[j])@ != "HLS"@,
        decreases media_ids.len() - i,
    {
        if media_ids[i] == wanted {
            return Some(i);
        }
        i += 1;
    }
    None
}

/// What a channel offers to record.
#[derive(Debug, Clone, Copy, PartialEq, Eq, Structural)]
pub enum Selection {
    /// The channel is not on air.
    Closed,
    /// The stream is for adults and was not handed out.
    AdultOnly,
    /// There is nothing to play back.
    NoPlayback,
    /// There are media, but none with the identifier "HLS".
    NoHls,
    /// The medium at this place is the first with the identifier "HLS".
    Hls(usize),
}

/// What a channel reported: its status, whether its stream is for adults,
/// and the identifiers of its media where it handed any out.
pub struct GetStream<'a> {
    pub status: LiveStatusType,
    pub adult: bool,
    pub media_ids: Option<&'a Vec<String>>,
}

impl<'a> GetStream<'a> {
    /// Picks the medium to record, or says why there is none.
    pub fn execute(self) -> (choice: Selection)
        ensures
            self.status != LiveStatusType::Open ==> choice == Selection::Closed,
            self.status == LiveStatusType::Open && self.media_ids is None ==> choice == (if self.adult {
                Selection::AdultOnly
            } else {
                Selection::NoPlayback
            }),
            self.status == LiveStatusType::Open && self.media_ids is Some ==> match choice {
                Selection::Hls(i) => i < self.media_ids->0.len() && self.media_ids->0[i as int]@
                    == "HLS"@ && forall|j: int|
                    0 <= j < i ==> (#[trigger] self.media_ids->0[j])@ != "HLS"@,
                Selection::NoHls => forall|j: int|
                    0 <= j < self.media_ids->0.len() ==> (#[trigger] self.media_ids->0[j])@
                        != "HLS"@,
                _ => false,
            },
    {
        if self.status != LiveStatusType::Open {
            return Selection::Closed;
        }
        match self.media_ids {
            None => if self.adult {
                Selection::AdultOnly
            } else {
                Selection::NoPlayback
            },
            Some(ids) => match first_hls_media(ids) {
                Some(i) => Selection::Hls(i),
                None => Selection::NoHls,
            },
        }
    }
}

} // verus!
