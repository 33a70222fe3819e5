//! The recordings on disk: where they go, how they are listed, and which of
//! them may be revealed or deleted.
use crate::paths::{
    audio_dir, document_dir, ends_in, extension_of, is_text_within, lies_within, no_dot_stem,
    opt_text, opt_view, path_extension, path_with_extension, plain_extension, plain_name,
    text_within, under, with_extension_of, FilePath, PathView,
};
use crate::text::{concat_text, is_digit, same_text};
use vstd::prelude::*;

verus! {

/// The recordings directory: `Rekk` in the audio directory, else in the
/// documents directory.
pub open spec fn recording_dir_of(
    audio: Option<PathView>,
    documents: Option<PathView>,
) -> Option<PathView> {
    match (audio, documents) {
        (Some(base), _) => Some(under(base, "Rekk"@)),
        (None, Some(base)) => Some(under(base, "Rekk"@)),
        (None, None) => None,
    }
}

/// Whether a result is the directory, or the message that there is none.
pub open spec fn is_recording_dir(dir: Option<PathView>, r: Result<FilePath, String>) -> bool {
    match dir {
        Some(d) => r matches Ok(t) && t@ == d,
        None => r matches Err(m) && m@ == "Could not find an audio/documents directory"@,
    }
}

/// The recordings directory, given the user's directories.
pub fn recording_dir_in(audio: Option<FilePath>, documents: Option<FilePath>) -> (r: Result<
    FilePath,
    String,
>)
    ensures
        is_recording_dir(recording_dir_of(opt_view(audio), opt_view(documents)), r),
{
    match audio {
        Some(base) => Ok(base.join("Rekk")),
        None => match documents {
            Some(base) => Ok(base.join("Rekk")),
            None => Err("Could not find an audio/documents directory".to_owned()),
        },
    }
}

/// The recordings directory of this user; the documents directory is looked up
/// only where there is no audio directory.
pub fn recording_dir() -> (r: Result<FilePath, String>)
    ensures
        exists|audio: Option<PathView>, documents: Option<PathView>| #[trigger]
            is_recording_dir(recording_dir_of(audio, documents), r),
{
    let audio = audio_dir();
    let ghost a = opt_view(audio);
    let documents = if audio.is_some() {
        None
    } else {
        document_dir()
    };
    let ghost d = opt_view(documents);
    let r = recording_dir_in(audio, documents);
    assert(is_recording_dir(recording_dir_of(a, d), r));
    r
}

/// How the time goes into a file name: year, month, day, a dash, hour, minute and
/// second.
pub const STAMP_FORMAT: &'static str = "%Y%m%d-%H%M%S";

/// The number that two digits stand for.
pub open spec fn two_digits(s: Seq<char>, i: int) -> int {
    10 * (s[i] as int - '0' as int) + (s[i + 1] as int - '0' as int)
}

/// Whether a text can be a time stamp: a year of four digits, or of four or more
/// behind a sign, then month and day, a dash, hour, minute and second, two
/// digits each and in their ranges; a leap second counts as the sixtieth.
pub open spec fn is_stamp(stamp: Seq<char>) -> bool {
    let n = stamp.len();
    let signed = n > 0 && (stamp[0] == '-' || stamp[0] == '+');
    &&& if signed {
        n >= 16
    } else {
        n == 15
    }
    &&& stamp[n - 7] == '-'
    &&& forall|i: int|
        0 <= i < n && i != n - 7 && !(i == 0 && signed) ==> is_digit(#[trigger] stamp[i])
    &&& 1 <= two_digits(stamp, n - 11) <= 12
    &&& 1 <= two_digits(stamp, n - 9) <= 31
    &&& two_digits(stamp, n - 6) <= 23
    &&& two_digits(stamp, n - 4) <= 59
    &&& two_digits(stamp, n - 2) <= 60
}

/// `chrono::Local::now` rendered by `format`. The result is the time, so the
/// contract claims only what every rendering in this format has: the dash, the
/// digits around it in the ranges of a date and a time of day, and a sign before
/// a year that does not lie between 0 and 9999. A system clock that is set to
/// before 1970 makes the call panic.
#[verifier::external_body]
fn local_stamp(format: &str) -> (r: String)
    requires
        format@ == STAMP_FORMAT@,
    ensures
        is_stamp(r@),
{
    chrono::Local::now().format(format).to_string()
}

/// The file name of a recording that starts at the given time.
pub open spec fn recording_name_of(stamp: Seq<char>) -> Seq<char> {
    "rek-"@ + stamp + ".wav"@
}

/// The file name of a recording that starts at the given time.
pub fn recording_name(stamp: &str) -> (r: String)
    ensures
        r@ == recording_name_of(stamp@),
{
    concat_text(concat_text("rek-", stamp).as_str(), ".wav")
}

/// A recording's file name is a single component and ends in `.wav`.
proof fn lemma_recording_name(stamp: Seq<char>)
    requires
        is_stamp(stamp),
    ensures
        plain_name(recording_name_of(stamp)),
        recording_name_of(stamp) == ("rek-"@ + stamp) + seq!['.'] + "wav"@,
        ("rek-"@ + stamp).len() > 0,
        plain_extension("wav"@),
{
    reveal_strlit("rek-");
    reveal_strlit(".wav");
    reveal_strlit("wav");
    assert(".wav"@ =~= seq!['.'] + "wav"@);
    assert(recording_name_of(stamp) =~= ("rek-"@ + stamp) + seq!['.'] + "wav"@);
    let name = recording_name_of(stamp);
    assert(name[0] == 'r');
    assert forall|i: int| 0 <= i < name.len() implies #[trigger] name[i] != '/' && name[i] != '\\'
        && name[i] != ':' by {
        if 4 <= i < 4 + stamp.len() {
            assert(name[i] == stamp[i - 4]);
        } else if i >= 4 + stamp.len() {
            assert(name[i] == ".wav"@[i - 4 - stamp.len()]);
        }
    }
}

/// The path of a recording that starts now. Whatever the time, it lies inside
/// `dir` and ends in `.wav`, so the recording will be listed, and may be
/// revealed and deleted.
pub fn recording_path(dir: &FilePath) -> (r: FilePath)
    ensures
        exists|stamp: Seq<char>|
            is_stamp(stamp) && r@ == under(dir@, #[trigger] recording_name_of(stamp)),
        lies_within(r@, dir@),
        ends_in(r@, "wav"@),
{
    let stamp = local_stamp(STAMP_FORMAT);
    let name = recording_name(stamp.as_str());
    proof {
        lemma_recording_name(stamp@);
    }
    dir.join(name.as_str())
}

/// Whether an extension is that of a recording.
pub fn is_wav(extension: &Option<String>) -> (r: bool)
    ensures
        r == (opt_text(*extension) == Some("wav"@)),
{
    match extension {
        Some(extension) => same_text(extension.as_str(), "wav"),
        None => false,
    }
}

/// Whether a file counts as a recording.
pub fn is_recording(path: &str) -> (r: bool)
    ensures
        r == (extension_of(path@) == Some("wav"@)),
{
    is_wav(&path_extension(path))
}

/// The transcript that belongs to a recording: the same path, ending in `txt`.
/// A recording's transcript is never itself taken for a recording.
pub fn transcript_path(path: &str) -> (r: String)
    ensures
        r@ == with_extension_of(path@, "txt"@),
        extension_of(path@) is Some && no_dot_stem(path@) ==> extension_of(r@) == Some("txt"@)
            && extension_of(r@) != Some("wav"@),
{
    proof {
        reveal_strlit("txt");
        reveal_strlit("wav");
        assert("txt"@[0] != "wav"@[0]);
    }
    path_with_extension(path, "txt")
}

/// The length of a WAV file as its header gives it: samples over all channels,
/// channels, and samples per second.
#[derive(Clone, Copy)]
pub struct WavLength {
    pub samples: u32,
    pub channels: u16,
    pub sample_rate: u32,
}

/// The playing time in whole milliseconds; nothing where no rate is declared.
pub open spec fn duration_of(length: WavLength) -> int {
    let channels = if length.channels == 0 {
        1
    } else {
        length.channels as int
    };
    if length.sample_rate == 0 {
        0
    } else {
        (length.samples as int / channels) * 1000 / length.sample_rate as int
    }
}

/// The playing time of a WAV file, in whole milliseconds.
pub fn wav_duration_ms(length: WavLength) -> (r: u64)
    ensures
        r == duration_of(length),
{
    let channels: u64 = if length.channels == 0 {
        1
    } else {
        length.channels as u64
    };
    let frames: u64 = length.samples as u64 / channels;
    assert(frames <= length.samples) by (nonlinear_arith)
        requires
            frames == length.samples as u64 / channels,
            channels >= 1,
    ;
    if length.sample_rate > 0 {
        frames * 1000 / length.sample_rate as u64
    } else {
        0
    }
}

/// What the file system tells of a file: its size, and when it was modified in
/// seconds since the epoch where that is known.
#[derive(Clone, Copy)]
pub struct FileMeta {
    pub size_bytes: u64,
    pub modified_secs: Option<u64>,
}

/// What was found out about one file of the recordings directory. The name is
/// absent where it is not Unicode, the metadata where it could not be read,
/// and the length where the file is no readable WAV file.
pub struct ProbedFile {
    pub path: String,
    pub name: Option<String>,
    pub meta: Option<FileMeta>,
    pub length: Option<WavLength>,
    pub has_transcript: bool,
}

/// One line of the list of recordings.
pub struct RecordingEntry {
    pub path: String,
    pub name: String,
    pub duration_ms: u64,
    pub size_bytes: u64,
    pub modified_secs: i64,
    pub has_transcript: bool,
}

/// What a line of the list says.
pub struct EntryView {
    pub path: Seq<char>,
    pub name: Seq<char>,
    pub duration_ms: u64,
    pub size_bytes: u64,
    pub modified_secs: i64,
    pub has_transcript: bool,
}

impl View for RecordingEntry {
    type V = EntryView;

    open spec fn view(&self) -> EntryView {
        EntryView {
            path: self.path@,
            name: self.name@,
            duration_ms: self.duration_ms,
            size_bytes: self.size_bytes,
            modified_secs: self.modified_secs,
            has_transcript: self.has_transcript,
        }
    }
}

/// Seconds since the epoch as the list has them: zero where unknown.
pub open spec fn listed_secs(modified: Option<u64>) -> i64 {
    match modified {
        Some(secs) => secs as i64,
        None => 0,
    }
}

/// The line for a file: there is one if it is a recording and its metadata
/// could be read.
pub open spec fn entry_if(file: ProbedFile, recording: bool) -> Option<EntryView> {
    match file.meta {
        Some(meta) if recording => Some(
            EntryView {
                path: file.path@,
                name: match file.name {
                    Some(name) => name@,
                    None => Seq::empty(),
                },
                duration_ms: match file.length {
                    Some(length) => duration_of(length) as u64,
                    None => 0,
                },
                size_bytes: meta.size_bytes,
                modified_secs: listed_secs(meta.modified_secs),
                has_transcript: file.has_transcript,
            },
        ),
        _ => None,
    }
}

/// The line for a file, by its path.
pub open spec fn entry_of(file: ProbedFile) -> Option<EntryView> {
    entry_if(file, extension_of(file.path@) == Some("wav"@))
}

/// The lines for the files, in their order.
pub open spec fn entries_of(files: Seq<ProbedFile>) -> Seq<EntryView>
    decreases files.len(),
{
    if files.len() == 0 {
        Seq::empty()
    } else {
        match entry_of(files.last()) {
            Some(entry) => entries_of(files.drop_last()).push(entry),
            None => entries_of(files.drop_last()),
        }
    }
}

/// The lines themselves, apart from how they are stored.
pub open spec fn views(entries: Seq<RecordingEntry>) -> Seq<EntryView> {
    entries.map_values(|e: RecordingEntry| e@)
}

/// The line for one file, where it has one.
pub fn recording_entry(file: ProbedFile) -> (r: Option<RecordingEntry>)
    ensures
        match (r, entry_of(file)) {
            (Some(e), Some(v)) => e@ == v,
            (None, None) => true,
            _ => false,
        },
{
    let recording: bool = is_recording(file.path.as_str());
    entry_for(file, recording)
}

/// The line for one file, where it has one, given whether it is a recording.
pub fn entry_for(file: ProbedFile, recording: bool) -> (r: Option<RecordingEntry>)
    ensures
        match (r, entry_if(file, recording)) {
            (Some(e), Some(v)) => e@ == v,
            (None, None) => true,
            _ => false,
        },
{
    if !recording {
        return None;
    }
    let meta = match file.meta {
        Some(meta) => meta,
        None => {
            return None;
        },
    };
    let name = match file.name {
        Some(name) => name,
        None => String::new(),
    };
    let duration_ms: u64 = match file.length {
        Some(length) => wav_duration_ms(length),
        None => 0,
    };
    let modified_secs: i64 = match meta.modified_secs {
        Some(secs) => #[verifier::truncate] (secs as i64),
        None => 0,
    };
    Some(
        RecordingEntry {
            path: file.path,
            name,
            duration_ms,
            size_bytes: meta.size_bytes,
            modified_secs,
            has_transcript: file.has_transcript,
        },
    )
}

/// Whether no line is older than one after it.
pub open spec fn newest_first(lines: Seq<EntryView>) -> bool {
    forall|i: int, j: int|
        0 <= i <= j < lines.len() ==> lines[i].modified_secs >= lines[j].modified_secs
}

/// The lines that were modified at the given time, in their order.
pub open spec fn modified_at(lines: Seq<EntryView>, secs: i64) -> Seq<EntryView> {
    lines.filter(|e: EntryView| e.modified_secs == secs)
}

/// Whether `out` is `lines` put newest first, with lines of the same time left
/// in their order.
pub open spec fn sorted_newest_first(lines: Seq<EntryView>, out: Seq<EntryView>) -> bool {
    &&& newest_first(out)
    &&& forall|secs: i64| #[trigger] modified_at(out, secs) == modified_at(lines, secs)
}

/// Inserting a line behind all that are not older keeps the order, and puts
/// the line last among those of its time.
proof fn lemma_insert_line(lines: Seq<EntryView>, out: Seq<EntryView>, at: int, e: EntryView)
    requires
        sorted_newest_first(lines, out),
        0 <= at <= out.len(),
        forall|i: int| 0 <= i < at ==> (#[trigger] out[i]).modified_secs >= e.modified_secs,
        forall|i: int| at <= i < out.len() ==> (#[trigger] out[i]).modified_secs < e.modified_secs,
    ensures
        sorted_newest_first(lines.push(e), out.insert(at, e)),
{
    let front = out.take(at);
    let back = out.skip(at);
    let new = out.insert(at, e);
    assert(out =~= front + back);
    assert(new =~= front + seq![e] + back);
    assert(lines.push(e) =~= lines + seq![e]);
    assert forall|secs: i64| #[trigger]
        modified_at(new, secs) == modified_at(lines.push(e), secs) by {
        let pred = |x: EntryView| x.modified_secs == secs;
        Seq::filter_distributes_over_add(front, back, pred);
        Seq::filter_distributes_over_add(front, seq![e], pred);
        Seq::filter_distributes_over_add(front + seq![e], back, pred);
        Seq::filter_distributes_over_add(lines, seq![e], pred);
        assert(modified_at(out, secs) == modified_at(lines, secs));
        reveal_with_fuel(Seq::filter, 2);
        assert(seq![e].drop_last() =~= Seq::<EntryView>::empty());
        if e.modified_secs == secs {
            lemma_none_kept(back, secs);
            assert(seq![e].filter(pred) =~= seq![e]);
            assert(new.filter(pred) =~= out.filter(pred) + seq![e]);
        } else {
            assert(seq![e].filter(pred) =~= Seq::<EntryView>::empty());
            assert(new.filter(pred) =~= out.filter(pred));
        }
    }
    assert(newest_first(new)) by {
        assert forall|i: int, j: int| 0 <= i <= j < new.len() implies new[i].modified_secs
            >= new[j].modified_secs by {
            let oi = if i < at {
                i
            } else {
                i - 1
            };
            let oj = if j < at {
                j
            } else {
                j - 1
            };
            if i != at && j != at {
                assert(new[i] == out[oi] && new[j] == out[oj]);
            } else if i == at && j != at {
                assert(new[j] == out[oj]);
            } else if i != at {
                assert(new[i] == out[oi]);
            }
        }
    }
}

/// Nothing is kept of lines that are all older.
proof fn lemma_none_kept(lines: Seq<EntryView>, secs: i64)
    requires
        forall|i: int| 0 <= i < lines.len() ==> (#[trigger] lines[i]).modified_secs < secs,
    ensures
        modified_at(lines, secs) == Seq::<EntryView>::empty(),
    decreases lines.len(),
{
    reveal(Seq::filter);
    if lines.len() > 0 {
        lemma_none_kept(lines.drop_last(), secs);
    }
}

/// Puts a line into a list that is newest first.
fn insert_entry(out: &mut Vec<RecordingEntry>, e: RecordingEntry, Ghost(lines): Ghost<Seq<EntryView>>)
    requires
        sorted_newest_first(lines, views(old(out)@)),
    ensures
        sorted_newest_first(lines.push(e@), views(final(out)@)),
{
    let mut at: usize = out.len();
    let ghost sorted = views(out@);
    while at > 0 && out[at - 1].modified_secs < e.modified_secs
        invariant
            at <= out@.len(),
            sorted == views(out@),
            newest_first(sorted),
            forall|i: int|
                at <= i < sorted.len() ==> (#[trigger] sorted[i]).modified_secs < e.modified_secs,
        decreases at,
    {
        assert(sorted[at - 1] == out@[at - 1]@);
        at = at - 1;
    }
    proof {
        if at > 0 {
            assert(sorted[at - 1] == out@[at - 1]@);
        }
        lemma_insert_line(lines, sorted, at as int, e@);
        assert(views(out@.insert(at as int, e)) =~= sorted.insert(at as int, e@));
    }
    out.insert(at, e);
}

/// The list of recordings: one line for each `wav` file whose metadata could be
/// read, newest first, lines of the same time in the order of the files.
pub fn list_recordings(files: Vec<ProbedFile>) -> (r: Vec<RecordingEntry>)
    ensures
        sorted_newest_first(entries_of(files@), views(r@)),
{
    let ghost all = files@;
    let mut out: Vec<RecordingEntry> = Vec::new();
    assert(views(out@) =~= Seq::<EntryView>::empty());
    for file in it: files
        invariant
            it.seq() == all,
            sorted_newest_first(entries_of(all.take(it.index())), views(out@)),
    {
        assert(all.take(it.index() + 1).drop_last() =~= all.take(it.index()));
        match recording_entry(file) {
            Some(entry) => {
                insert_entry(&mut out, entry, Ghost(entries_of(all.take(it.index()))));
            },
            None => {},
        }
    }
    assert(all.take(all.len() as int) =~= all);
    out
}

/// The lines of one time hold a line as often as all lines do.
proof fn lemma_count_at(lines: Seq<EntryView>, e: EntryView)
    ensures
        lines.to_multiset().count(e) == modified_at(lines, e.modified_secs).to_multiset().count(e),
    decreases lines.len(),
{
    reveal(Seq::filter);
    broadcast use vstd::seq_lib::group_to_multiset_ensures;

    if lines.len() > 0 {
        let rest = lines.drop_last();
        lemma_count_at(rest, e);
        assert(lines =~= rest.push(lines.last()));
        if lines.last().modified_secs == e.modified_secs {
            assert(modified_at(lines, e.modified_secs) =~= modified_at(
                rest,
                e.modified_secs,
            ).push(lines.last()));
        } else {
            assert(modified_at(lines, e.modified_secs) =~= modified_at(rest, e.modified_secs));
        }
    } else {
        assert(modified_at(lines, e.modified_secs) =~= lines);
    }
}

/// Sorting the list drops no line and invents none.
pub proof fn law_listing_keeps_every_line(lines: Seq<EntryView>, out: Seq<EntryView>)
    requires
        sorted_newest_first(lines, out),
    ensures
        out.to_multiset() == lines.to_multiset(),
        out.len() == lines.len(),
{
    broadcast use vstd::seq_lib::group_to_multiset_ensures;

    assert forall|e: EntryView| out.to_multiset().count(e) == lines.to_multiset().count(e) by {
        lemma_count_at(lines, e);
        lemma_count_at(out, e);
        assert(modified_at(out, e.modified_secs) == modified_at(lines, e.modified_secs));
    }
    assert(out.to_multiset() =~= lines.to_multiset());
    assert(out.to_multiset().len() == out.len());
    assert(lines.to_multiset().len() == lines.len());
}

/// Dropping the first line drops the first of those of its time.
proof fn lemma_drop_first_at(lines: Seq<EntryView>, secs: i64)
    requires
        lines.len() > 0,
    ensures
        lines[0].modified_secs == secs ==> modified_at(lines, secs) == seq![lines[0]] + modified_at(
            lines.drop_first(),
            secs,
        ),
        lines[0].modified_secs != secs ==> modified_at(lines, secs) == modified_at(
            lines.drop_first(),
            secs,
        ),
{
    let pred = |x: EntryView| x.modified_secs == secs;
    assert(lines =~= seq![lines[0]] + lines.drop_first());
    Seq::filter_distributes_over_add(seq![lines[0]], lines.drop_first(), pred);
    reveal_with_fuel(Seq::filter, 2);
    assert(seq![lines[0]].drop_last() =~= Seq::<EntryView>::empty());
    if lines[0].modified_secs == secs {
        assert(seq![lines[0]].filter(pred) =~= seq![lines[0]]);
    } else {
        assert(seq![lines[0]].filter(pred) =~= Seq::<EntryView>::empty());
        assert(modified_at(lines, secs) =~= modified_at(lines.drop_first(), secs));
    }
}

/// The order is settled: two lists that are newest first and agree on the lines
/// of every time are the same list.
pub proof fn law_listing_is_determined(a: Seq<EntryView>, b: Seq<EntryView>)
    requires
        sorted_newest_first(a, b),
        newest_first(a),
    ensures
        a == b,
    decreases a.len(),
{
    law_listing_keeps_every_line(a, b);
    if a.len() == 0 {
        assert(a =~= b);
    } else {
        let ta = a[0].modified_secs;
        let tb = b[0].modified_secs;
        lemma_drop_first_at(a, ta);
        lemma_drop_first_at(b, tb);
        assert(modified_at(a, ta) == modified_at(b, ta));
        assert(modified_at(a, tb) == modified_at(b, tb));
        lemma_times_seen(b, ta);
        lemma_times_seen(a, tb);
        assert(ta == tb);
        assert(a[0] == modified_at(a, ta)[0]);
        assert(b[0] == modified_at(b, tb)[0]);
        assert forall|secs: i64| #[trigger]
            modified_at(b.drop_first(), secs) == modified_at(a.drop_first(), secs) by {
            lemma_drop_first_at(a, secs);
            lemma_drop_first_at(b, secs);
            assert(modified_at(a, secs) == modified_at(b, secs));
            if secs == ta {
                let x = modified_at(a.drop_first(), secs);
                let y = modified_at(b.drop_first(), secs);
                assert(x =~= (seq![a[0]] + x).drop_first());
                assert(y =~= (seq![b[0]] + y).drop_first());
            }
        }
        law_listing_is_determined(a.drop_first(), b.drop_first());
        assert(a =~= seq![a[0]] + a.drop_first());
        assert(b =~= seq![b[0]] + b.drop_first());
    }
}

/// A time that some line has is that of a line in the list.
proof fn lemma_times_seen(lines: Seq<EntryView>, secs: i64)
    requires
        modified_at(lines, secs).len() > 0,
    ensures
        exists|i: int| 0 <= i < lines.len() && (#[trigger] lines[i]).modified_secs == secs,
    decreases lines.len(),
{
    reveal(Seq::filter);
    if lines.len() > 0 {
        if lines.last().modified_secs == secs {
            assert(lines[lines.len() - 1].modified_secs == secs);
        } else {
            lemma_times_seen(lines.drop_last(), secs);
            let i = choose|i: int|
                0 <= i < lines.drop_last().len() && (#[trigger] lines.drop_last()[i]).modified_secs
                    == secs;
            assert(lines[i].modified_secs == secs);
        }
    }
}

/// Whether `r` is the answer to a request to show a file: only one inside the
/// recordings directory is shown, and only one that is there.
pub open spec fn is_reveal_answer(inside: bool, exists: bool, r: Result<(), String>) -> bool {
    if !inside {
        r matches Err(m) && m@ == "Refusing to reveal file outside Rek directory"@
    } else if !exists {
        r matches Err(m) && m@ == "File does not exist"@
    } else {
        r is Ok
    }
}

/// The answer to a request to show a file.
pub fn reveal_answer(inside: bool, exists: bool) -> (r: Result<(), String>)
    ensures
        is_reveal_answer(inside, exists, r),
{
    if !inside {
        Err("Refusing to reveal file outside Rek directory".to_owned())
    } else if !exists {
        Err("File does not exist".to_owned())
    } else {
        Ok(())
    }
}

/// Whether a recording may be shown in the file browser.
pub fn reveal_recording(path: &str, dir: &FilePath, exists: bool) -> (r: Result<(), String>)
    ensures
        is_reveal_answer(text_within(path@, dir@), exists, r),
{
    reveal_answer(is_text_within(path, dir), exists)
}

/// What deleting a recording removes: the audio, and then its transcript.
pub struct DeletePlan {
    pub audio: String,
    pub transcript: String,
}

/// Whether `r` is the answer to a request to delete a file: one outside the
/// recordings directory is refused.
pub open spec fn is_delete_answer(
    inside: bool,
    path: Seq<char>,
    transcript: Seq<char>,
    r: Result<DeletePlan, String>,
) -> bool {
    if inside {
        r matches Ok(plan) && plan.audio@ == path && plan.transcript@ == transcript
    } else {
        r matches Err(m) && m@ == "Refusing to delete file outside Rek directory"@
    }
}

/// The answer to a request to delete a file.
pub fn delete_answer(inside: bool, path: &str, transcript: String) -> (r: Result<DeletePlan, String>)
    ensures
        is_delete_answer(inside, path@, transcript@, r),
{
    if inside {
        Ok(DeletePlan { audio: path.to_owned(), transcript })
    } else {
        Err("Refusing to delete file outside Rek directory".to_owned())
    }
}

/// What is to be removed for a recording to be deleted; a path outside the
/// recordings directory is refused.
pub fn delete_recording(path: &str, dir: &FilePath) -> (r: Result<DeletePlan, String>)
    ensures
        is_delete_answer(text_within(path@, dir@), path@, with_extension_of(path@, "txt"@), r),
{
    delete_answer(is_text_within(path, dir), path, transcript_path(path))
}

/// Showing and deleting draw the same line: a file is refused by both or by
/// neither.
pub proof fn law_reveal_and_delete_agree(
    path: Seq<char>,
    dir: PathView,
    transcript: Seq<char>,
    reveal: Result<(), String>,
    delete: Result<DeletePlan, String>,
)
    requires
        is_reveal_answer(text_within(path, dir), true, reveal),
        is_delete_answer(text_within(path, dir), path, transcript, delete),
    ensures
        reveal is Ok <==> delete is Ok,
        delete is Ok <==> text_within(path, dir),
{
}

/// The transcript of a recording, given what reading its file gave; a recording
/// without one has an empty transcript.
pub fn read_transcript(found: Option<Result<String, String>>) -> (r: Result<String, String>)
    ensures
        match found {
            None => r matches Ok(t) && t@ == Seq::<char>::empty(),
            Some(Ok(text)) => r matches Ok(t) && t@ == text@,
            Some(Err(e)) => r matches Err(m) && m@ == "Could not read transcript: "@ + e@,
        },
{
    match found {
        None => Ok(String::new()),
        Some(Ok(text)) => Ok(text),
        Some(Err(e)) => Err(concat_text("Could not read transcript: ", e.as_str())),
    }
}

/// Whether a file belongs into the list: it is a `wav` file, and its metadata could
/// be read.
pub open spec fn belongs(file: ProbedFile) -> bool {
    extension_of(file.path@) == Some("wav"@) && file.meta is Some
}

/// Whether a line says what was found out about a file.
pub open spec fn says(line: EntryView, file: ProbedFile) -> bool {
    &&& line.path == file.path@
    &&& line.name == (match file.name {
        Some(name) => name@,
        None => Seq::<char>::empty(),
    })
    &&& line.duration_ms == (match file.length {
        Some(length) => duration_of(length),
        None => 0,
    })
    &&& line.has_transcript == file.has_transcript
    &&& file.meta matches Some(meta) && line.size_bytes == meta.size_bytes && (
    match meta.modified_secs {
        Some(secs) => secs <= i64::MAX ==> line.modified_secs == secs,
        None => line.modified_secs == 0,
    })
}

/// The files that belong into a list, in order, are those of its lines.
proof fn lemma_lines_of_files(files: Seq<ProbedFile>)
    ensures
        entries_of(files).len() == files.filter(|f: ProbedFile| belongs(f)).len(),
        forall|j: int|
            0 <= j < entries_of(files).len() ==> says(
                #[trigger] entries_of(files)[j],
                files.filter(|f: ProbedFile| belongs(f))[j],
            ),
        forall|j: int|
            0 <= j < entries_of(files).len() ==> Some(#[trigger] entries_of(files)[j]) == entry_of(
                files.filter(|f: ProbedFile| belongs(f))[j],
            ),
    decreases files.len(),
{
    reveal(Seq::filter);
    if files.len() > 0 {
        let before = files.drop_last();
        lemma_lines_of_files(before);
        if let Some(length) = files.last().length {
            lemma_duration_fits(length);
        }
        let kept = files.filter(|f: ProbedFile| belongs(f));
        let kept_before = before.filter(|f: ProbedFile| belongs(f));
        let lines = entries_of(files);
        let lines_before = entries_of(before);
        assert forall|j: int| 0 <= j < lines.len() implies says(#[trigger] lines[j], kept[j])
            && Some(lines[j]) == entry_of(kept[j]) by {
            if j < lines_before.len() {
                assert(lines[j] == lines_before[j]);
                assert(kept[j] == kept_before[j]);
            }
        }
    }
}

/// A playing time fits into 64 bits.
proof fn lemma_duration_fits(length: WavLength)
    ensures
        0 <= duration_of(length) <= u64::MAX,
{
    let c = if length.channels == 0 {
        1
    } else {
        length.channels as int
    };
    let frames = length.samples as int / c;
    assert(0 <= frames <= length.samples) by (nonlinear_arith)
        requires
            c >= 1,
            frames == length.samples as int / c,
    ;
    if length.sample_rate > 0 {
        let rate = length.sample_rate as int;
        assert(0 <= frames * 1000 / rate <= frames * 1000) by (nonlinear_arith)
            requires
                rate >= 1,
                frames >= 0,
        ;
    }
}

/// Every recording is listed, and nothing else: the list has as many lines as
/// there are `wav` files whose metadata could be read, each of these has a line
/// that says what was found out about it, and each line is that of one of them.
pub proof fn law_every_recording_is_listed(files: Seq<ProbedFile>, out: Seq<RecordingEntry>)
    requires
        sorted_newest_first(entries_of(files), views(out)),
    ensures
        out.len() == files.filter(
            |f: ProbedFile| extension_of(f.path@) == Some("wav"@) && f.meta is Some,
        ).len(),
        forall|i: int|
            0 <= i < files.len() && extension_of(files[i].path@) == Some("wav"@)
                && files[i].meta is Some ==> exists|j: int|
                0 <= j < out.len() && is_line(#[trigger] out[j], #[trigger] files[i]),
        forall|j: int|
            0 <= j < out.len() ==> exists|i: int|
                0 <= i < files.len() && is_line(#[trigger] out[j], #[trigger] files[i]),
{
    let lines = entries_of(files);
    let shown = views(out);
    let p = |f: ProbedFile| belongs(f);
    let kept = files.filter(p);
    lemma_lines_of_files(files);
    law_listing_keeps_every_line(lines, shown);
    broadcast use vstd::seq_lib::group_to_multiset_ensures;

    assert(files.filter(|f: ProbedFile| extension_of(f.path@) == Some("wav"@) && f.meta is Some)
        =~= kept) by {
        lemma_same_filter(files);
    }
    assert forall|i: int|
        0 <= i < files.len() && extension_of(files[i].path@) == Some("wav"@)
            && files[i].meta is Some implies exists|j: int|
        0 <= j < out.len() && is_line(#[trigger] out[j], #[trigger] files[i]) by {
        files.lemma_filter_contains(p, i);
        let k = choose|k: int| 0 <= k < kept.len() && kept[k] == files[i];
        let line = lines[k];
        assert(lines.contains(line));
        assert(lines.to_multiset().count(line) > 0);
        assert(shown.to_multiset().count(line) > 0);
        assert(shown.contains(line));
        let j = choose|j: int| 0 <= j < shown.len() && shown[j] == line;
        assert(shown[j] == out[j]@);
        assert(says(lines[k], kept[k]));
        if let Some(length) = files[i].length {
            law_playing_time(length);
        }
        assert(is_line(out[j], files[i]));
    }
    assert forall|j: int| 0 <= j < out.len() implies exists|i: int|
        0 <= i < files.len() && is_line(#[trigger] out[j], #[trigger] files[i]) by {
        let line = shown[j];
        assert(line == out[j]@);
        assert(shown.contains(line));
        assert(shown.to_multiset().count(line) > 0);
        assert(lines.to_multiset().count(line) > 0);
        assert(lines.contains(line));
        let k = choose|k: int| 0 <= k < lines.len() && lines[k] == line;
        assert(says(lines[k], kept[k]));
        assert(kept.contains(kept[k]));
        files.lemma_filter_contains_rev(p, kept[k]);
        let i = choose|i: int| 0 <= i < files.len() && files[i] == kept[k];
        if let Some(length) = files[i].length {
            law_playing_time(length);
        }
        assert(is_line(out[j], files[i]));
    }
}

/// Whether a line of the list says of a file its path, name, playing time, size,
/// time and transcript mark.
pub open spec fn is_line(line: RecordingEntry, file: ProbedFile) -> bool {
    &&& line.path@ == file.path@
    &&& line.name@ == (match file.name {
        Some(name) => name@,
        None => Seq::<char>::empty(),
    })
    &&& match file.length {
        Some(length) => plays_for(length, line.duration_ms as int),
        None => line.duration_ms == 0,
    }
    &&& line.has_transcript == file.has_transcript
    &&& file.meta matches Some(meta) && line.size_bytes == meta.size_bytes && (
    match meta.modified_secs {
        Some(secs) => secs <= i64::MAX ==> line.modified_secs == secs,
        None => line.modified_secs == 0,
    })
}

/// Whether a WAV file of the given length plays for so many whole milliseconds:
/// its samples make up so many whole frames, and these last as long.
pub open spec fn plays_for(length: WavLength, ms: int) -> bool {
    &&& length.sample_rate == 0 ==> ms == 0
    &&& length.sample_rate > 0 ==> exists|frames: int| #[trigger]
        fits_so_often(length.samples as int, frame_width(length), frames) && fits_so_often(
            frames * 1000,
            length.sample_rate as int,
            ms,
        )
}

/// The samples in a frame: one for each channel, and one where none is declared.
pub open spec fn frame_width(length: WavLength) -> int {
    if length.channels == 0 {
        1
    } else {
        length.channels as int
    }
}

/// Whether `part` fits `n` times into `whole`, and not once more.
pub open spec fn fits_so_often(whole: int, part: int, n: int) -> bool {
    n * part <= whole < n * part + part
}

/// The playing time is that of the whole frames, to the millisecond.
pub proof fn law_playing_time(length: WavLength)
    ensures
        plays_for(length, duration_of(length)),
        0 <= duration_of(length) <= u64::MAX,
{
    lemma_duration_fits(length);
    let c = if length.channels == 0 {
        1
    } else {
        length.channels as int
    };
    let rate = length.sample_rate as int;
    let frames = length.samples as int / c;
    assert(frames * c <= length.samples < frames * c + c) by (nonlinear_arith)
        requires
            c >= 1,
            frames == length.samples as int / c,
    ;
    if rate > 0 {
        let total = frames * 1000;
        let ms = total / rate;
        assert(ms * rate <= total < ms * rate + rate) by (nonlinear_arith)
            requires
                rate >= 1,
                ms == total / rate,
        ;
        assert(fits_so_often(length.samples as int, frame_width(length), frames));
        assert(fits_so_often(frames * 1000, rate, duration_of(length)));
    }
}

/// Filters that keep the same files give the same files.
proof fn lemma_same_filter(files: Seq<ProbedFile>)
    ensures
        files.filter(|f: ProbedFile| extension_of(f.path@) == Some("wav"@) && f.meta is Some)
            == files.filter(|f: ProbedFile| belongs(f)),
    decreases files.len(),
{
    reveal(Seq::filter);
    if files.len() > 0 {
        lemma_same_filter(files.drop_last());
    }
}

/// What a filter keeps stays in order.
proof fn lemma_filter_in_order<X>(s: Seq<X>, p: spec_fn(X) -> bool, a: int, b: int) -> (at: (
    int,
    int,
))
    requires
        0 <= a < b < s.len(),
        p(s[a]),
        p(s[b]),
    ensures
        0 <= at.0 < at.1 < s.filter(p).len(),
        s.filter(p)[at.0] == s[a],
        s.filter(p)[at.1] == s[b],
{
    let front = s.take(b);
    let back = s.skip(b);
    assert(s =~= front + back);
    Seq::filter_distributes_over_add(front, back, p);
    assert(front[a] == s[a] && back[0] == s[b]);
    front.lemma_filter_contains(p, a);
    back.lemma_filter_contains(p, 0);
    let x = choose|x: int| 0 <= x < front.filter(p).len() && front.filter(p)[x] == s[a];
    let y = choose|y: int| 0 <= y < back.filter(p).len() && back.filter(p)[y] == s[b];
    (x, front.filter(p).len() + y)
}

/// What is in order after a filter was in order before.
proof fn lemma_filter_was_in_order<X>(s: Seq<X>, p: spec_fn(X) -> bool, x: int, y: int) -> (at: (
    int,
    int,
))
    requires
        0 <= x < y < s.filter(p).len(),
    ensures
        0 <= at.0 < at.1 < s.len(),
        s[at.0] == s.filter(p)[x],
        s[at.1] == s.filter(p)[y],
    decreases s.len(),
{
    reveal(Seq::filter);
    let before = s.drop_last();
    if y < before.filter(p).len() {
        lemma_filter_was_in_order(before, p, x, y)
    } else {
        let kept = before.filter(p);
        assert(kept.contains(kept[x]));
        before.lemma_filter_contains_rev(p, kept[x]);
        let a = choose|a: int| 0 <= a < before.len() && before[a] == kept[x];
        (a, s.len() - 1)
    }
}

/// The list is newest first, and of two recordings of the same time the one that
/// was found first comes first.
pub proof fn law_list_is_in_order(files: Seq<ProbedFile>, out: Seq<RecordingEntry>)
    requires
        sorted_newest_first(entries_of(files), views(out)),
    ensures
        forall|j: int, l: int|
            0 <= j < l < out.len() ==> (#[trigger] out[j]).modified_secs >= (
            #[trigger] out[l]).modified_secs,
        forall|i: int, k: int|
            #![trigger files[i], files[k]]
            0 <= i < k < files.len() && belongs(files[i]) && belongs(files[k]) && listed_secs(
                files[i].meta->Some_0.modified_secs,
            ) == listed_secs(files[k].meta->Some_0.modified_secs) ==> exists|j: int, l: int|
                0 <= j < l < out.len() && is_line(#[trigger] out[j], files[i]) && is_line(
                    #[trigger] out[l],
                    files[k],
                ),
{
    let lines = entries_of(files);
    let shown = views(out);
    let p = |f: ProbedFile| belongs(f);
    let kept = files.filter(p);
    lemma_lines_of_files(files);
    assert forall|j: int, l: int| 0 <= j < l < out.len() implies (#[trigger] out[j]).modified_secs
        >= (#[trigger] out[l]).modified_secs by {
        assert(shown[j] == out[j]@ && shown[l] == out[l]@);
    }
    assert forall|i: int, k: int|
        #![trigger files[i], files[k]]
        0 <= i < k < files.len() && belongs(files[i]) && belongs(files[k]) && listed_secs(
            files[i].meta->Some_0.modified_secs,
        ) == listed_secs(files[k].meta->Some_0.modified_secs) implies exists|j: int, l: int|
        0 <= j < l < out.len() && is_line(#[trigger] out[j], files[i]) && is_line(
            #[trigger] out[l],
            files[k],
        ) by {
        let (a, b) = lemma_filter_in_order(files, p, i, k);
        let secs = lines[a].modified_secs;
        assert(Some(lines[a]) == entry_of(kept[a]) && Some(lines[b]) == entry_of(kept[b]));
        let at = |e: EntryView| e.modified_secs == secs;
        let (x, y) = lemma_filter_in_order(lines, at, a, b);
        assert(modified_at(shown, secs) == modified_at(lines, secs));
        let (j, l) = lemma_filter_was_in_order(shown, at, x, y);
        assert(shown[j] == out[j]@ && shown[l] == out[l]@);
        assert(says(lines[a], kept[a]) && says(lines[b], kept[b]));
        if let Some(length) = files[i].length {
            law_playing_time(length);
        }
        if let Some(length) = files[k].length {
            law_playing_time(length);
        }
        assert(is_line(out[j], files[i]) && is_line(out[l], files[k]));
    }
}

/// A file has a line exactly where it is a recording whose metadata could be read,
/// and the line says what was found out.
pub proof fn law_line_of_a_file(file: ProbedFile, recording: bool)
    ensures
        entry_if(file, recording) is Some <==> recording && file.meta is Some,
        entry_if(file, recording) matches Some(line) ==> says(line, file),
{
    if let Some(length) = file.length {
        lemma_duration_fits(length);
    }
}

/// Recordings go into the audio directory, and into the documents directory only
/// where there is none.
pub proof fn law_audio_directory_comes_first(
    audio: Option<PathView>,
    documents: Option<PathView>,
    r: Result<FilePath, String>,
)
    requires
        is_recording_dir(recording_dir_of(audio, documents), r),
    ensures
        r is Err <==> audio is None && documents is None,
        audio matches Some(base) ==> (r matches Ok(d) && d@ == under(base, "Rekk"@)),
        audio is None ==> (documents matches Some(base) ==> (r matches Ok(d) && d@ == under(
            base,
            "Rekk"@,
        ))),
{
}

/// A recording's name holds its time: it is between `rek-` and `.wav`, so
/// recordings of different times have different names.
pub proof fn law_name_holds_the_time(stamp: Seq<char>, other: Seq<char>)
    ensures
        recording_name_of(stamp).len() == stamp.len() + 8,
        recording_name_of(stamp).subrange(4, 4 + stamp.len() as int) == stamp,
        recording_name_of(stamp).take(4) == seq!['r', 'e', 'k', '-'],
        recording_name_of(stamp).skip(4 + stamp.len() as int) == seq!['.', 'w', 'a', 'v'],
        recording_name_of(stamp) == recording_name_of(other) ==> stamp == other,
{
    reveal_strlit("rek-");
    reveal_strlit(".wav");
    let name = recording_name_of(stamp);
    let name2 = recording_name_of(other);
    assert(name.subrange(4, 4 + stamp.len() as int) =~= stamp);
    assert(name2.subrange(4, 4 + other.len() as int) =~= other);
    assert(name.take(4) =~= seq!['r', 'e', 'k', '-']);
    assert(name.skip(4 + stamp.len() as int) =~= seq!['.', 'w', 'a', 'v']);
}

/// A file is shown only where it lies in the directory and is there; a file
/// outside is refused first.
pub proof fn law_only_recordings_are_shown(inside: bool, exists: bool, r: Result<(), String>)
    requires
        is_reveal_answer(inside, exists, r),
    ensures
        r is Ok <==> inside && exists,
        !inside ==> (r matches Err(m) && m@ == "Refusing to reveal file outside Rek directory"@),
        inside && !exists ==> (r matches Err(m) && m@ == "File does not exist"@),
{
}

/// A file is deleted only where it lies in the directory, and nothing but it and
/// its transcript.
pub proof fn law_only_recordings_are_deleted(
    inside: bool,
    path: Seq<char>,
    transcript: Seq<char>,
    r: Result<DeletePlan, String>,
)
    requires
        is_delete_answer(inside, path, transcript, r),
    ensures
        r is Ok <==> inside,
        r matches Ok(plan) ==> plan.audio@ == path && plan.transcript@ == transcript,
        r matches Err(m) ==> m@ == "Refusing to delete file outside Rek directory"@,
{
}

/// A time is listed as it is; one that a signed number does not hold wraps around,
/// and one that is not known counts as the epoch.
pub proof fn law_times_are_listed(file: ProbedFile)
    ensures
        entry_if(file, true) matches Some(line) ==> (file.meta matches Some(meta) && (
        match meta.modified_secs {
            Some(secs) => line.modified_secs == (if secs < 0x8000_0000_0000_0000 {
                secs as int
            } else {
                secs - 0x1_0000_0000_0000_0000
            }),
            None => line.modified_secs == 0,
        })),
{
    if let Some(meta) = file.meta {
        if let Some(secs) = meta.modified_secs {
            let listed = secs as i64;
            if secs >= 0x8000_0000_0000_0000 {
                assert(listed == secs - 0x1_0000_0000_0000_0000) by (bit_vector)
                    requires
                        listed == secs as i64,
                        secs >= 0x8000_0000_0000_0000,
                ;
            }
        }
    }
}

/// However many recordings there are, the list has them all: as many lines as there
/// are `wav` files whose metadata could be read, and a line for each.
pub proof fn law_no_recording_is_left_out(files: Vec<ProbedFile>, out: Vec<RecordingEntry>)
    requires
        call_ensures(list_recordings, (files,), out),
    ensures
        out@.len() == files@.filter(
            |f: ProbedFile| extension_of(f.path@) == Some("wav"@) && f.meta is Some,
        ).len(),
        forall|i: int|
            0 <= i < files@.len() && extension_of(files@[i].path@) == Some("wav"@)
                && files@[i].meta is Some ==> exists|j: int|
                0 <= j < out@.len() && is_line(#[trigger] out@[j], #[trigger] files@[i]),
        forall|j: int, l: int|
            0 <= j < l < out@.len() ==> (#[trigger] out@[j]).modified_secs >= (
            #[trigger] out@[l]).modified_secs,
{
    law_every_recording_is_listed(files@, out@);
    law_list_is_in_order(files@, out@);
}

} // verus!
