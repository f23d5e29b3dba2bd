//! Typed events of a download run, and the classifier that turns one line of
//! the downloader's standard output into at most one event.
use vstd::prelude::*;
use crate::numeric::{
    capped, eta_of, parse_eta_chars, parse_percent_chars, parse_size_chars, parse_speed_chars,
    percent_of, size_of, speed_of,
};
use crate::text::{
    decimal_digits, decimal_string, two_digit_string, two_digits,
    chars_of, contains, contains_exec, copy_range, find_char, has_char, has_char_exec, rfind_char,
    starts_with, starts_with_exec, string_of, string_of_range, strip_prefix, trim, trimmed, views,
    words, words_exec,
};

verus! {

/// Progress of one download, as reported by one line.
#[derive(Clone, Copy, Debug, PartialEq, Eq, Structural)]
pub struct DownloadProgress {
    /// Bytes done, derived from `percent` and `total_bytes` (0 when either is unknown).
    pub downloaded_bytes: u64,
    pub total_bytes: Option<u64>,
    /// Bytes per second.
    pub speed: Option<u64>,
    /// Whole seconds left.
    pub eta: Option<u64>,
    /// Hundredths of a percent (`1460` is 14.6%).
    pub percent: Option<u64>,
    pub fragment_index: Option<u32>,
    pub fragment_count: Option<u32>,
}

/// One step of a download run.
#[derive(Clone, Debug, PartialEq, Eq)]
pub enum DownloadEvent {
    Extracting { url: String },
    DownloadStarted { filename: String },
    Progress(DownloadProgress),
    PostProcessing { status: String },
    MergingFormats,
    EmbeddingThumbnail,
    EmbeddingMetadata,
    Finished { filename: String },
    Error { message: String },
    Warning { message: String },
}

/// The mathematical value of a `DownloadEvent`.
pub enum EventView {
    Extracting { url: Seq<char> },
    DownloadStarted { filename: Seq<char> },
    Progress(DownloadProgress),
    PostProcessing { status: Seq<char> },
    MergingFormats,
    EmbeddingThumbnail,
    EmbeddingMetadata,
    Finished { filename: Seq<char> },
    Error { message: Seq<char> },
    Warning { message: Seq<char> },
}

impl View for DownloadEvent {
    type V = EventView;

    open spec fn view(&self) -> EventView {
        match self {
            DownloadEvent::Extracting { url } => EventView::Extracting { url: url@ },
            DownloadEvent::DownloadStarted { filename } => EventView::DownloadStarted {
                filename: filename@,
            },
            DownloadEvent::Progress(p) => EventView::Progress(*p),
            DownloadEvent::PostProcessing { status } => EventView::PostProcessing {
                status: status@,
            },
            DownloadEvent::MergingFormats => EventView::MergingFormats,
            DownloadEvent::EmbeddingThumbnail => EventView::EmbeddingThumbnail,
            DownloadEvent::EmbeddingMetadata => EventView::EmbeddingMetadata,
            DownloadEvent::Finished { filename } => EventView::Finished { filename: filename@ },
            DownloadEvent::Error { message } => EventView::Error { message: message@ },
            DownloadEvent::Warning { message } => EventView::Warning { message: message@ },
        }
    }
}

impl DownloadEvent {
    pub fn is_error(&self) -> (r: bool)
        ensures
            r == (self@ is Error),
    {
        match self {
            DownloadEvent::Error { .. } => true,
            _ => false,
        }
    }

    pub fn is_finished(&self) -> (r: bool)
        ensures
            r == (self@ is Finished),
    {
        match self {
            DownloadEvent::Finished { .. } => true,
            _ => false,
        }
    }
}

pub open spec fn opt_view(o: Option<String>) -> Option<Seq<char>> {
    match o {
        Some(s) => Some(s@),
        None => None,
    }
}

pub open spec fn opt_event_view(o: Option<DownloadEvent>) -> Option<EventView> {
    match o {
        Some(e) => Some(e@),
        None => None,
    }
}

/// `s` without any trailing `c`.
pub open spec fn strip_trailing(s: Seq<char>, c: char) -> Seq<char>
    decreases s.len(),
{
    if s.len() > 0 && s.last() == c {
        strip_trailing(s.drop_last(), c)
    } else {
        s
    }
}

/// Bytes done: `percent` of `total`, truncated.
pub open spec fn downloaded_of(percent: Option<u64>, total: Option<u64>) -> u64 {
    match (percent, total) {
        (Some(p), Some(t)) => capped(p as nat * t as nat / 10000),
        _ => 0,
    }
}

pub open spec fn progress_with(
    percent: Option<u64>,
    total: Option<u64>,
    speed: Option<u64>,
    eta: Option<u64>,
) -> DownloadProgress {
    DownloadProgress {
        downloaded_bytes: downloaded_of(percent, total),
        total_bytes: total,
        speed,
        eta,
        percent,
        fragment_index: None,
        fragment_count: None,
    }
}

/// Percent, total, speed and ETA after reading the first `n` words of a
/// free-form progress line; a later field overrides an earlier one.
pub open spec fn scan_words(parts: Seq<Seq<char>>, n: nat) -> (
    Option<u64>,
    Option<u64>,
    Option<u64>,
    Option<u64>,
)
    decreases n,
{
    if n == 0 || n > parts.len() {
        (None, None, None, None)
    } else {
        let (p, t, sp, e) = scan_words(parts, (n - 1) as nat);
        let i = n - 1;
        let w = parts[i];
        if w.len() > 0 && w.last() == '%' {
            (percent_of(strip_trailing(w, '%')), t, sp, e)
        } else if has_char(w, 'B') {
            if i > 0 && parts[i - 1].len() > 0 && parts[i - 1].last() == '%' {
                (p, size_of(w), sp, e)
            } else if contains(w, "/s"@) {
                (p, t, speed_of(w), e)
            } else {
                (p, t, sp, e)
            }
        } else if starts_with(w, "ETA"@) || (i > 0 && parts[i - 1] == "ETA"@) {
            (p, t, sp, e)
        } else if has_char(w, ':') && !(w.len() > 0 && w[0] == '[') {
            (p, t, sp, eta_of(w))
        } else {
            (p, t, sp, e)
        }
    }
}

/// The progress that a free-form line (`[download]  14.6% of 10.00MiB at
/// 1.00MiB/s ETA 00:09`) reports.
pub open spec fn line_progress(line: Seq<char>) -> DownloadProgress {
    let parts = words(line);
    let (p, t, sp, e) = scan_words(parts, parts.len());
    progress_with(p, t, sp, e)
}

/// The progress that a line of the machine-readable template reports:
/// `download:` then percent, total size, speed and ETA.
pub open spec fn template_progress(line: Seq<char>) -> Option<DownloadProgress> {
    let parts = words(strip_prefix(line, "download:"@));
    if parts.len() == 0 {
        None
    } else {
        let p = percent_of(trim(strip_trailing(parts[0], '%')));
        let t = if parts.len() > 1 {
            size_of(parts[1])
        } else {
            None
        };
        let sp = if parts.len() > 2 {
            speed_of(parts[2])
        } else {
            None
        };
        let e = if parts.len() > 3 {
            eta_of(parts[3])
        } else {
            None
        };
        Some(progress_with(p, t, sp, e))
    }
}

/// Whether `t[a]` is the first double quote of `t` and `t[b]`, after it, the last.
pub open spec fn is_quote_span(t: Seq<char>, a: int, b: int) -> bool {
    &&& 0 <= a < b < t.len()
    &&& t[a] == '"'
    &&& t[b] == '"'
    &&& forall|j: int| 0 <= j < a ==> t[j] != '"'
    &&& forall|j: int| b < j < t.len() ==> t[j] != '"'
}

/// The text between the first and the last double quote of `t`.
pub open spec fn quoted(t: Seq<char>) -> Option<Seq<char>> {
    if exists|a: int, b: int| is_quote_span(t, a, b) {
        let (a, b) = choose|a: int, b: int| is_quote_span(t, a, b);
        Some(t.subrange(a + 1, b))
    } else {
        None
    }
}

/// What a line means, given the current file name: the event it yields and
/// the file name afterwards. The first matching rule wins.
pub open spec fn classify(line: Seq<char>, cur: Option<Seq<char>>) -> (
    Option<EventView>,
    Option<Seq<char>>,
) {
    let t = trim(line);
    if starts_with(t, "[download] Destination:"@) {
        let f = trim(strip_prefix(t, "[download] Destination:"@));
        (Some(EventView::DownloadStarted { filename: f }), Some(f))
    } else if starts_with(t, "[download]"@) && has_char(t, '%') {
        (Some(EventView::Progress(line_progress(t))), cur)
    } else if starts_with(t, "download:"@) && template_progress(t) is Some {
        (Some(EventView::Progress(template_progress(t)->0)), cur)
    } else if has_char(t, '%') {
        (Some(EventView::Progress(line_progress(t))), cur)
    } else if starts_with(t, "[Merger]"@) || contains(t, "Merging formats"@) {
        (
            Some(EventView::MergingFormats),
            match quoted(t) {
                Some(q) => Some(q),
                None => cur,
            },
        )
    } else if starts_with(t, "[EmbedThumbnail]"@) {
        (Some(EventView::EmbeddingThumbnail), cur)
    } else if starts_with(t, "[Metadata]"@) {
        (Some(EventView::EmbeddingMetadata), cur)
    } else if starts_with(t, "[ExtractAudio]"@) || starts_with(t, "[ffmpeg]"@) {
        (Some(EventView::PostProcessing { status: t }), cur)
    } else if contains(t, "has already been downloaded"@) {
        (
            Some(
                EventView::Finished {
                    filename: match cur {
                        Some(f) => f,
                        None => Seq::empty(),
                    },
                },
            ),
            cur,
        )
    } else if starts_with(t, "WARNING:"@) {
        (Some(EventView::Warning { message: trim(strip_prefix(t, "WARNING:"@)) }), cur)
    } else if starts_with(t, "ERROR:"@) {
        (Some(EventView::Error { message: trim(strip_prefix(t, "ERROR:"@)) }), cur)
    } else {
        (None, cur)
    }
}

fn strip_trailing_exec(v: &Vec<char>, c: char) -> (r: Vec<char>)
    ensures
        r@ == strip_trailing(v@, c),
{
    let mut n = v.len();
    assert(v@.subrange(0, n as int) == v@);
    while n > 0 && v[n - 1] == c
        invariant
            n <= v@.len(),
            strip_trailing(v@, c) == strip_trailing(v@.subrange(0, n as int), c),
        decreases n,
    {
        assert(v@.subrange(0, n as int).drop_last() == v@.subrange(0, n - 1));
        n -= 1;
    }
    copy_range(v, 0, n)
}

fn ends_with_char(v: &Vec<char>, c: char) -> (r: bool)
    ensures
        r == (v@.len() > 0 && v@.last() == c),
{
    v.len() > 0 && v[v.len() - 1] == c
}

fn same_chars(a: &Vec<char>, b: &Vec<char>) -> (r: bool)
    ensures
        r == (a@ == b@),
{
    if a.len() != b.len() {
        return false;
    }
    let mut i: usize = 0;
    while i < a.len()
        invariant
            a@.len() == b@.len(),
            i <= a@.len(),
            forall|j: int| 0 <= j < i ==> a@[j] == b@[j],
        decreases a@.len() - i,
    {
        if a[i] != b[i] {
            return false;
        }
        i += 1;
    }
    assert(a@ == b@);
    true
}

/// Reads a free-form progress line: a word ending in `%` is the percent, a
/// size right after it the total, a word with `/s` the speed, and a word
/// with `:` the ETA (the word `ETA` and the one after it excepted).
pub fn parse_download_progress(line: &Vec<char>) -> (r: DownloadProgress)
    ensures
        r == line_progress(line@),
{
    let parts = words_exec(line);
    let ghost ps = views(parts@);
    let s_per = chars_of("/s");
    let eta_word = chars_of("ETA");
    let mut p: Option<u64> = None;
    let mut t: Option<u64> = None;
    let mut sp: Option<u64> = None;
    let mut e: Option<u64> = None;
    let mut i: usize = 0;
    while i < parts.len()
        invariant
            ps == views(parts@),
            ps == words(line@),
            s_per@ == "/s"@,
            eta_word@ == "ETA"@,
            i <= parts@.len(),
            (p, t, sp, e) == scan_words(ps, i as nat),
        decreases parts@.len() - i,
    {
        let w = &parts[i];
        assert(w@ == ps[i as int]);
        if i > 0 {
            assert(parts@[i - 1]@ == ps[i - 1]);
        }
        if ends_with_char(w, '%') {
            p = parse_percent_chars(&strip_trailing_exec(w, '%'));
        } else if has_char_exec(w, 'B') {
            if i > 0 && ends_with_char(&parts[i - 1], '%') {
                t = parse_size_chars(w);
            } else if contains_exec(w, &s_per) {
                sp = parse_speed_chars(w);
            }
        } else if starts_with_exec(w, &eta_word) || (i > 0 && same_chars(
            &parts[i - 1],
            &eta_word,
        )) {
        } else if has_char_exec(w, ':') && !(w.len() > 0 && w[0] == '[') {
            e = parse_eta_chars(w);
        }
        i += 1;
    }
    let downloaded = downloaded_exec(p, t);
    DownloadProgress {
        downloaded_bytes: downloaded,
        total_bytes: t,
        speed: sp,
        eta: e,
        percent: p,
        fragment_index: None,
        fragment_count: None,
    }
}

fn downloaded_exec(p: Option<u64>, t: Option<u64>) -> (r: u64)
    ensures
        r == downloaded_of(p, t),
{
    match (p, t) {
        (Some(pv), Some(tv)) => {
            assert((pv as nat) * (tv as nat) <= 0xffff_ffff_ffff_ffffnat * 0xffff_ffff_ffff_ffffnat)
                by (nonlinear_arith)
                requires
                    pv <= 0xffff_ffff_ffff_ffffnat,
                    tv <= 0xffff_ffff_ffff_ffffnat,
            ;
            let x: u128 = (pv as u128) * (tv as u128) / 10000;
            if x > u64::MAX as u128 {
                u64::MAX
            } else {
                x as u64
            }
        },
        _ => 0,
    }
}

/// `v` without the prefix `p`, if it is there.
fn strip_prefix_exec(v: &Vec<char>, p: &Vec<char>) -> (r: Vec<char>)
    ensures
        r@ == strip_prefix(v@, p@),
{
    if starts_with_exec(v, p) {
        copy_range(v, p.len(), v.len())
    } else {
        copy_range(v, 0, v.len())
    }
}

/// Reads a line of the machine-readable progress template.
pub fn parse_template_progress(line: &Vec<char>) -> (r: Option<DownloadProgress>)
    ensures
        r == template_progress(line@),
{
    let prefix = chars_of("download:");
    let parts = words_exec(&strip_prefix_exec(line, &prefix));
    let ghost ps = views(parts@);
    if parts.len() == 0 {
        return None;
    }
    assert(parts@[0]@ == ps[0]);
    let p = parse_percent_chars(&trimmed(&strip_trailing_exec(&parts[0], '%')));
    let t = if parts.len() > 1 {
        assert(parts@[1]@ == ps[1]);
        parse_size_chars(&parts[1])
    } else {
        None
    };
    let sp = if parts.len() > 2 {
        assert(parts@[2]@ == ps[2]);
        parse_speed_chars(&parts[2])
    } else {
        None
    };
    let e = if parts.len() > 3 {
        assert(parts@[3]@ == ps[3]);
        parse_eta_chars(&parts[3])
    } else {
        None
    };
    Some(
        DownloadProgress {
            downloaded_bytes: downloaded_exec(p, t),
            total_bytes: t,
            speed: sp,
            eta: e,
            percent: p,
            fragment_index: None,
            fragment_count: None,
        },
    )
}

/// The text between the first and the last double quote of `t`, if they differ.
fn quoted_exec(t: &Vec<char>) -> (r: Option<String>)
    ensures
        opt_view(r) == quoted(t@),
{
    match (find_char(t, '"'), rfind_char(t, '"')) {
        (Some(a), Some(b)) => {
            if b > a {
                assert(is_quote_span(t@, a as int, b as int));
                assert forall|a2: int, b2: int| #[trigger] is_quote_span(t@, a2, b2) implies a2 == a
                    && b2 == b by {}
                Some(string_of_range(t, a + 1, b))
            } else {
                assert forall|a2: int, b2: int| #[trigger]
                    is_quote_span(t@, a2, b2) implies false by {}
                None
            }
        },
        _ => {
            assert forall|a2: int, b2: int| #[trigger] is_quote_span(t@, a2, b2) implies false by {
                assert(has_char(t@, '"'));
            }
            None
        },
    }
}

/// Classifies one line of the downloader's standard output, keeping
/// `current_filename` up to date, and returns the event it yields, if any.
pub fn parse_progress_line(line: &str, current_filename: &mut Option<String>) -> (r: Option<
    DownloadEvent,
>)
    ensures
        classify(line@, opt_view(*old(current_filename))) == (
            opt_event_view(r),
            opt_view(*final(current_filename)),
        ),
{
    let t = trimmed(&chars_of(line));
    let destination = chars_of("[download] Destination:");
    if starts_with_exec(&t, &destination) {
        let f = trimmed(&strip_prefix_exec(&t, &destination));
        *current_filename = Some(string_of(&f));
        return Some(DownloadEvent::DownloadStarted { filename: string_of(&f) });
    }
    if starts_with_exec(&t, &chars_of("[download]")) && has_char_exec(&t, '%') {
        return Some(DownloadEvent::Progress(parse_download_progress(&t)));
    }
    if starts_with_exec(&t, &chars_of("download:")) {
        if let Some(p) = parse_template_progress(&t) {
            return Some(DownloadEvent::Progress(p));
        }
    }
    if has_char_exec(&t, '%') {
        return Some(DownloadEvent::Progress(parse_download_progress(&t)));
    }
    let merger = chars_of("[Merger]");
    if starts_with_exec(&t, &merger) || contains_exec(&t, &chars_of("Merging formats")) {
        if let Some(q) = quoted_exec(&t) {
            *current_filename = Some(q);
        }
        return Some(DownloadEvent::MergingFormats);
    }
    if starts_with_exec(&t, &chars_of("[EmbedThumbnail]")) {
        return Some(DownloadEvent::EmbeddingThumbnail);
    }
    if starts_with_exec(&t, &chars_of("[Metadata]")) {
        return Some(DownloadEvent::EmbeddingMetadata);
    }
    let extract_audio = chars_of("[ExtractAudio]");
    if starts_with_exec(&t, &extract_audio) || starts_with_exec(&t, &chars_of("[ffmpeg]")) {
        return Some(DownloadEvent::PostProcessing { status: string_of(&t) });
    }
    if contains_exec(&t, &chars_of("has already been downloaded")) {
        let filename = match current_filename {
            Some(f) => f.clone(),
            None => String::new(),
        };
        return Some(DownloadEvent::Finished { filename });
    }
    let warning = chars_of("WARNING:");
    if starts_with_exec(&t, &warning) {
        let m = trimmed(&strip_prefix_exec(&t, &warning));
        return Some(DownloadEvent::Warning { message: string_of(&m) });
    }
    let error = chars_of("ERROR:");
    if starts_with_exec(&t, &error) {
        let m = trimmed(&strip_prefix_exec(&t, &error));
        return Some(DownloadEvent::Error { message: string_of(&m) });
    }
    None
}

/// `n / unit` rounded to hundredths (halves up), as `I.FF`.
pub open spec fn two_decimals(n: nat, unit: nat) -> Seq<char>
    recommends
        unit > 0,
{
    let h = (n * 100 + unit / 2) / unit;
    decimal_digits(h / 100) + "."@ + two_digits(h % 100)
}

fn two_decimals_exec(n: u64, unit: u64) -> (r: String)
    requires
        1000 <= unit <= 1000000000,
    ensures
        r@ == two_decimals(n as nat, unit as nat),
{
    assert((n as nat) * 100 + (unit as nat) / 2 <= 0xffff_ffff_ffff_ffffnat * 100 + 1000000000)
        by (nonlinear_arith)
        requires
            n <= 0xffff_ffff_ffff_ffffnat,
            unit <= 1000000000nat,
    ;
    let h: u128 = ((n as u128) * 100 + (unit as u128) / 2) / (unit as u128);
    assert(h <= n as nat + 1) by (nonlinear_arith)
        requires
            h == ((n as nat) * 100 + (unit as nat) / 2) / (unit as nat),
            unit >= 1000,
    ;
    let whole: u128 = h / 100;
    let frac: u128 = h % 100;
    let mut r = decimal_string(whole as u64);
    r.append(".");
    r.append(two_digit_string(frac as u64).as_str());
    r
}

/// A byte count for display: GB, MB and KB with two decimals, else bytes.
pub open spec fn bytes_text(b: nat) -> Seq<char> {
    if b >= 1000000000 {
        two_decimals(b, 1000000000) + " GB"@
    } else if b >= 1000000 {
        two_decimals(b, 1000000) + " MB"@
    } else if b >= 1000 {
        two_decimals(b, 1000) + " KB"@
    } else {
        decimal_digits(b) + " B"@
    }
}

pub fn format_bytes(bytes: u64) -> (r: String)
    ensures
        r@ == bytes_text(bytes as nat),
{
    let (mut r, unit) = if bytes >= 1000000000 {
        (two_decimals_exec(bytes, 1000000000), " GB")
    } else if bytes >= 1000000 {
        (two_decimals_exec(bytes, 1000000), " MB")
    } else if bytes >= 1000 {
        (two_decimals_exec(bytes, 1000), " KB")
    } else {
        (decimal_string(bytes), " B")
    };
    r.append(unit);
    r
}

/// A speed for display: MB/s and KB/s with two decimals, else B/s.
pub open spec fn speed_text(s: nat) -> Seq<char> {
    if s >= 1000000 {
        two_decimals(s, 1000000) + " MB/s"@
    } else if s >= 1000 {
        two_decimals(s, 1000) + " KB/s"@
    } else {
        decimal_digits(s) + " B/s"@
    }
}

/// Seconds for display: `h:mm:ss` from an hour on, else `m:ss`.
pub open spec fn eta_text(secs: nat) -> Seq<char> {
    let mins = secs / 60;
    let hours = mins / 60;
    if hours > 0 {
        decimal_digits(hours) + ":"@ + two_digits(mins % 60) + ":"@ + two_digits(secs % 60)
    } else {
        decimal_digits(mins) + ":"@ + two_digits(secs % 60)
    }
}

pub open spec fn opt_text_of(o: Option<String>) -> Option<Seq<char>> {
    match o {
        Some(s) => Some(s@),
        None => None,
    }
}

impl DownloadProgress {
    pub fn format_speed(&self) -> (r: Option<String>)
        ensures
            opt_text_of(r) == match self.speed {
                Some(s) => Some(speed_text(s as nat)),
                None => None,
            },
    {
        match self.speed {
            Some(s) => {
                let (mut r, unit) = if s >= 1000000 {
                    (two_decimals_exec(s, 1000000), " MB/s")
                } else if s >= 1000 {
                    (two_decimals_exec(s, 1000), " KB/s")
                } else {
                    (decimal_string(s), " B/s")
                };
                r.append(unit);
                Some(r)
            },
            None => None,
        }
    }

    pub fn format_eta(&self) -> (r: Option<String>)
        ensures
            opt_text_of(r) == match self.eta {
                Some(e) => Some(eta_text(e as nat)),
                None => None,
            },
    {
        match self.eta {
            Some(secs) => {
                let mins = secs / 60;
                let hours = mins / 60;
                let mut r;
                if hours > 0 {
                    r = decimal_string(hours);
                    r.append(":");
                    r.append(two_digit_string(mins % 60).as_str());
                } else {
                    r = decimal_string(mins);
                }
                r.append(":");
                r.append(two_digit_string(secs % 60).as_str());
                Some(r)
            },
            None => None,
        }
    }

    pub fn format_size(&self) -> (r: String)
        ensures
            r@ == bytes_text(self.downloaded_bytes as nat),
    {
        format_bytes(self.downloaded_bytes)
    }

    pub fn format_total(&self) -> (r: Option<String>)
        ensures
            opt_text_of(r) == match self.total_bytes {
                Some(t) => Some(bytes_text(t as nat)),
                None => None,
            },
    {
        match self.total_bytes {
            Some(t) => Some(format_bytes(t)),
            None => None,
        }
    }
}

} // verus!
