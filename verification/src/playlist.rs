//! Live manifest generation: HLS media playlist (.m3u8) and MPEG-DASH (.mpd),
//! both using a sliding window over CMAF fMP4 segments.
//!
//! Segment durations are sample counts; their length in seconds, which the
//! manifests write, comes with each segment as text and as whole seconds.

use vstd::prelude::*;

use crate::text::{dec, dec_pad, push_char, push_dec, push_dec_pad, push_str};

verus! {

/// One segment currently in the live window.
#[derive(Debug, Clone)]
pub struct SegmentRef {
    pub sequence: u32,
    pub filename: String,
    /// Media-timescale decode time of the segment's first sample.
    pub start_ts: u64,
    /// Duration in media-timescale units (samples per channel).
    pub duration_ts: u64,
    /// Duration in seconds as the `#EXTINF` tag writes it (six decimals).
    pub extinf: String,
    /// Duration in seconds, rounded up to a whole second.
    pub ceil_secs: u32,
}

/// Parameters shared by both manifest formats.
pub struct ManifestParams<'a> {
    pub init_uri: &'a str,
    pub timescale: u32,
    pub sample_rate: u32,
    pub channels: u16,
    pub codec: &'a str,
    /// Nominal target segment duration (seconds).
    pub target_duration: u32,
    /// Approximate stream bandwidth in bits/s (for DASH `bandwidth`).
    pub bandwidth: u32,
    /// Unix seconds at which media time 0 was produced (DASH anchor).
    pub start_unix: u64,
    /// Current wall-clock unix seconds (DASH `publishTime`).
    pub now_unix: u64,
}

// ---------------------------------------------------------------------------
// HLS
// ---------------------------------------------------------------------------

/// The largest whole-second duration among the segments.
pub open spec fn max_ceil_secs(segs: Seq<SegmentRef>) -> u32
    decreases segs.len(),
{
    if segs.len() == 0 {
        0
    } else {
        let rest = max_ceil_secs(segs.drop_last());
        let c = segs.last().ceil_secs;
        if segs.len() == 1 || c > rest {
            c
        } else {
            rest
        }
    }
}

/// `#EXT-X-TARGETDURATION`: the longest segment in whole seconds (the
/// nominal target when the window is empty), at least 1.
pub open spec fn hls_target(segs: Seq<SegmentRef>, p: ManifestParams) -> u32 {
    let t = if segs.len() == 0 {
        p.target_duration
    } else {
        max_ceil_secs(segs)
    };
    if t < 1 {
        1
    } else {
        t
    }
}

/// The `#EXTINF` line and URI line of each segment, in order.
pub open spec fn hls_entries(segs: Seq<SegmentRef>) -> Seq<char>
    decreases segs.len(),
{
    if segs.len() == 0 {
        Seq::empty()
    } else {
        hls_entries(segs.drop_last()) + "#EXTINF:"@ + segs.last().extinf@ + ",\n"@
            + segs.last().filename@ + "\n"@
    }
}

/// The HLS live media playlist: header, version 7, target duration, media
/// sequence of the first segment (0 when empty), the init map, then one entry
/// per segment. No `#EXT-X-ENDLIST`: the stream is live.
pub open spec fn hls_spec(segs: Seq<SegmentRef>, p: ManifestParams) -> Seq<char> {
    let first_seq: u32 = if segs.len() == 0 {
        0
    } else {
        segs[0].sequence
    };
    "#EXTM3U\n"@ + "#EXT-X-VERSION:7\n"@ + "#EXT-X-TARGETDURATION:"@ + dec(
        hls_target(segs, p) as nat,
    ) + "\n"@ + "#EXT-X-MEDIA-SEQUENCE:"@ + dec(first_seq as nat) + "\n"@ + "#EXT-X-MAP:URI=\""@
        + p.init_uri@ + "\"\n"@ + hls_entries(segs)
}

/// Render an HLS live media playlist.
pub fn render_hls(segments: &[SegmentRef], params: &ManifestParams) -> (res: String)
    ensures
        res@ == hls_spec(segments@, *params),
{
    let mut target: u32 = 0;
    let mut i: usize = 0;
    while i < segments.len()
        invariant
            i <= segments@.len(),
            target == max_ceil_secs(segments@.subrange(0, i as int)),
        decreases segments@.len() - i,
    {
        let c = segments[i].ceil_secs;
        if i == 0 || c > target {
            target = c;
        }
        i = i + 1;
        assert(segments@.subrange(0, i as int).drop_last() == segments@.subrange(0, i - 1));
    }
    assert(segments@.subrange(0, segments@.len() as int) == segments@);
    if segments.len() == 0 {
        target = params.target_duration;
    }
    if target < 1 {
        target = 1;
    }
    let first_seq: u32 = if segments.len() == 0 {
        0
    } else {
        segments[0].sequence
    };
    let mut out = String::new();
    push_str(&mut out, "#EXTM3U\n");
    push_str(&mut out, "#EXT-X-VERSION:7\n");
    push_str(&mut out, "#EXT-X-TARGETDURATION:");
    push_dec(&mut out, target as u64);
    push_str(&mut out, "\n");
    push_str(&mut out, "#EXT-X-MEDIA-SEQUENCE:");
    push_dec(&mut out, first_seq as u64);
    push_str(&mut out, "\n");
    push_str(&mut out, "#EXT-X-MAP:URI=\"");
    push_str(&mut out, params.init_uri);
    push_str(&mut out, "\"\n");
    let ghost head = out@;
    let mut k: usize = 0;
    while k < segments.len()
        invariant
            k <= segments@.len(),
            out@ == head + hls_entries(segments@.subrange(0, k as int)),
        decreases segments@.len() - k,
    {
        let s = &segments[k];
        push_str(&mut out, "#EXTINF:");
        push_str(&mut out, s.extinf.as_str());
        push_str(&mut out, ",\n");
        push_str(&mut out, s.filename.as_str());
        push_str(&mut out, "\n");
        k = k + 1;
        assert(segments@.subrange(0, k as int).drop_last() == segments@.subrange(0, k - 1));
    }
    out
}

/// The HLS multivariant playlist: one audio-only variant with its bandwidth
/// and codecs, pointing at the media playlist.
pub open spec fn hls_master_spec(media_uri: Seq<char>, p: ManifestParams) -> Seq<char> {
    "#EXTM3U\n"@ + "#EXT-X-VERSION:7\n"@ + "#EXT-X-STREAM-INF:BANDWIDTH="@ + dec(p.bandwidth as nat)
        + ",CODECS=\""@ + p.codec@ + "\"\n"@ + media_uri + "\n"@
}

/// Render an HLS multivariant (master) playlist pointing at the media playlist.
///
/// This is a single audio-only rendition, so the variant carries the audio
/// directly. We deliberately do NOT declare a separate `#EXT-X-MEDIA` AUDIO
/// group referencing the same media playlist — that makes players load the
/// audio twice and produces duplicate/"corrupt" streams.
pub fn render_hls_master(media_uri: &str, params: &ManifestParams) -> (res: String)
    ensures
        res@ == hls_master_spec(media_uri@, *params),
{
    let mut out = String::new();
    push_str(&mut out, "#EXTM3U\n");
    push_str(&mut out, "#EXT-X-VERSION:7\n");
    push_str(&mut out, "#EXT-X-STREAM-INF:BANDWIDTH=");
    push_dec(&mut out, params.bandwidth as u64);
    push_str(&mut out, ",CODECS=\"");
    push_str(&mut out, params.codec);
    push_str(&mut out, "\"\n");
    push_str(&mut out, media_uri);
    push_str(&mut out, "\n");
    out
}

// ---------------------------------------------------------------------------
// MPEG-DASH
// ---------------------------------------------------------------------------

pub const DASH_HEAD: &'static str = "<?xml version=\"1.0\" encoding=\"UTF-8\"?>\n<MPD xmlns=\"urn:mpeg:dash:schema:mpd:2011\"\n     profiles=\"urn:mpeg:dash:profile:isoff-live:2011\"\n     type=\"dynamic\"\n     minimumUpdatePeriod=\"PT";
pub const DASH_MIN_BUFFER: &'static str = "S\"\n     minBufferTime=\"PT";
pub const DASH_DEPTH: &'static str = "S\"\n     timeShiftBufferDepth=\"PT";
pub const DASH_AST: &'static str = "S\"\n     availabilityStartTime=\"";
pub const DASH_PUBLISH: &'static str = "\"\n     publishTime=\"";
pub const DASH_REPRESENTATION: &'static str = "\">\n  <Period id=\"0\" start=\"PT0S\">\n    <AdaptationSet mimeType=\"audio/mp4\" segmentAlignment=\"true\" startWithSAP=\"1\">\n      <Representation id=\"audio\" codecs=\"";
pub const DASH_BANDWIDTH: &'static str = "\" bandwidth=\"";
pub const DASH_RATE: &'static str = "\" audioSamplingRate=\"";
pub const DASH_CHANNELS: &'static str = "\">\n        <AudioChannelConfiguration schemeIdUri=\"urn:mpeg:dash:23003:3:audio_channel_configuration:2011\" value=\"";
pub const DASH_TIMESCALE: &'static str = "\"/>\n        <SegmentTemplate timescale=\"";
pub const DASH_INIT: &'static str = "\" initialization=\"";
pub const DASH_START: &'static str = "\" media=\"seg-$Number%05d$.m4s\" startNumber=\"";
pub const DASH_TIMELINE: &'static str = "\">\n          <SegmentTimeline>\n";
pub const DASH_TAIL: &'static str = "          </SegmentTimeline>\n        </SegmentTemplate>\n      </Representation>\n    </AdaptationSet>\n  </Period>\n</MPD>\n";
pub const DASH_S_FIRST: &'static str = "          <S t=\"";
pub const DASH_S_D: &'static str = "\" d=\"";
pub const DASH_S_NEXT: &'static str = "          <S d=\"";
pub const DASH_S_END: &'static str = "\"/>\n";

/// The `SegmentTimeline` entries: the first carries its start time, every
/// one its duration.
pub open spec fn dash_timeline(segs: Seq<SegmentRef>) -> Seq<char>
    decreases segs.len(),
{
    if segs.len() == 0 {
        Seq::empty()
    } else if segs.len() == 1 {
        DASH_S_FIRST@ + dec(segs[0].start_ts as nat) + DASH_S_D@ + dec(segs[0].duration_ts as nat)
            + DASH_S_END@
    } else {
        dash_timeline(segs.drop_last()) + DASH_S_NEXT@ + dec(segs.last().duration_ts as nat)
            + DASH_S_END@
    }
}

/// Total duration of the segments, in samples.
pub open spec fn total_ts(segs: Seq<SegmentRef>) -> nat
    decreases segs.len(),
{
    if segs.len() == 0 {
        0
    } else {
        total_ts(segs.drop_last()) + (segs.last().duration_ts as nat)
    }
}

/// The dynamic MPD: update period = target (at least 1 s), min buffer = twice
/// the target (at least 2 s), time-shift depth = `window_secs` (the window's
/// length in whole seconds, rounded up), availability
/// start and publish times, one audio representation whose segment template
/// numbers media segments from the first sequence in the window (1 when
/// empty), and the segment timeline.
pub open spec fn dash_spec(segs: Seq<SegmentRef>, p: ManifestParams, window_secs: u64) -> Seq<char> {
    let first_seq: u32 = if segs.len() == 0 {
        1
    } else {
        segs[0].sequence
    };
    let mup: u32 = if p.target_duration < 1 {
        1
    } else {
        p.target_duration
    };
    let min_buffer: int = if p.target_duration * 2 < 2 {
        2
    } else {
        p.target_duration * 2
    };
    DASH_HEAD@ + dec(mup as nat) + DASH_MIN_BUFFER@ + dec(min_buffer as nat) + DASH_DEPTH@ + dec(window_secs as nat)
        + DASH_AST@ + iso8601_spec(p.start_unix as nat) + DASH_PUBLISH@ + iso8601_spec(
        p.now_unix as nat,
    ) + DASH_REPRESENTATION@ + p.codec@ + DASH_BANDWIDTH@ + dec(p.bandwidth as nat) + DASH_RATE@
        + dec(p.sample_rate as nat) + DASH_CHANNELS@ + dec(p.channels as nat) + DASH_TIMESCALE@
        + dec(p.timescale as nat) + DASH_INIT@ + p.init_uri@ + DASH_START@ + dec(first_seq as nat)
        + DASH_TIMELINE@ + dash_timeline(segs) + DASH_TAIL@
}

/// Render a dynamic MPEG-DASH manifest using a SegmentTimeline window.
pub fn render_dash(segments: &[SegmentRef], params: &ManifestParams, window_secs: u64) -> (res: String)
    requires
        params.target_duration <= u32::MAX / 2,
    ensures
        res@ == dash_spec(segments@, *params, window_secs),
{
    let first_seq: u32 = if segments.len() == 0 {
        1
    } else {
        segments[0].sequence
    };
    let mut timeline = String::new();
    let mut i: usize = 0;
    while i < segments.len()
        invariant
            i <= segments@.len(),
            timeline@ == dash_timeline(segments@.subrange(0, i as int)),
        decreases segments@.len() - i,
    {
        let s = &segments[i];
        if i == 0 {
            push_str(&mut timeline, DASH_S_FIRST);
            push_dec(&mut timeline, s.start_ts);
            push_str(&mut timeline, DASH_S_D);
            push_dec(&mut timeline, s.duration_ts);
            push_str(&mut timeline, DASH_S_END);
        } else {
            push_str(&mut timeline, DASH_S_NEXT);
            push_dec(&mut timeline, s.duration_ts);
            push_str(&mut timeline, DASH_S_END);
        }
        i = i + 1;
        assert(segments@.subrange(0, i as int).drop_last() == segments@.subrange(0, i - 1));
        if i == 1 {
            assert(segments@.subrange(0, 1) == seq![segments@[0]]);
        }
    }
    assert(segments@.subrange(0, segments@.len() as int) == segments@);
    let mup: u32 = if params.target_duration < 1 {
        1
    } else {
        params.target_duration
    };
    let min_buffer: u32 = if params.target_duration * 2 < 2 {
        2
    } else {
        params.target_duration * 2
    };
    let ast = iso8601(params.start_unix);
    let publish = iso8601(params.now_unix);
    let mut out = String::new();
    push_str(&mut out, DASH_HEAD);
    push_dec(&mut out, mup as u64);
    push_str(&mut out, DASH_MIN_BUFFER);
    push_dec(&mut out, min_buffer as u64);
    push_str(&mut out, DASH_DEPTH);
    push_dec(&mut out, window_secs);
    push_str(&mut out, DASH_AST);
    push_str(&mut out, ast.as_str());
    push_str(&mut out, DASH_PUBLISH);
    push_str(&mut out, publish.as_str());
    push_str(&mut out, DASH_REPRESENTATION);
    push_str(&mut out, params.codec);
    push_str(&mut out, DASH_BANDWIDTH);
    push_dec(&mut out, params.bandwidth as u64);
    push_str(&mut out, DASH_RATE);
    push_dec(&mut out, params.sample_rate as u64);
    push_str(&mut out, DASH_CHANNELS);
    push_dec(&mut out, params.channels as u64);
    push_str(&mut out, DASH_TIMESCALE);
    push_dec(&mut out, params.timescale as u64);
    push_str(&mut out, DASH_INIT);
    push_str(&mut out, params.init_uri);
    push_str(&mut out, DASH_START);
    push_dec(&mut out, first_seq as u64);
    push_str(&mut out, DASH_TIMELINE);
    push_str(&mut out, timeline.as_str());
    push_str(&mut out, DASH_TAIL);
    out
}

// ---------------------------------------------------------------------------
// Dates
// ---------------------------------------------------------------------------

/// Gregorian leap years: those divisible by 4, except the centuries that are
/// not divisible by 400.
pub open spec fn is_leap_year(y: int) -> bool {
    y % 4 == 0 && (y % 100 != 0 || y % 400 == 0)
}

/// Days in year `y`.
pub open spec fn year_length(y: int) -> nat {
    if is_leap_year(y) {
        366
    } else {
        365
    }
}

/// Days in month `m` (1 to 12) of year `y`.
pub open spec fn month_length(y: int, m: int) -> nat {
    if m == 2 {
        if is_leap_year(y) {
            29
        } else {
            28
        }
    } else if m == 4 || m == 6 || m == 9 || m == 11 {
        30
    } else {
        31
    }
}

/// The month and day of month of the day `doy` days after the first of
/// month `m` of year `y` (December takes whatever is left).
pub open spec fn month_and_day(y: int, m: int, doy: nat) -> (int, int)
    decreases 12 - m,
{
    if m >= 12 || doy < month_length(y, m) {
        (m, doy + 1int)
    } else {
        month_and_day(y, m + 1, (doy - month_length(y, m)) as nat)
    }
}

/// The (year, month, day) that comes `days` days after January 1 of year `y`.
pub open spec fn date_after(y: int, days: nat) -> (int, int, int)
    decreases days,
{
    if days < year_length(y) {
        let md = month_and_day(y, 1, days);
        (y, md.0, md.1)
    } else {
        date_after(y + 1, (days - year_length(y)) as nat)
    }
}

/// The proleptic Gregorian date `days` days after 1970-01-01.
pub open spec fn civil_date(days: nat) -> (int, int, int) {
    date_after(1970, days)
}

/// `YYYY-MM-DDTHH:MM:SSZ` of a Unix timestamp.
pub open spec fn iso8601_spec(secs: nat) -> Seq<char> {
    let (year, m, d) = civil_date(secs / 86_400);
    let rem = secs % 86_400;
    dec_pad(year as nat, 4) + seq!['-'] + dec_pad(m as nat, 2) + seq!['-'] + dec_pad(d as nat, 2)
        + seq!['T'] + dec_pad(rem / 3600, 2) + seq![':'] + dec_pad((rem % 3600) / 60, 2) + seq![':']
        + dec_pad(rem % 60, 2) + seq!['Z']
}

/// Days in the `n` years from year `y` on.
spec fn years_length(y: int, n: nat) -> nat
    decreases n,
{
    if n == 0 {
        0
    } else {
        year_length(y) + years_length(y + 1, (n - 1) as nat)
    }
}

/// Leap years up to and including year `x`, counted from year 1 (for
/// `x >= 0`).
spec fn leaps_through(x: int) -> int {
    x / 4 - x / 100 + x / 400
}

/// One more year adds one leap day exactly when it is a leap year.
proof fn lemma_leaps_step(y: int)
    requires
        y >= 1,
    ensures
        leaps_through(y) - leaps_through(y - 1) == if is_leap_year(y) {
            1int
        } else {
            0int
        },
{
}

/// The `n` years from `y` on have `365 n` days plus their leap days.
proof fn lemma_years_length(y: int, n: nat)
    requires
        y >= 1,
    ensures
        years_length(y, n) == 365 * n + leaps_through(y + n - 1) - leaps_through(y - 1),
    decreases n,
{
    if n > 0 {
        lemma_years_length(y + 1, (n - 1) as nat);
        lemma_leaps_step(y);
    }
}

/// Any four centuries of the Gregorian calendar last 146097 days.
proof fn lemma_four_centuries(y: int)
    requires
        y >= 1,
    ensures
        years_length(y, 400) == 146_097,
{
    lemma_years_length(y, 400);
    let x = y - 1;
    assert((x + 400) / 4 == x / 4 + 100);
    assert((x + 400) / 100 == x / 100 + 4);
    assert((x + 400) / 400 == x / 400 + 1);
}

/// Skipping the `n` years from `y` on skips their days.
proof fn lemma_date_after_years(y: int, n: nat, d: nat)
    ensures
        date_after(y, d + years_length(y, n)) == date_after(y + n, d),
    decreases n,
{
    if n > 0 {
        lemma_date_after_years(y + 1, (n - 1) as nat, d);
    }
}

/// Every 146097 days the calendar is 400 years further on.
proof fn lemma_date_after_eras(k: nat, d: nat)
    ensures
        date_after(1970, d + 146_097 * k) == date_after(1970 + 400 * (k as int), d),
    decreases k,
{
    if k > 0 {
        let k1 = (k - 1) as nat;
        lemma_date_after_eras(k1, d + 146_097);
        lemma_four_centuries(1970 + 400 * (k1 as int));
        lemma_date_after_years(1970 + 400 * (k1 as int), 400, d);
        assert(d + 146_097 * k == (d + 146_097) + 146_097 * k1);
    }
}

/// The months from `m` to December of year `y`, in days.
spec fn months_left(y: int, m: int) -> nat
    decreases 12 - m,
{
    if m >= 12 {
        month_length(y, 12)
    } else {
        month_length(y, m) + months_left(y, m + 1)
    }
}

/// A day of the months from `m` on falls in one of them, on one of its days.
proof fn lemma_month_and_day_in_range(y: int, m: int, doy: nat)
    requires
        1 <= m <= 12,
        doy < months_left(y, m),
    ensures
        m <= month_and_day(y, m, doy).0 <= 12,
        1 <= month_and_day(y, m, doy).1 <= month_length(y, month_and_day(y, m, doy).0),
    decreases 12 - m,
{
    if m < 12 && doy >= month_length(y, m) {
        lemma_month_and_day_in_range(y, m + 1, (doy - month_length(y, m)) as nat);
    }
}

/// A date after January 1 of year `y` has a year from `y` on, a month from 1
/// to 12 and a day within that month.
proof fn lemma_date_after_in_range(y: int, days: nat)
    ensures
        date_after(y, days).0 >= y,
        1 <= date_after(y, days).1 <= 12,
        1 <= date_after(y, days).2 <= month_length(date_after(y, days).0, date_after(y, days).1),
    decreases days,
{
    if days < year_length(y) {
        reveal_with_fuel(months_left, 12);
        assert(months_left(y, 1) == year_length(y));
        lemma_month_and_day_in_range(y, 1, days);
    } else {
        lemma_date_after_in_range(y + 1, (days - year_length(y)) as nat);
    }
}

/// Every timestamp is written as a calendar date from 1970 on whose month is
/// 1 to 12 and whose day is within that month, and a time of day whose hour
/// is below 24 and whose minute and second are below 60.
pub proof fn law_iso8601_fields_in_range(secs: nat)
    ensures
        ({
            let (year, m, d) = civil_date(secs / 86_400);
            let rem = secs % 86_400;
            &&& 1 <= m <= 12
            &&& 1 <= d <= month_length(year, m)
            &&& year >= 1970
            &&& rem / 3600 < 24
            &&& (rem % 3600) / 60 < 60
            &&& rem % 60 < 60
        }),
{
    lemma_date_after_in_range(1970, secs / 86_400);
}

fn is_leap(y: u64) -> (res: bool)
    ensures
        res == is_leap_year(y as int),
{
    y % 4 == 0 && (y % 100 != 0 || y % 400 == 0)
}

fn days_in_year(y: u64) -> (res: u64)
    ensures
        res == year_length(y as int),
{
    if is_leap(y) {
        366
    } else {
        365
    }
}

fn days_in_month(y: u64, m: u64) -> (res: u64)
    ensures
        res == month_length(y as int, m as int),
{
    if m == 2 {
        if is_leap(y) {
            29
        } else {
            28
        }
    } else if m == 4 || m == 6 || m == 9 || m == 11 {
        30
    } else {
        31
    }
}

/// The calendar date `days` days after 1970-01-01: whole four-century eras
/// first, then the years and months of the rest.
fn civil(days: u64) -> (res: (u64, u64, u64))
    ensures
        res.0 == civil_date(days as nat).0,
        res.1 == civil_date(days as nat).1,
        res.2 == civil_date(days as nat).2,
{
    let eras: u64 = days / 146_097;
    let mut rest: u64 = days % 146_097;
    assert(400 * eras <= 400 * (u64::MAX / 146_097)) by (nonlinear_arith)
        requires
            eras == days / 146_097,
    ;
    let first: u64 = 1970 + 400 * eras;
    proof {
        lemma_date_after_eras(eras as nat, rest as nat);
    }
    let mut y: u64 = first;
    while rest >= days_in_year(y)
        invariant
            date_after(y as int, rest as nat) == civil_date(days as nat),
            first <= y,
            365 * (y - first) + rest < 146_097,
            first <= 1970 + 400 * (u64::MAX / 146_097),
        decreases rest,
    {
        rest = rest - days_in_year(y);
        y = y + 1;
    }
    let ghost doy = rest;
    let mut m: u64 = 1;
    while m < 12 && rest >= days_in_month(y, m)
        invariant
            1 <= m <= 12,
            month_and_day(y as int, m as int, rest as nat) == month_and_day(y as int, 1, doy as nat),
            rest <= doy,
        decreases 12 - m,
    {
        rest = rest - days_in_month(y, m);
        m = m + 1;
    }
    (y, m, rest + 1)
}

/// Format a Unix timestamp (seconds) as ISO-8601 UTC, e.g. `2026-07-29T12:00:00Z`.
pub fn iso8601(secs: u64) -> (res: String)
    ensures
        res@ == iso8601_spec(secs as nat),
{
    let days: u64 = secs / 86_400;
    let rem: u64 = secs % 86_400;
    let hh = rem / 3600;
    let mm = (rem % 3600) / 60;
    let ss = rem % 60;
    let (year, m, d) = civil(days);
    let mut out = String::new();
    push_dec_pad(&mut out, year, 4);
    push_char(&mut out, '-');
    push_dec_pad(&mut out, m, 2);
    push_char(&mut out, '-');
    push_dec_pad(&mut out, d, 2);
    push_char(&mut out, 'T');
    push_dec_pad(&mut out, hh, 2);
    push_char(&mut out, ':');
    push_dec_pad(&mut out, mm, 2);
    push_char(&mut out, ':');
    push_dec_pad(&mut out, ss, 2);
    push_char(&mut out, 'Z');
    assert(out@ =~= iso8601_spec(secs as nat));
    out
}

} // verus!
