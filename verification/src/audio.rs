//! The frame arithmetic of recorded audio: frame sizes, the voiced segments
//! that are kept, the samples they cover, and their WAVE encoding; and how
//! a recording ends.
use vstd::prelude::*;

use vstd::arithmetic::power2::pow2;

use crate::settings::clamp;
use crate::text::owned;

verus! {

/// The length of one analysis frame, in milliseconds.
pub const VOICE_FRAME_MS: u32 = 20;

/// A run of voiced frames, `start_frame..end_frame`.
#[derive(Debug, Clone, Copy, PartialEq, Eq, Structural)]
pub struct VoiceSegment {
    pub start_frame: usize,
    pub end_frame: usize,
}

/// Samples in one frame (all channels), at least 1.
pub open spec fn frame_len(sample_rate: u32, channels: usize) -> int {
    let n = (sample_rate * channels * VOICE_FRAME_MS) / 1000;
    if n < 1 {
        1
    } else {
        n
    }
}

pub fn voice_frame_len(sample_rate: u32, channels: usize) -> (r: usize)
    requires
        sample_rate * channels * VOICE_FRAME_MS <= usize::MAX,
    ensures
        r == frame_len(sample_rate, channels),
{
    let n = (sample_rate as usize * channels * VOICE_FRAME_MS as usize) / 1000;
    if n < 1 {
        1
    } else {
        n
    }
}

/// Frames needed to cover `ms` milliseconds (rounded up).
pub fn ms_to_frame_count(ms: u32) -> (r: usize)
    ensures
        r == (ms + VOICE_FRAME_MS - 1) / (VOICE_FRAME_MS as int),
{
    let q = ms / VOICE_FRAME_MS;
    let r = if ms % VOICE_FRAME_MS == 0 {
        q
    } else {
        q + 1
    };
    assert((ms + VOICE_FRAME_MS - 1) / (VOICE_FRAME_MS as int) == r as int) by (nonlinear_arith)
        requires
            q as int == ms as int / 20,
            ms % 20 == 0 ==> r as int == q as int,
            ms % 20 != 0 ==> r as int == q as int + 1,
            VOICE_FRAME_MS == 20,
    ;
    r as usize
}

/// `a + b`, saturating at `usize::MAX`.
pub open spec fn sat_add(a: usize, b: usize) -> int {
    if a + b > usize::MAX {
        usize::MAX as int
    } else {
        a + b
    }
}

/// Adds the segment `start..end`: too short (under `min_frames`) is dropped;
/// close enough to the last segment (within `merge_gap` frames of its end)
/// extends it; otherwise it is appended.
pub open spec fn pushed_segment(
    segments: Seq<VoiceSegment>,
    start: usize,
    end: usize,
    min_frames: usize,
    merge_gap: usize,
) -> Seq<VoiceSegment> {
    if end <= start || end - start < min_frames {
        segments
    } else if segments.len() > 0 && start <= sat_add(segments.last().end_frame, merge_gap) {
        let last = segments.last();
        segments.update(
            segments.len() - 1,
            VoiceSegment {
                end_frame: if last.end_frame < end {
                    end
                } else {
                    last.end_frame
                },
                ..last
            },
        )
    } else {
        segments.push(VoiceSegment { start_frame: start, end_frame: end })
    }
}

pub fn push_voice_segment(
    segments: &mut Vec<VoiceSegment>,
    start_frame: usize,
    end_frame: usize,
    min_segment_frames: usize,
    short_gap_merge_frames: usize,
)
    ensures
        final(segments)@ == pushed_segment(
            old(segments)@,
            start_frame,
            end_frame,
            min_segment_frames,
            short_gap_merge_frames,
        ),
{
    if end_frame <= start_frame || end_frame - start_frame < min_segment_frames {
        return ;
    }
    let n = segments.len();
    if n > 0 {
        let last = segments[n - 1];
        if start_frame <= last.end_frame.saturating_add(short_gap_merge_frames) {
            let end = if last.end_frame < end_frame {
                end_frame
            } else {
                last.end_frame
            };
            segments.set(n - 1, VoiceSegment { start_frame: last.start_frame, end_frame: end });
            return ;
        }
    }
    segments.push(VoiceSegment { start_frame, end_frame });
}

/// The last segment runs to the end when it stops within `protect` frames of it.
pub open spec fn protected_terminal(segments: Seq<VoiceSegment>, total: usize, protect: usize) -> Seq<
    VoiceSegment,
> {
    if segments.len() == 0 {
        segments
    } else {
        let last = segments.last();
        let gap = if total < last.end_frame {
            0
        } else {
            total - last.end_frame
        };
        if gap <= protect {
            segments.update(segments.len() - 1, VoiceSegment { end_frame: total, ..last })
        } else {
            segments
        }
    }
}

pub fn protect_terminal_audio(segments: &mut Vec<VoiceSegment>, total_frames: usize, terminal_protection_frames: usize)
    ensures
        final(segments)@ == protected_terminal(old(segments)@, total_frames, terminal_protection_frames),
{
    let n = segments.len();
    if n == 0 {
        return ;
    }
    let last = segments[n - 1];
    if total_frames.saturating_sub(last.end_frame) <= terminal_protection_frames {
        segments.set(n - 1, VoiceSegment { start_frame: last.start_frame, end_frame: total_frames });
    }
}

/// How one frame sounded, as the level analysis classified it.
#[derive(Debug, Clone, Copy, PartialEq, Eq, Structural)]
pub struct FrameClass {
    /// Loud enough to start a segment by itself.
    pub strong: bool,
    /// Loud enough to count as speech.
    pub weak: bool,
    /// Loud enough to keep a segment going.
    pub continuation: bool,
}

/// The frame counts that shape the segments.
#[derive(Debug, Clone, Copy, PartialEq, Eq, Structural)]
pub struct SegmentConfig {
    pub min_start_frames: usize,
    pub min_segment_frames: usize,
    pub prefix_padding_frames: usize,
    pub post_padding_frames: usize,
    pub end_silence_frames: usize,
    pub short_gap_merge_frames: usize,
    pub terminal_protection_frames: usize,
}

/// A strong frame is also speech, and speech keeps a segment going.
pub open spec fn speech_frame(c: FrameClass) -> bool {
    c.strong || c.weak
}

pub open spec fn voiced_frame(c: FrameClass) -> bool {
    c.strong || c.weak || c.continuation
}

/// The scan's state after some frames.
pub ghost struct ScanView {
    pub segments: Seq<VoiceSegment>,
    pub speech_frames: int,
    pub weak_run: int,
    pub weak_run_start: int,
    pub segment_start: int,
    pub last_voice: int,
    pub silence_run: int,
    pub in_segment: bool,
}

pub open spec fn scan_start() -> ScanView {
    ScanView {
        segments: Seq::empty(),
        speech_frames: 0,
        weak_run: 0,
        weak_run_start: 0,
        segment_start: 0,
        last_voice: 0,
        silence_run: 0,
        in_segment: false,
    }
}

/// Where a segment whose last voiced frame is `last_voice` ends: after the
/// post padding, but not past the recording.
pub open spec fn segment_end(last_voice: int, post: usize, n: int) -> int {
    if last_voice + 1 + post < n {
        last_voice + 1 + post
    } else {
        n
    }
}

/// Frame `i`, classified `c`, in a recording of `n` frames. Outside a
/// segment, a strong frame or a long enough run of speech opens one (reaching
/// back over the prefix padding); inside, voiced frames keep it going and a
/// long enough silence closes it after the post padding.
pub open spec fn scan_step(s: ScanView, i: int, c: FrameClass, cfg: SegmentConfig, n: int) -> ScanView {
    let speech = if speech_frame(c) {
        s.speech_frames + 1
    } else {
        s.speech_frames
    };
    if !s.in_segment {
        let run = if speech_frame(c) {
            s.weak_run + 1
        } else {
            0
        };
        let run_start = if speech_frame(c) && s.weak_run == 0 {
            i
        } else {
            s.weak_run_start
        };
        if c.strong || run >= cfg.min_start_frames {
            let detected = if run > 0 {
                run_start
            } else {
                i
            };
            ScanView {
                speech_frames: speech,
                weak_run: run,
                weak_run_start: run_start,
                segment_start: if detected > cfg.prefix_padding_frames {
                    detected - cfg.prefix_padding_frames
                } else {
                    0
                },
                last_voice: i,
                silence_run: 0,
                in_segment: true,
                ..s
            }
        } else {
            ScanView { speech_frames: speech, weak_run: run, weak_run_start: run_start, ..s }
        }
    } else if voiced_frame(c) {
        ScanView { speech_frames: speech, last_voice: i, silence_run: 0, ..s }
    } else if s.silence_run + 1 >= cfg.end_silence_frames {
        ScanView {
            speech_frames: speech,
            segments: pushed_segment(
                s.segments,
                s.segment_start as usize,
                segment_end(s.last_voice, cfg.post_padding_frames, n) as usize,
                cfg.min_segment_frames,
                cfg.short_gap_merge_frames,
            ),
            in_segment: false,
            weak_run: 0,
            silence_run: 0,
            ..s
        }
    } else {
        ScanView { speech_frames: speech, silence_run: s.silence_run + 1, ..s }
    }
}

/// The state after the first `k` frames.
pub open spec fn scan(classes: Seq<FrameClass>, cfg: SegmentConfig, k: int) -> ScanView
    decreases k,
{
    if k <= 0 {
        scan_start()
    } else {
        scan_step(scan(classes, cfg, k - 1), k - 1, classes[k - 1], cfg, classes.len() as int)
    }
}

/// The voiced segments of a recording and how many frames were speech. An
/// open segment is closed at the end; when nothing was found but the levels
/// say there may be a voice, the whole recording is kept; otherwise the last
/// segment is stretched to the end when it stops close to it.
pub open spec fn detected_segments(
    classes: Seq<FrameClass>,
    cfg: SegmentConfig,
    possible_voice_signal: bool,
) -> (Seq<VoiceSegment>, int) {
    let n = classes.len() as int;
    if n == 0 {
        (Seq::empty(), 0)
    } else {
        let s = scan(classes, cfg, n);
        let segs = if s.in_segment {
            pushed_segment(
                s.segments,
                s.segment_start as usize,
                segment_end(s.last_voice, cfg.post_padding_frames, n) as usize,
                cfg.min_segment_frames,
                cfg.short_gap_merge_frames,
            )
        } else {
            s.segments
        };
        if segs.len() == 0 && possible_voice_signal {
            (seq![VoiceSegment { start_frame: 0, end_frame: n as usize }], n)
        } else {
            (protected_terminal(segs, n as usize, cfg.terminal_protection_frames), s.speech_frames)
        }
    }
}

/// The counters of the scan stay within the frames seen.
pub open spec fn scan_bounded(s: ScanView, k: int) -> bool {
    &&& 0 <= s.speech_frames <= k
    &&& 0 <= s.weak_run <= k
    &&& 0 <= s.weak_run_start <= k
    &&& 0 <= s.segment_start <= k
    &&& 0 <= s.last_voice <= k
    &&& 0 <= s.silence_run <= k
}

/// Finds the voiced segments of a recording from its frames' classes.
pub fn detect_voice_segments(
    classes: &Vec<FrameClass>,
    config: &SegmentConfig,
    possible_voice_signal: bool,
) -> (r: (Vec<VoiceSegment>, usize))
    requires
        classes.len() + config.post_padding_frames + 1 <= usize::MAX,
    ensures
        (r.0@, r.1 as int) == detected_segments(classes@, *config, possible_voice_signal),
{
    let n = classes.len();
    if n == 0 {
        return (Vec::new(), 0);
    }
    let ghost cs = classes@;
    let cfg = *config;
    let mut segments: Vec<VoiceSegment> = Vec::new();
    let mut speech_frames: usize = 0;
    let mut weak_run: usize = 0;
    let mut weak_run_start: usize = 0;
    let mut segment_start: usize = 0;
    let mut last_voice: usize = 0;
    let mut silence_run: usize = 0;
    let mut in_segment = false;
    let mut i: usize = 0;
    while i < n
        invariant
            0 <= i <= n,
            n == classes.len(),
            cs == classes@,
            cfg == *config,
            n + cfg.post_padding_frames + 1 <= usize::MAX,
            scan_bounded(scan(cs, cfg, i as int), i as int),
            scan(cs, cfg, i as int) == (ScanView {
                segments: segments@,
                speech_frames: speech_frames as int,
                weak_run: weak_run as int,
                weak_run_start: weak_run_start as int,
                segment_start: segment_start as int,
                last_voice: last_voice as int,
                silence_run: silence_run as int,
                in_segment,
            }),
        decreases n - i,
    {
        let c = classes[i];
        let speech = c.strong || c.weak;
        let voiced = speech || c.continuation;
        if speech {
            speech_frames = speech_frames + 1;
        }
        if !in_segment {
            if speech {
                if weak_run == 0 {
                    weak_run_start = i;
                }
                weak_run = weak_run + 1;
            } else {
                weak_run = 0;
            }
            if c.strong || weak_run >= cfg.min_start_frames {
                let detected = if weak_run > 0 {
                    weak_run_start
                } else {
                    i
                };
                segment_start = detected.saturating_sub(cfg.prefix_padding_frames);
                last_voice = i;
                silence_run = 0;
                in_segment = true;
            }
        } else if voiced {
            last_voice = i;
            silence_run = 0;
        } else {
            silence_run = silence_run + 1;
            if silence_run >= cfg.end_silence_frames {
                let end = if last_voice + 1 + cfg.post_padding_frames < n {
                    last_voice + 1 + cfg.post_padding_frames
                } else {
                    n
                };
                push_voice_segment(
                    &mut segments,
                    segment_start,
                    end,
                    cfg.min_segment_frames,
                    cfg.short_gap_merge_frames,
                );
                in_segment = false;
                weak_run = 0;
                silence_run = 0;
            }
        }
        i = i + 1;
    }
    if in_segment {
        let end = if last_voice + 1 + cfg.post_padding_frames < n {
            last_voice + 1 + cfg.post_padding_frames
        } else {
            n
        };
        push_voice_segment(&mut segments, segment_start, end, cfg.min_segment_frames, cfg.short_gap_merge_frames);
    }
    if segments.len() == 0 && possible_voice_signal {
        let mut whole: Vec<VoiceSegment> = Vec::new();
        whole.push(VoiceSegment { start_frame: 0, end_frame: n });
        assert(whole@ =~= seq![VoiceSegment { start_frame: 0, end_frame: n as usize }]);
        return (whole, n);
    }
    protect_terminal_audio(&mut segments, n, cfg.terminal_protection_frames);
    (segments, speech_frames)
}

/// Segments inside a recording of `n` frames: each non-empty and ending by
/// `n`, in order, and each starting more than `gap` frames after the one before.
pub open spec fn segments_in_order(segs: Seq<VoiceSegment>, n: int, gap: usize) -> bool {
    &&& forall|k: int| 0 <= k < segs.len() ==> (#[trigger] segs[k]).start_frame < segs[k].end_frame <= n
    &&& forall|k: int| 0 < k < segs.len() ==> segs[k - 1].end_frame + gap < (#[trigger] segs[k]).start_frame
}

proof fn lemma_pushed_in_order(
    segs: Seq<VoiceSegment>,
    start: usize,
    end: usize,
    min_frames: usize,
    gap: usize,
    n: int,
)
    requires
        segments_in_order(segs, n, gap),
        end <= n,
    ensures
        segments_in_order(pushed_segment(segs, start, end, min_frames, gap), n, gap),
{
    let r = pushed_segment(segs, start, end, min_frames, gap);
    if end <= start || end - start < min_frames {
    } else if segs.len() > 0 && start <= sat_add(segs.last().end_frame, gap) {
        let m = segs.len() - 1;
        assert forall|k: int| 0 < k < r.len() implies r[k - 1].end_frame + gap < (
        #[trigger] r[k]).start_frame by {
            assert(r[k].start_frame == segs[k].start_frame);
            if k - 1 < m {
                assert(r[k - 1] == segs[k - 1]);
            }
        }
        assert forall|k: int| 0 <= k < r.len() implies (#[trigger] r[k]).start_frame < r[k].end_frame
            <= n by {
            if k < m {
                assert(r[k] == segs[k]);
            }
        }
    } else {
        if segs.len() > 0 {
            assert(segs.last() == segs[segs.len() - 1]);
        }
        assert forall|k: int| 0 < k < r.len() implies r[k - 1].end_frame + gap < (
        #[trigger] r[k]).start_frame by {
            if k < segs.len() {
                assert(r[k] == segs[k]);
                assert(r[k - 1] == segs[k - 1]);
            } else {
                assert(r[k - 1] == segs[k - 1]);
            }
        }
        assert forall|k: int| 0 <= k < r.len() implies (#[trigger] r[k]).start_frame < r[k].end_frame
            <= n by {
            if k < segs.len() {
                assert(r[k] == segs[k]);
            }
        }
    }
}

proof fn lemma_scan_in_order(classes: Seq<FrameClass>, cfg: SegmentConfig, k: int)
    requires
        0 <= k <= classes.len(),
        classes.len() + cfg.post_padding_frames + 1 <= usize::MAX,
    ensures
        scan_bounded(scan(classes, cfg, k), k),
        segments_in_order(scan(classes, cfg, k).segments, classes.len() as int, cfg.short_gap_merge_frames),
    decreases k,
{
    if k > 0 {
        lemma_scan_in_order(classes, cfg, k - 1);
        let s = scan(classes, cfg, k - 1);
        let n = classes.len() as int;
        lemma_pushed_in_order(
            s.segments,
            s.segment_start as usize,
            segment_end(s.last_voice, cfg.post_padding_frames, n) as usize,
            cfg.min_segment_frames,
            cfg.short_gap_merge_frames,
            n,
        );
    }
}

/// The segments found lie inside the recording, each non-empty, in order and
/// further apart than the merge gap; the count of speech frames is at most
/// the number of frames.
pub proof fn lemma_detected_segments_in_order(
    classes: Seq<FrameClass>,
    cfg: SegmentConfig,
    possible_voice_signal: bool,
)
    requires
        classes.len() + cfg.post_padding_frames + 1 <= usize::MAX,
    ensures
        segments_in_order(
            detected_segments(classes, cfg, possible_voice_signal).0,
            classes.len() as int,
            cfg.short_gap_merge_frames,
        ),
        0 <= detected_segments(classes, cfg, possible_voice_signal).1 <= classes.len(),
{
    let n = classes.len() as int;
    if n > 0 {
        lemma_scan_in_order(classes, cfg, n);
        let s = scan(classes, cfg, n);
        let gap = cfg.short_gap_merge_frames;
        let segs = if s.in_segment {
            lemma_pushed_in_order(
                s.segments,
                s.segment_start as usize,
                segment_end(s.last_voice, cfg.post_padding_frames, n) as usize,
                cfg.min_segment_frames,
                gap,
                n,
            );
            pushed_segment(
                s.segments,
                s.segment_start as usize,
                segment_end(s.last_voice, cfg.post_padding_frames, n) as usize,
                cfg.min_segment_frames,
                gap,
            )
        } else {
            s.segments
        };
        if !(segs.len() == 0 && possible_voice_signal) {
            let r = protected_terminal(segs, n as usize, cfg.terminal_protection_frames);
            if segs.len() > 0 {
                let m = segs.len() - 1;
                assert(segs.last() == segs[m]);
                assert forall|k: int| 0 <= k < r.len() implies (#[trigger] r[k]).start_frame
                    < r[k].end_frame <= n by {
                    if k < m {
                        assert(r[k] == segs[k]);
                    } else {
                        assert(segs[m].start_frame < segs[m].end_frame <= n);
                    }
                }
                assert forall|k: int| 0 < k < r.len() implies r[k - 1].end_frame + gap < (
                #[trigger] r[k]).start_frame by {
                    assert(r[k].start_frame == segs[k].start_frame);
                    assert(r[k - 1] == segs[k - 1]);
                }
            }
        }
    }
}

/// `a * b`, saturating at `usize::MAX`.
pub open spec fn sat_mul(a: usize, b: usize) -> int {
    if a * b > usize::MAX {
        usize::MAX as int
    } else {
        a * b
    }
}

/// The samples a segment covers: from its first frame to its end frame (cut
/// at the end of the samples).
pub open spec fn segment_samples(samples: Seq<i16>, frame_len: usize, s: VoiceSegment) -> Seq<i16> {
    let start = sat_mul(s.start_frame, frame_len);
    let e = sat_mul(s.end_frame, frame_len);
    let end = if e < samples.len() {
        e
    } else {
        samples.len() as int
    };
    if start < end {
        samples.subrange(start, end)
    } else {
        Seq::empty()
    }
}

/// The samples of the segments, one after another.
pub open spec fn rendered(samples: Seq<i16>, frame_len: usize, segments: Seq<VoiceSegment>) -> Seq<i16>
    decreases segments.len(),
{
    if segments.len() == 0 {
        Seq::empty()
    } else {
        rendered(samples, frame_len, segments.drop_last()) + segment_samples(
            samples,
            frame_len,
            segments.last(),
        )
    }
}

fn saturating_mul_exec(a: usize, b: usize) -> (r: usize)
    ensures
        r == sat_mul(a, b),
{
    match a.checked_mul(b) {
        Some(x) => x,
        None => usize::MAX,
    }
}

pub fn render_voice_segments(samples: &Vec<i16>, frame_len: usize, segments: &Vec<VoiceSegment>) -> (r: Vec<i16>)
    ensures
        r@ == rendered(samples@, frame_len, segments@),
{
    let mut out: Vec<i16> = Vec::new();
    let mut k: usize = 0;
    while k < segments.len()
        invariant
            0 <= k <= segments.len(),
            out@ == rendered(samples@, frame_len, segments@.take(k as int)),
        decreases segments.len() - k,
    {
        assert(segments@.take(k + 1).drop_last() =~= segments@.take(k as int));
        let s = segments[k];
        let start = saturating_mul_exec(s.start_frame, frame_len);
        let e = saturating_mul_exec(s.end_frame, frame_len);
        let end = if e < samples.len() {
            e
        } else {
            samples.len()
        };
        let ghost before = out@;
        if start < end {
            let mut i = start;
            while i < end
                invariant
                    start <= i <= end,
                    end <= samples.len(),
                    out@ == before + samples@.subrange(start as int, i as int),
                decreases end - i,
            {
                out.push(samples[i]);
                assert(out@ =~= before + samples@.subrange(start as int, i + 1));
                i = i + 1;
            }
        } else {
            assert(out@ =~= before + Seq::<i16>::empty());
        }
        k = k + 1;
    }
    assert(segments@.take(segments.len() as int) =~= segments@);
    out
}

/// `x` as two little-endian bytes (its low 16 bits).
pub open spec fn le_u16(x: int) -> Seq<u8> {
    seq![(x % 256) as u8, ((x / 256) % 256) as u8]
}

/// `x` as four little-endian bytes (its low 32 bits).
pub open spec fn le_u32(x: int) -> Seq<u8> {
    seq![(x % 256) as u8, ((x / 256) % 256) as u8, ((x / 65536) % 256) as u8, ((x / 16777216) % 256) as u8]
}

/// The samples as 16-bit little-endian two's complement values, in order.
pub open spec fn pcm16_bytes(samples: Seq<i16>) -> Seq<u8>
    decreases samples.len(),
{
    if samples.len() == 0 {
        Seq::empty()
    } else {
        let x = samples.last() as int;
        pcm16_bytes(samples.drop_last()) + le_u16(if x < 0 { x + 65536 } else { x })
    }
}

/// The speaker mask of a WAVE file with `channels` channels: one bit per
/// channel, for at most 18 channels.
pub open spec fn channel_mask(channels: int) -> int {
    pow2((if channels > 18 { 18 } else { channels }) as nat) - 1
}

/// The sub-format identifier of integer PCM audio.
pub open spec fn pcm_subformat_guid() -> Seq<u8> {
    seq![0x01u8, 0x00, 0x00, 0x00, 0x00, 0x00, 0x10, 0x00, 0x80, 0x00, 0x00, 0xaa, 0x00, 0x38, 0x9b, 0x71]
}

/// Channel count, sample rate, bytes per second and bytes per frame.
pub open spec fn wave_format_fields(sample_rate: int, channels: int) -> Seq<u8> {
    le_u16(channels) + le_u32(sample_rate) + le_u32(sample_rate * 2 * channels) + le_u16(2 * channels)
}

/// The `fmt ` chunk after its name: the plain PCM form for one or two
/// channels, the extensible form for more.
pub open spec fn fmt_chunk(sample_rate: int, channels: int) -> Seq<u8> {
    if channels <= 2 {
        le_u32(16) + le_u16(1) + wave_format_fields(sample_rate, channels) + le_u16(16)
    } else {
        le_u32(40) + le_u16(0xfffe) + wave_format_fields(sample_rate, channels) + le_u16(16)
            + le_u16(22) + le_u16(16) + le_u32(channel_mask(channels)) + pcm_subformat_guid()
    }
}

/// The 16-bit integer PCM WAVE file that holds `samples`, interleaved over
/// `channels`, at `sample_rate`: the RIFF header with the file size, the
/// format chunk, and the data chunk with the samples.
pub open spec fn wav_file_bytes(samples: Seq<i16>, sample_rate: int, channels: int) -> Seq<u8> {
    let data = pcm16_bytes(samples);
    let fmt = fmt_chunk(sample_rate, channels);
    seq![0x52u8, 0x49, 0x46, 0x46] + le_u32((16 + fmt.len() + data.len()) as int) + seq![0x57u8, 0x41, 0x56, 0x45]
        + seq![0x66u8, 0x6d, 0x74, 0x20] + fmt + seq![0x64u8, 0x61, 0x74, 0x61] + le_u32(data.len() as int)
        + data
}

/// `hound`'s message when the samples do not fill whole frames.
pub open spec fn unfinished_sample_message() -> Seq<char> {
    "The number of samples written is not a multiple of the number of channels."@
}

/// `hound::WavWriter::new`, `write_sample` for each sample, then `finalize`,
/// over an in-memory buffer. Claimed of hound's source: writing to memory
/// cannot fail, so the only error is the one `finalize` reports when the
/// sample count is not a multiple of the channel count (with the message
/// above); otherwise the bytes are the WAVE file above, as `write_headers`,
/// `write_sample` and `update_header` lay it out. The `requires` keeps
/// out the inputs on which hound divides by zero or overflows its `u32` sizes.
#[verifier::external_body]
fn encode_wav_pcm16(samples: &Vec<i16>, sample_rate: u32, channels: u16) -> (r: Result<Vec<u8>, String>)
    requires
        channels > 0,
        sample_rate > 0,
        sample_rate * 2 * channels <= u32::MAX,
        2 * samples.len() + 60 <= u32::MAX,
    ensures
        match r {
            Ok(b) => samples@.len() % (channels as nat) == 0 && b@ == wav_file_bytes(samples@, sample_rate as int, channels as int),
            Err(e) => samples@.len() % (channels as nat) != 0 && e@ == unfinished_sample_message(),
        },
{
    let spec = hound::WavSpec { channels, sample_rate, bits_per_sample: 16, sample_format: hound::SampleFormat::Int };
    let mut wav = Vec::new();
    {
        let mut writer = hound::WavWriter::new(std::io::Cursor::new(&mut wav), spec).map_err(|e| e.to_string())?;
        for sample in samples {
            writer.write_sample(*sample).map_err(|e| e.to_string())?;
        }
        writer.finalize().map_err(|e| e.to_string())?;
    }
    Ok(wav)
}

/// The recording as a WAVE file to send to a transcription API.
pub fn samples_to_wav(samples: &Vec<i16>, sample_rate: u32, channels: u16) -> (r: Result<Vec<u8>, String>)
    requires
        channels > 0,
        sample_rate > 0,
        sample_rate * 2 * channels <= u32::MAX,
        2 * samples.len() + 60 <= u32::MAX,
    ensures
        match r {
            Ok(b) => samples@.len() % (channels as nat) == 0 && b@ == wav_file_bytes(samples@, sample_rate as int, channels as int),
            Err(e) => samples@.len() % (channels as nat) != 0 && e@ == unfinished_sample_message(),
        },
{
    encode_wav_pcm16(samples, sample_rate, channels)
}

// --- How a recording ends ------------------------------------------------------

/// What the recording thread is told to do.
#[derive(Debug, Clone, Copy, PartialEq, Eq, Structural)]
pub enum RecorderCommand {
    Finish,
    Cancel,
}

/// How waiting for a command ended: a command came, the time limit passed,
/// or nobody can send a command any more.
#[derive(Debug, Clone, Copy, PartialEq, Eq, Structural)]
pub enum RecorderWait {
    Received(RecorderCommand),
    TimedOut,
    Disconnected,
}

/// How long a recording may run, in seconds: the setting within 5..=600.
pub fn recording_limit_secs(max_recording_seconds: u64) -> (r: u64)
    ensures
        r == clamp(max_recording_seconds as int, 5, 600),
{
    if max_recording_seconds < 5 {
        5
    } else if max_recording_seconds > 600 {
        600
    } else {
        max_recording_seconds
    }
}

/// How many samples a recording keeps at most: the time limit's worth at
/// the rate and channel count of the recorded audio.
pub fn recording_max_samples(sample_rate: u32, channels: u16, max_recording_seconds: u64) -> (r: u64)
    ensures
        r == sample_rate * channels * clamp(max_recording_seconds as int, 5, 600),
{
    let secs = recording_limit_secs(max_recording_seconds);
    let rate: u64 = sample_rate as u64;
    let ch: u64 = channels as u64;
    assert(rate * ch <= 0xffff_ffff * 0xffff) by (nonlinear_arith)
        requires
            rate <= 0xffff_ffff,
            ch <= 0xffff,
    ;
    let per_sec: u64 = rate * ch;
    assert(per_sec * secs <= 0xffff_ffff * 0xffff * 600) by (nonlinear_arith)
        requires
            per_sec <= 0xffff_ffff * 0xffff,
            secs <= 600,
    ;
    per_sec * secs
}

/// The command a wait ends in: the time limit finishes the recording, and
/// a sender that went away cancels it.
pub fn command_after_wait(wait: RecorderWait) -> (r: RecorderCommand)
    ensures
        r == match wait {
            RecorderWait::Received(c) => c,
            RecorderWait::TimedOut => RecorderCommand::Finish,
            RecorderWait::Disconnected => RecorderCommand::Cancel,
        },
{
    match wait {
        RecorderWait::Received(c) => c,
        RecorderWait::TimedOut => RecorderCommand::Finish,
        RecorderWait::Disconnected => RecorderCommand::Cancel,
    }
}

pub open spec fn recording_cancelled_message() -> Seq<char> {
    "録音をキャンセルしました。"@
}

pub open spec fn nothing_recorded_message() -> Seq<char> {
    "音声が録音されていません。"@
}

/// Whether a stopped recording goes on to be encoded: a cancelled one fails,
/// and so does one without a single sample.
pub fn recording_stop_result(command: RecorderCommand, samples_len: usize) -> (r: Result<(), String>)
    ensures
        command == RecorderCommand::Cancel ==> (r matches Err(e) && e@ == recording_cancelled_message()),
        command == RecorderCommand::Finish && samples_len == 0 ==> (r matches Err(e) && e@
            == nothing_recorded_message()),
        command == RecorderCommand::Finish && samples_len > 0 ==> r is Ok,
{
    match command {
        RecorderCommand::Cancel => Err(owned("録音をキャンセルしました。")),
        RecorderCommand::Finish => if samples_len == 0 {
            Err(owned("音声が録音されていません。"))
        } else {
            Ok(())
        },
    }
}

} // verus!
