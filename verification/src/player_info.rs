//! Playback statistics text.

use vstd::prelude::*;

use crate::format::{binary_size, binary_size_text, bitrate_label, bitrate_text, decimal, push_decimal};
use crate::text::{chars_of, push_str_chars, str_is, string_of};

verus! {

/// The nonempty parts joined by `" · "`.
pub open spec fn joined(parts: Seq<Option<Seq<char>>>) -> Seq<char>
    decreases parts.len(),
{
    if parts.len() == 0 {
        Seq::<char>::empty()
    } else {
        let rest = joined(parts.drop_last());
        match parts.last() {
            Some(p) => if p.len() == 0 {
                rest
            } else if rest.len() == 0 {
                p
            } else {
                rest + " · "@ + p
            },
            None => rest,
        }
    }
}

pub open spec fn option_views(parts: Seq<Option<String>>) -> Seq<Option<Seq<char>>> {
    Seq::new(
        parts.len(),
        |i: int|
            match parts[i] {
                Some(s) => Some(s@),
                None => None,
            },
    )
}

/// The present, nonempty parts joined by `" · "`, or `None` if that is empty.
pub fn join(parts: Vec<Option<String>>) -> (out: Option<String>)
    ensures
        joined(option_views(parts@)).len() == 0 ==> out is None,
        joined(option_views(parts@)).len() > 0 ==> (out matches Some(s) && s@ == joined(
            option_views(parts@),
        )),
{
    let ghost views = option_views(parts@);
    let mut result = String::new();
    let mut has_any = false;
    let mut i: usize = 0;
    assert(views.take(0) =~= Seq::<Option<Seq<char>>>::empty());
    while i < parts.len()
        invariant
            i <= parts.len(),
            views == option_views(parts@),
            result@ == joined(views.take(i as int)),
            has_any == (result@.len() > 0),
        decreases parts.len() - i,
    {
        assert(views.take(i as int + 1).drop_last() =~= views.take(i as int));
        assert(views.take(i as int + 1).last() == views[i as int]);
        match &parts[i] {
            Some(part) => {
                let chars = chars_of(part.as_str());
                if chars.len() > 0 {
                    if has_any {
                        push_str_chars(&mut result, " · ");
                    }
                    push_str_chars(&mut result, part.as_str());
                    has_any = true;
                    assert(result@ =~= joined(views.take(i as int + 1)));
                }
            },
            None => {},
        }
        i += 1;
    }
    assert(views.take(parts.len() as int) =~= views);
    if !has_any {
        None
    } else {
        Some(result)
    }
}

/// A byte count: GiB with one decimal from one GiB up, MiB below.
pub fn bytes(value: u64) -> (out: String)
    ensures
        out@ == binary_size_text(value as nat),
{
    binary_size(value)
}

/// A bit rate: Mbps with one decimal from one Mbps up, whole kbps below.
pub fn bitrate(value: u64) -> (out: String)
    ensures
        out@ == bitrate_text(value as nat),
{
    bitrate_label(value)
}


/// The statistics row for its parts: their join, or nothing when empty.
pub open spec fn joined_row(parts: Seq<Option<Seq<char>>>) -> Option<Seq<char>> {
    let j = joined(parts);
    if j.len() == 0 {
        None
    } else {
        Some(j)
    }
}

pub open spec fn opt_view(o: Option<String>) -> Option<Seq<char>> {
    match o {
        Some(s) => Some(s@),
        None => None,
    }
}

pub open spec fn bytes_part(o: Option<u64>) -> Option<Seq<char>> {
    match o {
        Some(v) => Some(binary_size_text(v as nat)),
        None => None,
    }
}

pub open spec fn bitrate_part(o: Option<u64>) -> Option<Seq<char>> {
    match o {
        Some(v) => Some(bitrate_text(v as nat)),
        None => None,
    }
}

/// The video stream of a statistics sample. Values the player reports as
/// fractions (the frame rate) arrive already formatted for display.
#[derive(Clone, Debug)]
pub struct VideoSample {
    pub codec: Option<String>,
    pub codec_profile: Option<String>,
    pub hwdec: Option<String>,
    pub width: Option<u32>,
    pub height: Option<u32>,
    pub fps_text: Option<String>,
    pub primaries: Option<String>,
    pub gamma: Option<String>,
    pub hw_pixel_format: Option<String>,
    pub pixel_format: Option<String>,
    pub dolby_vision_profile: Option<u32>,
    pub bitrate: Option<u64>,
}

/// The audio stream of a statistics sample; the sample rate and the volume
/// arrive already formatted for display.
#[derive(Clone, Debug)]
pub struct AudioSample {
    pub language: Option<String>,
    pub codec: Option<String>,
    pub channels: Option<String>,
    pub bitrate: Option<u64>,
    pub ao: Option<String>,
    pub sample_rate_text: Option<String>,
    pub volume_text: Option<String>,
    pub muted: Option<bool>,
}

/// One sample of the player's statistics; the cached duration arrives
/// already formatted for display.
#[derive(Clone, Debug)]
pub struct StatisticsSample {
    pub file_size_bytes: Option<u64>,
    pub container_format: Option<String>,
    pub cache_total_bytes: Option<u64>,
    pub cache_forward_bytes: Option<u64>,
    pub cache_seconds_text: Option<String>,
    pub vo: Option<String>,
    pub gpu_context: Option<String>,
    pub decoder_dropped_frames: Option<u64>,
    pub output_dropped_frames: Option<u64>,
    pub video: Option<VideoSample>,
    pub audio: Option<AudioSample>,
}

/// The text of the statistics rows that the sample decides.
#[derive(Clone, Debug)]
pub struct StatisticsRows {
    pub size: Option<String>,
    pub cache: Option<String>,
    pub output: Option<String>,
    /// The two values of the dropped-frames row: decoder, then output.
    pub dropped_decoder: String,
    pub dropped_output: String,
    pub codec: Option<String>,
    pub format: Option<String>,
    pub color: Option<String>,
    pub video_bitrate: Option<String>,
    pub track: Option<String>,
    pub audio_output: Option<String>,
}

/// A frame count, or the text for an unavailable value.
pub open spec fn count_or(count: Option<u64>, unavailable_text: Seq<char>) -> Seq<char> {
    match count {
        Some(n) => decimal(n as nat),
        None => unavailable_text,
    }
}

fn count_text(count: Option<u64>, unavailable_text: &str) -> (out: String)
    ensures
        out@ == count_or(count, unavailable_text@),
{
    let mut text = String::new();
    match count {
        Some(n) => push_decimal(&mut text, n as u128),
        None => push_str_chars(&mut text, unavailable_text),
    }
    assert(text@ =~= count_or(count, unavailable_text@));
    text
}

pub open spec fn decoder_part(hwdec: Option<String>, software_text: Seq<char>) -> Option<Seq<char>> {
    match hwdec {
        Some(d) => if d@ == "no"@ {
            Some(software_text)
        } else {
            Some(d@)
        },
        None => None,
    }
}

pub open spec fn dimensions_part(width: Option<u32>, height: Option<u32>) -> Option<Seq<char>> {
    match (width, height) {
        (Some(w), Some(h)) => Some(decimal(w as nat) + " × "@ + decimal(h as nat)),
        _ => None,
    }
}

pub open spec fn dolby_vision_part(profile: Option<u32>) -> Option<Seq<char>> {
    match profile {
        Some(p) => Some("Dolby Vision P"@ + decimal(p as nat)),
        None => None,
    }
}

pub open spec fn muted_part(muted: Option<bool>, muted_text: Seq<char>) -> Option<Seq<char>> {
    if muted == Some(true) {
        Some(muted_text)
    } else {
        None
    }
}

pub open spec fn video_row(
    video: Option<VideoSample>,
    parts: spec_fn(VideoSample) -> Seq<Option<Seq<char>>>,
) -> Option<Seq<char>> {
    match video {
        Some(v) => joined_row(parts(v)),
        None => None,
    }
}

pub open spec fn audio_row(
    audio: Option<AudioSample>,
    parts: spec_fn(AudioSample) -> Seq<Option<Seq<char>>>,
) -> Option<Seq<char>> {
    match audio {
        Some(a) => joined_row(parts(a)),
        None => None,
    }
}

pub open spec fn codec_parts(software_text: Seq<char>) -> spec_fn(VideoSample) -> Seq<Option<Seq<char>>> {
    |v: VideoSample| seq![opt_view(v.codec), opt_view(v.codec_profile), decoder_part(v.hwdec, software_text)]
}

pub open spec fn format_parts() -> spec_fn(VideoSample) -> Seq<Option<Seq<char>>> {
    |v: VideoSample| seq![dimensions_part(v.width, v.height), opt_view(v.fps_text)]
}

pub open spec fn color_parts() -> spec_fn(VideoSample) -> Seq<Option<Seq<char>>> {
    |v: VideoSample|
        seq![
            opt_view(v.primaries),
            opt_view(v.gamma),
            if v.hw_pixel_format is Some {
                opt_view(v.hw_pixel_format)
            } else {
                opt_view(v.pixel_format)
            },
            dolby_vision_part(v.dolby_vision_profile),
        ]
}

pub open spec fn track_parts() -> spec_fn(AudioSample) -> Seq<Option<Seq<char>>> {
    |a: AudioSample|
        seq![opt_view(a.language), opt_view(a.codec), opt_view(a.channels), bitrate_part(a.bitrate)]
}

pub open spec fn audio_output_parts(muted_text: Seq<char>) -> spec_fn(AudioSample) -> Seq<Option<Seq<char>>> {
    |a: AudioSample|
        seq![
            opt_view(a.ao),
            opt_view(a.sample_rate_text),
            opt_view(a.volume_text),
            muted_part(a.muted, muted_text),
        ]
}

fn copy_text(o: &Option<String>) -> (out: Option<String>)
    ensures
        opt_view(out) == opt_view(*o),
{
    match o {
        Some(s) => Some(string_of(&chars_of(s.as_str()))),
        None => None,
    }
}

fn row_of(parts: Vec<Option<String>>, Ghost(views): Ghost<Seq<Option<Seq<char>>>>) -> (out: Option<String>)
    requires
        option_views(parts@) == views,
    ensures
        opt_view(out) == joined_row(views),
{
    join(parts)
}

fn bytes_text(o: Option<u64>) -> (out: Option<String>)
    ensures
        opt_view(out) == bytes_part(o),
{
    match o {
        Some(v) => Some(bytes(v)),
        None => None,
    }
}

fn bitrate_part_text(o: Option<u64>) -> (out: Option<String>)
    ensures
        opt_view(out) == bitrate_part(o),
{
    match o {
        Some(v) => Some(bitrate(v)),
        None => None,
    }
}

fn video_rows(video: &VideoSample, software_text: &str) -> (out: (Option<String>, Option<String>, Option<String>))
    ensures
        opt_view(out.0) == joined_row(codec_parts(software_text@)(*video)),
        opt_view(out.1) == joined_row(format_parts()(*video)),
        opt_view(out.2) == joined_row(color_parts()(*video)),
{
    let decoder = match &video.hwdec {
        Some(d) => if str_is(d.as_str(), "no") {
            Some(string_of(&chars_of(software_text)))
        } else {
            Some(string_of(&chars_of(d.as_str())))
        },
        None => None,
    };
    let ghost codec_views = codec_parts(software_text@)(*video);
    let codec_values = vec![copy_text(&video.codec), copy_text(&video.codec_profile), decoder];
    assert(option_views(codec_values@) =~= codec_views);
    let codec = row_of(codec_values, Ghost(codec_views));

    let dimensions = match (video.width, video.height) {
        (Some(w), Some(h)) => {
            let mut text = String::new();
            push_decimal(&mut text, w as u128);
            push_str_chars(&mut text, " × ");
            push_decimal(&mut text, h as u128);
            assert(text@ =~= decimal(w as nat) + " × "@ + decimal(h as nat));
            Some(text)
        },
        _ => None,
    };
    let ghost format_views = format_parts()(*video);
    let format_values = vec![dimensions, copy_text(&video.fps_text)];
    assert(option_views(format_values@) =~= format_views);
    let format = row_of(format_values, Ghost(format_views));

    let pixel_format = if video.hw_pixel_format.is_some() {
        copy_text(&video.hw_pixel_format)
    } else {
        copy_text(&video.pixel_format)
    };
    let dolby_vision = match video.dolby_vision_profile {
        Some(p) => {
            let mut text = String::new();
            push_str_chars(&mut text, "Dolby Vision P");
            push_decimal(&mut text, p as u128);
            assert(text@ =~= "Dolby Vision P"@ + decimal(p as nat));
            Some(text)
        },
        None => None,
    };
    let ghost color_views = color_parts()(*video);
    let color_values = vec![copy_text(&video.primaries), copy_text(&video.gamma), pixel_format, dolby_vision];
    assert(option_views(color_values@) =~= color_views);
    let color = row_of(color_values, Ghost(color_views));
    (codec, format, color)
}

fn audio_rows(audio: &AudioSample, muted_text: &str) -> (out: (Option<String>, Option<String>))
    ensures
        opt_view(out.0) == joined_row(track_parts()(*audio)),
        opt_view(out.1) == joined_row(audio_output_parts(muted_text@)(*audio)),
{
    let ghost track_views = track_parts()(*audio);
    let track_values = vec![
        copy_text(&audio.language),
        copy_text(&audio.codec),
        copy_text(&audio.channels),
        bitrate_part_text(audio.bitrate),
    ];
    assert(option_views(track_values@) =~= track_views);
    let track = row_of(track_values, Ghost(track_views));

    let muted = if audio.muted == Some(true) {
        Some(string_of(&chars_of(muted_text)))
    } else {
        None
    };
    let ghost output_views = audio_output_parts(muted_text@)(*audio);
    let output_values = vec![
        copy_text(&audio.ao),
        copy_text(&audio.sample_rate_text),
        copy_text(&audio.volume_text),
        muted,
    ];
    assert(option_views(output_values@) =~= output_views);
    let output = row_of(output_values, Ghost(output_views));
    (track, output)
}

/// The statistics rows of a sample. Each row joins its present parts with
/// `" · "`: size and container; cached bytes (total, else forward) and
/// cached duration; video and GPU output; codec, profile and decoder (`no`
/// reads as the software-decoding text); dimensions and frame rate;
/// primaries, transfer, pixel format (hardware, else software) and Dolby
/// Vision profile; the video bit rate; the audio track's language, codec,
/// channels and bit rate; and the audio output, sample rate, volume and the
/// muted text when muted. The stream rows are empty without their stream.
/// The dropped-frames row shows the decoder's and the output's counts, each
/// replaced by the unavailable text when the player does not report it.
pub fn statistics_rows(
    sample: &StatisticsSample,
    software_text: &str,
    muted_text: &str,
    unavailable_text: &str,
) -> (out: StatisticsRows)
    ensures
        out.dropped_decoder@ == count_or(sample.decoder_dropped_frames, unavailable_text@),
        out.dropped_output@ == count_or(sample.output_dropped_frames, unavailable_text@),
        opt_view(out.size) == joined_row(
            seq![bytes_part(sample.file_size_bytes), opt_view(sample.container_format)],
        ),
        opt_view(out.cache) == joined_row(
            seq![
                bytes_part(
                    if sample.cache_total_bytes is Some {
                        sample.cache_total_bytes
                    } else {
                        sample.cache_forward_bytes
                    },
                ),
                opt_view(sample.cache_seconds_text),
            ],
        ),
        opt_view(out.output) == joined_row(seq![opt_view(sample.vo), opt_view(sample.gpu_context)]),
        opt_view(out.codec) == video_row(sample.video, codec_parts(software_text@)),
        opt_view(out.format) == video_row(sample.video, format_parts()),
        opt_view(out.color) == video_row(sample.video, color_parts()),
        opt_view(out.video_bitrate) == match sample.video {
            Some(v) => bitrate_part(v.bitrate),
            None => None,
        },
        opt_view(out.track) == audio_row(sample.audio, track_parts()),
        opt_view(out.audio_output) == audio_row(sample.audio, audio_output_parts(muted_text@)),
{
    let ghost size_views = seq![bytes_part(sample.file_size_bytes), opt_view(sample.container_format)];
    let size_values = vec![bytes_text(sample.file_size_bytes), copy_text(&sample.container_format)];
    assert(option_views(size_values@) =~= size_views);
    let size = row_of(size_values, Ghost(size_views));

    let cached = if sample.cache_total_bytes.is_some() {
        sample.cache_total_bytes
    } else {
        sample.cache_forward_bytes
    };
    let ghost cache_views = seq![bytes_part(cached), opt_view(sample.cache_seconds_text)];
    let cache_values = vec![bytes_text(cached), copy_text(&sample.cache_seconds_text)];
    assert(option_views(cache_values@) =~= cache_views);
    let cache = row_of(cache_values, Ghost(cache_views));

    let ghost output_views = seq![opt_view(sample.vo), opt_view(sample.gpu_context)];
    let output_values = vec![copy_text(&sample.vo), copy_text(&sample.gpu_context)];
    assert(option_views(output_values@) =~= output_views);
    let output = row_of(output_values, Ghost(output_views));

    let (codec, format, color, video_bitrate) = match &sample.video {
        Some(video) => {
            let (codec, format, color) = video_rows(video, software_text);
            (codec, format, color, bitrate_part_text(video.bitrate))
        },
        None => (None, None, None, None),
    };
    let (track, audio_output) = match &sample.audio {
        Some(audio) => audio_rows(audio, muted_text),
        None => (None, None),
    };
    let dropped_decoder = count_text(sample.decoder_dropped_frames, unavailable_text);
    let dropped_output = count_text(sample.output_dropped_frames, unavailable_text);
    StatisticsRows {
        size,
        cache,
        output,
        dropped_decoder,
        dropped_output,
        codec,
        format,
        color,
        video_bitrate,
        track,
        audio_output,
    }
}

/// The render pass timing to show: the first `fresh` frame's, else the
/// first one's.
pub fn pass_timing_index(frame_types: &Vec<String>) -> (out: Option<usize>)
    ensures
        frame_types@.len() == 0 ==> out is None,
        (exists|i: int| 0 <= i < frame_types@.len() && frame_types@[i]@ == "fresh"@) ==> (out matches Some(
            i,
        ) && i < frame_types@.len() && frame_types@[i as int]@ == "fresh"@ && forall|j: int|
            0 <= j < i ==> frame_types@[j]@ != "fresh"@),
        frame_types@.len() > 0 && !(exists|i: int|
            0 <= i < frame_types@.len() && frame_types@[i]@ == "fresh"@) ==> out == Some(0usize),
{
    let mut i: usize = 0;
    while i < frame_types.len()
        invariant
            i <= frame_types.len(),
            forall|j: int| 0 <= j < i ==> frame_types@[j]@ != "fresh"@,
        decreases frame_types.len() - i,
    {
        if str_is(frame_types[i].as_str(), "fresh") {
            return Some(i);
        }
        i += 1;
    }
    if frame_types.len() > 0 {
        Some(0)
    } else {
        None
    }
}

} // verus!
