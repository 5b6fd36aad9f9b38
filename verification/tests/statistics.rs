use jellypilot_iced::player_info::{pass_timing_index, statistics_rows, AudioSample, StatisticsSample, VideoSample};

fn s(text: &str) -> Option<String> {
    Some(text.to_owned())
}

fn video() -> VideoSample {
    VideoSample {
        codec: s("hevc"),
        codec_profile: s("Main 10"),
        hwdec: s("vaapi"),
        width: Some(3840),
        height: Some(2160),
        fps_text: s("23.976 fps"),
        primaries: s("bt.2020"),
        gamma: s("pq"),
        hw_pixel_format: s("p010"),
        pixel_format: s("yuv420p10"),
        dolby_vision_profile: Some(8),
        bitrate: Some(25_400_000),
    }
}

fn audio() -> AudioSample {
    AudioSample {
        language: s("eng"),
        codec: s("eac3"),
        channels: s("5.1"),
        bitrate: Some(640_000),
        ao: s("pipewire"),
        sample_rate_text: s("48.0 kHz"),
        volume_text: s("Volume 80"),
        muted: Some(true),
    }
}

fn sample() -> StatisticsSample {
    StatisticsSample {
        file_size_bytes: Some(3 << 30),
        container_format: s("mkv"),
        cache_total_bytes: None,
        cache_forward_bytes: Some(150 << 20),
        cache_seconds_text: s("12.5 s"),
        vo: s("gpu-next"),
        gpu_context: s("wayland"),
        decoder_dropped_frames: Some(3),
        output_dropped_frames: None,
        video: Some(video()),
        audio: Some(audio()),
    }
}

#[test]
fn statistics_rows_join_the_present_parts() {
    let rows = statistics_rows(&sample(), "software", "muted", "n/a");
    assert_eq!(rows.size.as_deref(), Some("3.0 GiB · mkv"));
    assert_eq!(rows.cache.as_deref(), Some("150.0 MiB · 12.5 s"));
    assert_eq!(rows.output.as_deref(), Some("gpu-next · wayland"));
    assert_eq!((rows.dropped_decoder.as_str(), rows.dropped_output.as_str()), ("3", "n/a"));
    assert_eq!(rows.codec.as_deref(), Some("hevc · Main 10 · vaapi"));
    assert_eq!(rows.format.as_deref(), Some("3840 × 2160 · 23.976 fps"));
    assert_eq!(rows.color.as_deref(), Some("bt.2020 · pq · p010 · Dolby Vision P8"));
    assert_eq!(rows.video_bitrate.as_deref(), Some("25.4 Mbps"));
    assert_eq!(rows.track.as_deref(), Some("eng · eac3 · 5.1 · 640 kbps"));
    assert_eq!(rows.audio_output.as_deref(), Some("pipewire · 48.0 kHz · Volume 80 · muted"));
}

#[test]
fn statistics_fallbacks_and_missing_streams() {
    let mut sample = sample();
    sample.cache_total_bytes = Some(2 << 20);
    sample.file_size_bytes = None;
    sample.container_format = None;
    let mut v = video();
    v.hwdec = s("no");
    v.hw_pixel_format = None;
    v.width = None;
    v.dolby_vision_profile = None;
    sample.video = Some(v);
    let mut a = audio();
    a.muted = Some(false);
    a.volume_text = None;
    sample.audio = Some(a);
    let rows = statistics_rows(&sample, "software", "muted", "n/a");
    assert_eq!(rows.size, None);
    assert_eq!(rows.cache.as_deref(), Some("2.0 MiB · 12.5 s"));
    assert_eq!(rows.codec.as_deref(), Some("hevc · Main 10 · software"));
    assert_eq!(rows.format.as_deref(), Some("23.976 fps"));
    assert_eq!(rows.color.as_deref(), Some("bt.2020 · pq · yuv420p10"));
    assert_eq!(rows.audio_output.as_deref(), Some("pipewire · 48.0 kHz"));

    sample.video = None;
    sample.audio = None;
    let rows = statistics_rows(&sample, "software", "muted", "n/a");
    assert_eq!((rows.codec, rows.format, rows.color, rows.video_bitrate), (None, None, None, None));
    assert_eq!((rows.track, rows.audio_output), (None, None));
}

#[test]
fn pass_timing_prefers_the_first_fresh_frame() {
    let types = |names: &[&str]| names.iter().map(|n| n.to_string()).collect::<Vec<_>>();
    assert_eq!(pass_timing_index(&types(&["redraw", "fresh", "fresh"])), Some(1));
    assert_eq!(pass_timing_index(&types(&["redraw", "other"])), Some(0));
    assert_eq!(pass_timing_index(&types(&[])), None);
}
