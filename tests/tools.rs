use media_pipeline::conversion::{advance_download, failure_detail, out_time_field, percent_of};
use media_pipeline::ffmpeg::{ffmpeg_args, get_codec_profile, Encoder};
use media_pipeline::gpu::{encoder_for, vendor_from_id, wants_hardware, GpuVendor};
use media_pipeline::installer::{archive_name, ffmpeg_binary, ffmpeg_url, Platform};
use media_pipeline::settings::Settings;
use media_pipeline::stopwatch::Stopwatch;
use media_pipeline::text::text_eq;

fn strings(v: &[&str]) -> Vec<String> {
    v.iter().map(|s| s.to_string()).collect()
}

#[test]
fn codec_profiles_of_formats() {
    let p = get_codec_profile("webm");
    assert_eq!((p.video, p.audio, p.disable_video, p.hwaccel_supported), ("libvpx-vp9", "libopus", false, false));
    let p = get_codec_profile("avi");
    assert_eq!((p.video, p.audio, p.disable_video, p.hwaccel_supported), ("mpeg4", "mp3", false, true));
    let p = get_codec_profile("flv");
    assert_eq!((p.video, p.audio, p.disable_video, p.hwaccel_supported), ("flv", "mp3", false, false));
    let p = get_codec_profile("wmv");
    assert_eq!((p.video, p.audio, p.disable_video, p.hwaccel_supported), ("msmpeg4", "wmav2", false, false));
    let p = get_codec_profile("mp3");
    assert_eq!((p.video, p.audio, p.disable_video, p.hwaccel_supported), ("none", "libmp3lame", true, false));
    let p = get_codec_profile("aac");
    assert_eq!((p.video, p.audio, p.disable_video), ("none", "aac", true));
    let p = get_codec_profile("flac");
    assert_eq!((p.audio, p.disable_video), ("flac", true));
    let p = get_codec_profile("wav");
    assert_eq!((p.audio, p.disable_video), ("pcm_s16le", true));
    let p = get_codec_profile("ogg");
    assert_eq!((p.audio, p.disable_video), ("libopus", true));
    for f in ["mp4", "mov", "mkv", "xyz", ""] {
        let p = get_codec_profile(f);
        assert_eq!((p.video, p.audio, p.disable_video, p.hwaccel_supported), ("libx264", "aac", false, true));
    }
}

#[test]
fn ffmpeg_args_for_cpu_video() {
    let args = ffmpeg_args("/in/a.mov", "/in/a.mp4", "mp4", "normal", Encoder::CPU, &vec![]);
    assert_eq!(
        args,
        strings(&[
            "-progress", "pipe:1", "-nostats", "-loglevel", "error", "-i", "/in/a.mov", "-c:v",
            "libx264", "-c:a", "aac", "/in/a.mp4"
        ])
    );
}

#[test]
fn ffmpeg_args_for_lossless_cpu_video() {
    let args = ffmpeg_args("a.mov", "a.mkv", "mkv", "lossless", Encoder::CPU, &vec![]);
    assert_eq!(
        args,
        strings(&[
            "-progress", "pipe:1", "-nostats", "-loglevel", "error", "-i", "a.mov", "-c:v",
            "libx264", "-crf", "0", "-c:a", "aac", "a.mkv"
        ])
    );
}

#[test]
fn ffmpeg_args_for_hardware_video() {
    let args = ffmpeg_args("a.mov", "a.mp4", "mp4", "hwaccel", Encoder::NVENC, &vec!["-preset", "llhq"]);
    assert_eq!(
        args,
        strings(&[
            "-progress", "pipe:1", "-nostats", "-loglevel", "error", "-i", "a.mov", "-c:v",
            "h264_nvenc", "-preset", "llhq", "-c:a", "aac", "a.mp4"
        ])
    );
    let args = ffmpeg_args("a.mov", "a.webm", "webm", "hwaccel", Encoder::AMF, &vec!["-quality", "quality"]);
    assert_eq!(
        args,
        strings(&[
            "-progress", "pipe:1", "-nostats", "-loglevel", "error", "-i", "a.mov", "-c:v",
            "libvpx-vp9", "-c:a", "libopus", "a.webm"
        ])
    );
}

#[test]
fn ffmpeg_args_for_audio() {
    let args = ffmpeg_args("a.mp4", "a.mp3", "mp3", "normal", Encoder::CPU, &vec![]);
    assert_eq!(
        args,
        strings(&[
            "-progress", "pipe:1", "-nostats", "-loglevel", "error", "-i", "a.mp4", "-vn", "-c:a",
            "libmp3lame", "a.mp3"
        ])
    );
}

#[test]
fn encoder_choice_by_mode_and_vendor() {
    assert_eq!(encoder_for("hwaccel", GpuVendor::NVIDIA), (Encoder::NVENC, vec!["-preset", "llhq"]));
    assert_eq!(encoder_for("hwaccel", GpuVendor::AMD), (Encoder::AMF, vec!["-quality", "quality"]));
    assert_eq!(encoder_for("hwaccel", GpuVendor::INTEL), (Encoder::QSV, vec!["-global_quality", "51"]));
    assert_eq!(encoder_for("hwaccel", GpuVendor::UNKNOWN), (Encoder::CPU, vec![]));
    assert_eq!(encoder_for("lossless", GpuVendor::NVIDIA), (Encoder::CPU, vec![]));
    assert_eq!(encoder_for("normal", GpuVendor::AMD), (Encoder::CPU, vec![]));
    assert!(wants_hardware("hwaccel"));
    assert!(!wants_hardware("normal"));
}

#[test]
fn vendors_by_pci_id() {
    assert_eq!(vendor_from_id(0x1002), GpuVendor::AMD);
    assert_eq!(vendor_from_id(0x10DE), GpuVendor::NVIDIA);
    assert_eq!(vendor_from_id(0x8086), GpuVendor::INTEL);
    assert_eq!(vendor_from_id(0x1234), GpuVendor::UNKNOWN);
}

#[test]
fn default_settings() {
    let s = Settings::default();
    assert_eq!(s.conversion_mode, "normal");
    assert!(s.open_when_finished);
}

#[test]
fn stopwatch_measures_from_start() {
    let mut w = Stopwatch::new();
    assert_eq!(w.elapsed(), 0);
    w.start();
    let a = w.elapsed();
    let b = w.elapsed();
    assert!(b >= a);
    w.start();
    assert!(w.elapsed() >= b);
    w.reset();
    assert_eq!(w.elapsed(), 0);
}

#[test]
fn ffmpeg_locations_by_platform() {
    assert_eq!(
        ffmpeg_url(Platform::Windows),
        "https://github.com/BtbN/FFmpeg-Builds/releases/download/latest/ffmpeg-master-latest-win64-gpl.zip"
    );
    assert_eq!(
        ffmpeg_url(Platform::Linux),
        "https://github.com/BtbN/FFmpeg-Builds/releases/download/latest/ffmpeg-master-latest-linux64-gpl.tar.xz"
    );
    assert_eq!(ffmpeg_url(Platform::MacOs), "https://evermeet.cx/ffmpeg/getrelease/zip");
    assert_eq!(ffmpeg_binary(Platform::Windows), "bin/ffmpeg.exe");
    assert_eq!(ffmpeg_binary(Platform::Linux), "bin/ffmpeg");
    assert_eq!(archive_name(Platform::Linux), "ffmpeg.tar.xz");
    assert_eq!(archive_name(Platform::MacOs), "ffmpeg.zip");
}

#[test]
fn progress_lines() {
    assert_eq!(out_time_field("out_time=00:00:01.500000"), Some("00:00:01.500000".to_string()));
    assert_eq!(out_time_field("out_time="), Some(String::new()));
    assert_eq!(out_time_field("out_time_ms=1500000"), None);
    assert_eq!(out_time_field("out_time=a=b"), None);
    assert_eq!(out_time_field("frame=10"), None);
    assert_eq!(out_time_field("out"), None);
}

#[test]
fn failure_details() {
    let advice = "Your GPU does not support hardware acceleration for this encoder. Please try to change the encoder or use CPU (Normal) encoding.";
    assert_eq!(failure_detail("line one\n[vost#0] Encoder not found\n".to_string()), advice);
    assert_eq!(failure_detail("Invalid data found".to_string()), "Invalid data found");
    assert_eq!(failure_detail(String::new()), "");
}

#[test]
fn download_progress() {
    assert_eq!(advance_download(10, 5, 100), 15);
    assert_eq!(advance_download(98, 5, 100), 100);
    assert_eq!(advance_download(u64::MAX, 5, u64::MAX), u64::MAX);
    assert_eq!(percent_of(50, 200), 25);
    assert_eq!(percent_of(199, 200), 99);
    assert_eq!(percent_of(300, 200), 100);
    assert_eq!(percent_of(5, 0), 0);
}

#[test]
fn text_equality() {
    assert!(text_eq("mp4", "mp4"));
    assert!(!text_eq("mp4", "mp3"));
    assert!(!text_eq("mp4", "mp4 "));
    assert!(text_eq("", ""));
}
