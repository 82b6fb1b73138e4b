//! Codec profiles of the output formats and the ffmpeg command line of a
//! conversion.
use vstd::prelude::*;
use vstd::string::StringExecFns;

use crate::text::text_eq;

verus! {

/// The video encoder family a conversion uses.
#[derive(Debug, Clone, Copy, PartialEq, Eq, Structural)]
pub enum Encoder {
    CPU,
    NVENC,
    AMF,
    QSV,
}

/// The codecs that suit an output format.
pub struct CodecProfile {
    pub video: &'static str,
    pub audio: &'static str,
    pub disable_video: bool,
    pub hwaccel_supported: bool,
}

pub struct ProfileView {
    pub video: Seq<char>,
    pub audio: Seq<char>,
    pub disable_video: bool,
    pub hwaccel_supported: bool,
}

impl View for CodecProfile {
    type V = ProfileView;

    open spec fn view(&self) -> ProfileView {
        ProfileView {
            video: self.video@,
            audio: self.audio@,
            disable_video: self.disable_video,
            hwaccel_supported: self.hwaccel_supported,
        }
    }
}

pub open spec fn profile(video: &str, audio: &str, disable_video: bool, hwaccel: bool) -> ProfileView {
    ProfileView { video: video@, audio: audio@, disable_video, hwaccel_supported: hwaccel }
}

/// The profile of each known format; any other format is treated as H.264
/// video with AAC audio.
pub open spec fn codec_profile(format: Seq<char>) -> ProfileView {
    if format == "webm"@ {
        profile("libvpx-vp9", "libopus", false, false)
    } else if format == "avi"@ {
        profile("mpeg4", "mp3", false, true)
    } else if format == "flv"@ {
        profile("flv", "mp3", false, false)
    } else if format == "wmv"@ {
        profile("msmpeg4", "wmav2", false, false)
    } else if format == "mp3"@ {
        profile("none", "libmp3lame", true, false)
    } else if format == "aac"@ {
        profile("none", "aac", true, false)
    } else if format == "flac"@ {
        profile("none", "flac", true, false)
    } else if format == "wav"@ {
        profile("none", "pcm_s16le", true, false)
    } else if format == "ogg"@ {
        profile("none", "libopus", true, false)
    } else {
        // mp4, mov, mkv and every format not listed
        profile("libx264", "aac", false, true)
    }
}

/// The codec profile of an output format.
pub fn get_codec_profile(format: &str) -> (r: CodecProfile)
    ensures
        r@ == codec_profile(format@),
{
    if text_eq(format, "webm") {
        CodecProfile {
            video: "libvpx-vp9",
            audio: "libopus",
            disable_video: false,
            hwaccel_supported: false,
        }
    } else if text_eq(format, "avi") {
        CodecProfile { video: "mpeg4", audio: "mp3", disable_video: false, hwaccel_supported: true }
    } else if text_eq(format, "flv") {
        CodecProfile { video: "flv", audio: "mp3", disable_video: false, hwaccel_supported: false }
    } else if text_eq(format, "wmv") {
        CodecProfile {
            video: "msmpeg4",
            audio: "wmav2",
            disable_video: false,
            hwaccel_supported: false,
        }
    } else if text_eq(format, "mp3") {
        CodecProfile {
            video: "none",
            audio: "libmp3lame",
            disable_video: true,
            hwaccel_supported: false,
        }
    } else if text_eq(format, "aac") {
        CodecProfile { video: "none", audio: "aac", disable_video: true, hwaccel_supported: false }
    } else if text_eq(format, "flac") {
        CodecProfile { video: "none", audio: "flac", disable_video: true, hwaccel_supported: false }
    } else if text_eq(format, "wav") {
        CodecProfile {
            video: "none",
            audio: "pcm_s16le",
            disable_video: true,
            hwaccel_supported: false,
        }
    } else if text_eq(format, "ogg") {
        CodecProfile {
            video: "none",
            audio: "libopus",
            disable_video: true,
            hwaccel_supported: false,
        }
    } else {
        CodecProfile { video: "libx264", audio: "aac", disable_video: false, hwaccel_supported: true }
    }
}

/// The video encoder named on the command line: the hardware H.264 encoder
/// of the family where the format supports hardware acceleration, the
/// profile's own codec otherwise.
pub open spec fn video_encoder_name(p: ProfileView, e: Encoder) -> Seq<char> {
    match e {
        Encoder::CPU => p.video,
        Encoder::NVENC => if p.hwaccel_supported { "h264_nvenc"@ } else { p.video },
        Encoder::AMF => if p.hwaccel_supported { "h264_amf"@ } else { p.video },
        Encoder::QSV => if p.hwaccel_supported { "h264_qsv"@ } else { p.video },
    }
}

pub open spec fn is_lossless(mode: Seq<char>) -> bool {
    mode == "lossless"@
}

/// The arguments that select the video stream's encoding.
pub open spec fn video_arguments(
    p: ProfileView,
    mode: Seq<char>,
    e: Encoder,
    params: Seq<Seq<char>>,
) -> Seq<Seq<char>> {
    if p.disable_video {
        seq!["-vn"@]
    } else {
        seq!["-c:v"@, video_encoder_name(p, e)] + (if is_lossless(mode) && e == Encoder::CPU {
            seq!["-crf"@, "0"@]
        } else {
            Seq::empty()
        }) + (if p.hwaccel_supported {
            params
        } else {
            Seq::empty()
        })
    }
}

/// The ffmpeg command line that converts `input` to `output` in `format`:
/// progress on standard output, errors only, then the video and audio
/// encoders.
pub open spec fn ffmpeg_arguments(
    input: Seq<char>,
    output: Seq<char>,
    format: Seq<char>,
    mode: Seq<char>,
    e: Encoder,
    params: Seq<Seq<char>>,
) -> Seq<Seq<char>> {
    let p = codec_profile(format);
    seq!["-progress"@, "pipe:1"@, "-nostats"@, "-loglevel"@, "error"@, "-i"@, input]
        + video_arguments(p, mode, e, params) + seq!["-c:a"@, p.audio, output]
}

pub open spec fn texts(v: Seq<String>) -> Seq<Seq<char>> {
    v.map_values(|s: String| s@)
}

pub open spec fn strs(v: Seq<&str>) -> Seq<Seq<char>> {
    v.map_values(|s: &str| s@)
}

fn push_text(v: &mut Vec<String>, s: &str)
    ensures
        texts(final(v)@) == texts(old(v)@).push(s@),
{
    v.push(String::from_str(s));
    proof {
        assert(texts(final(v)@) =~= texts(old(v)@).push(s@));
    }
}

/// Builds the ffmpeg arguments of a conversion; `encoder` and
/// `encoder_params` come from the encoder selection and matter only for
/// formats with video.
pub fn ffmpeg_args(
    input: &str,
    output_path: &str,
    output_format: &str,
    conversion_mode: &str,
    encoder: Encoder,
    encoder_params: &Vec<&'static str>,
) -> (r: Vec<String>)
    ensures
        texts(r@) == ffmpeg_arguments(
            input@,
            output_path@,
            output_format@,
            conversion_mode@,
            encoder,
            strs(encoder_params@),
        ),
{
    let p = get_codec_profile(output_format);
    let mut cmd: Vec<String> = Vec::new();
    push_text(&mut cmd, "-progress");
    push_text(&mut cmd, "pipe:1");
    push_text(&mut cmd, "-nostats");
    push_text(&mut cmd, "-loglevel");
    push_text(&mut cmd, "error");
    push_text(&mut cmd, "-i");
    push_text(&mut cmd, input);
    let ghost head = texts(cmd@);
    assert(head =~= seq!["-progress"@, "pipe:1"@, "-nostats"@, "-loglevel"@, "error"@, "-i"@, input@]);
    if !p.disable_video {
        let name = match encoder {
            Encoder::CPU => p.video,
            Encoder::NVENC => if p.hwaccel_supported { "h264_nvenc" } else { p.video },
            Encoder::AMF => if p.hwaccel_supported { "h264_amf" } else { p.video },
            Encoder::QSV => if p.hwaccel_supported { "h264_qsv" } else { p.video },
        };
        push_text(&mut cmd, "-c:v");
        push_text(&mut cmd, name);
        let ghost with_codec = texts(cmd@);
        if text_eq(conversion_mode, "lossless") && encoder == Encoder::CPU {
            push_text(&mut cmd, "-crf");
            push_text(&mut cmd, "0");
        }
        let ghost with_quality = texts(cmd@);
        assert(with_quality =~= with_codec + (if is_lossless(conversion_mode@) && encoder == Encoder::CPU {
            seq!["-crf"@, "0"@]
        } else {
            Seq::<Seq<char>>::empty()
        }));
        if p.hwaccel_supported {
            let mut i: usize = 0;
            while i < encoder_params.len()
                invariant
                    i <= encoder_params.len(),
                    texts(cmd@) == with_quality + strs(encoder_params@).take(i as int),
                decreases encoder_params.len() - i,
            {
                push_text(&mut cmd, encoder_params[i]);
                i = i + 1;
                proof {
                    assert(strs(encoder_params@).take(i as int) =~= strs(encoder_params@).take(
                        i - 1,
                    ).push(encoder_params@[i - 1]@));
                    assert(with_quality + strs(encoder_params@).take(i as int) =~= (with_quality
                        + strs(encoder_params@).take(i - 1)).push(encoder_params@[i - 1]@));
                }
            }
            assert(strs(encoder_params@).take(i as int) =~= strs(encoder_params@));
        }
        assert(texts(cmd@) =~= head + video_arguments(
            p@,
            conversion_mode@,
            encoder,
            strs(encoder_params@),
        ));
    } else {
        push_text(&mut cmd, "-vn");
        assert(texts(cmd@) =~= head + video_arguments(
            p@,
            conversion_mode@,
            encoder,
            strs(encoder_params@),
        ));
    }
    let ghost with_video = texts(cmd@);
    push_text(&mut cmd, "-c:a");
    push_text(&mut cmd, p.audio);
    push_text(&mut cmd, output_path);
    assert(texts(cmd@) =~= with_video + seq!["-c:a"@, p.audio@, output_path@]);
    cmd
}

} // verus!
