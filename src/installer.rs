//! Where the ffmpeg build of each platform comes from and where it goes.
use vstd::prelude::*;

verus! {

/// The operating systems the converter runs on.
#[derive(Debug, Clone, Copy, PartialEq, Eq, Structural)]
pub enum Platform {
    Windows,
    Linux,
    MacOs,
}

pub open spec fn ffmpeg_url_of(platform: Platform) -> Seq<char> {
    match platform {
        Platform::Windows => "https://github.com/BtbN/FFmpeg-Builds/releases/download/latest/ffmpeg-master-latest-win64-gpl.zip"@,
        Platform::Linux => "https://github.com/BtbN/FFmpeg-Builds/releases/download/latest/ffmpeg-master-latest-linux64-gpl.tar.xz"@,
        Platform::MacOs => "https://evermeet.cx/ffmpeg/getrelease/zip"@,
    }
}

/// The address of the ffmpeg build for a platform.
pub fn ffmpeg_url(platform: Platform) -> (r: &'static str)
    ensures
        r@ == ffmpeg_url_of(platform),
{
    match platform {
        Platform::Windows => "https://github.com/BtbN/FFmpeg-Builds/releases/download/latest/ffmpeg-master-latest-win64-gpl.zip",
        Platform::Linux => "https://github.com/BtbN/FFmpeg-Builds/releases/download/latest/ffmpeg-master-latest-linux64-gpl.tar.xz",
        Platform::MacOs => "https://evermeet.cx/ffmpeg/getrelease/zip",
    }
}

pub open spec fn ffmpeg_binary_of(platform: Platform) -> Seq<char> {
    match platform {
        Platform::Windows => "bin/ffmpeg.exe"@,
        _ => "bin/ffmpeg"@,
    }
}

/// The ffmpeg executable, relative to the application's data directory.
pub fn ffmpeg_binary(platform: Platform) -> (r: &'static str)
    ensures
        r@ == ffmpeg_binary_of(platform),
{
    match platform {
        Platform::Windows => "bin/ffmpeg.exe",
        _ => "bin/ffmpeg",
    }
}

pub open spec fn archive_name_of(platform: Platform) -> Seq<char> {
    match platform {
        Platform::Linux => "ffmpeg.tar.xz"@,
        _ => "ffmpeg.zip"@,
    }
}

/// The name under which the downloaded archive is kept.
pub fn archive_name(platform: Platform) -> (r: &'static str)
    ensures
        r@ == archive_name_of(platform),
{
    match platform {
        Platform::Linux => "ffmpeg.tar.xz",
        _ => "ffmpeg.zip",
    }
}

} // verus!
