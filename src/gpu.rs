//! Choice of the video encoder from the conversion mode and the GPU vendor.
use vstd::prelude::*;

use crate::ffmpeg::{strs, Encoder};
use crate::text::text_eq;

verus! {

/// The vendor of the graphics adapter, as told by its PCI vendor id.
#[derive(Debug, Clone, Copy, PartialEq, Eq, Structural)]
pub enum GpuVendor {
    AMD,
    NVIDIA,
    INTEL,
    UNKNOWN,
}

pub open spec fn vendor_of(id: u32) -> GpuVendor {
    if id == 0x1002 {
        GpuVendor::AMD
    } else if id == 0x10DE {
        GpuVendor::NVIDIA
    } else if id == 0x8086 {
        GpuVendor::INTEL
    } else {
        GpuVendor::UNKNOWN
    }
}

/// The vendor of a PCI vendor id: 0x1002 AMD, 0x10DE NVIDIA, 0x8086 Intel.
pub fn vendor_from_id(id: u32) -> (r: GpuVendor)
    ensures
        r == vendor_of(id),
{
    if id == 0x1002 {
        GpuVendor::AMD
    } else if id == 0x10DE {
        GpuVendor::NVIDIA
    } else if id == 0x8086 {
        GpuVendor::INTEL
    } else {
        GpuVendor::UNKNOWN
    }
}

/// Whether a conversion mode asks for hardware acceleration, and so for the
/// GPU vendor to be probed.
pub fn wants_hardware(conversion_mode: &str) -> (r: bool)
    ensures
        r == (conversion_mode@ == "hwaccel"@),
{
    text_eq(conversion_mode, "hwaccel")
}

/// The encoder of a mode and a vendor: the vendor's hardware encoder in
/// hardware-accelerated mode where the vendor has one, the CPU otherwise.
pub open spec fn encoder_choice(mode: Seq<char>, vendor: GpuVendor) -> Encoder {
    if mode == "hwaccel"@ {
        match vendor {
            GpuVendor::AMD => Encoder::AMF,
            GpuVendor::NVIDIA => Encoder::NVENC,
            GpuVendor::INTEL => Encoder::QSV,
            GpuVendor::UNKNOWN => Encoder::CPU,
        }
    } else {
        Encoder::CPU
    }
}

/// The extra encoder options that go with the choice: AMF favours quality,
/// NVENC uses its low-latency high-quality preset, QSV its best quality.
pub open spec fn encoder_options(mode: Seq<char>, vendor: GpuVendor) -> Seq<Seq<char>> {
    if mode == "hwaccel"@ {
        match vendor {
            GpuVendor::AMD => seq!["-quality"@, "quality"@],
            GpuVendor::NVIDIA => seq!["-preset"@, "llhq"@],
            GpuVendor::INTEL => seq!["-global_quality"@, "51"@],
            GpuVendor::UNKNOWN => Seq::empty(),
        }
    } else {
        Seq::empty()
    }
}

/// Selects the encoder and its options for a conversion mode and the GPU
/// vendor (which matters only in hardware-accelerated mode).
pub fn encoder_for(conversion_mode: &str, vendor: GpuVendor) -> (r: (Encoder, Vec<&'static str>))
    ensures
        r.0 == encoder_choice(conversion_mode@, vendor),
        strs(r.1@) == encoder_options(conversion_mode@, vendor),
{
    let mut options: Vec<&'static str> = Vec::new();
    if !wants_hardware(conversion_mode) {
        proof {
            assert(strs(options@) =~= Seq::<Seq<char>>::empty());
        }
        return (Encoder::CPU, options);
    }
    let encoder = match vendor {
        GpuVendor::AMD => {
            options.push("-quality");
            options.push("quality");
            Encoder::AMF
        },
        GpuVendor::NVIDIA => {
            options.push("-preset");
            options.push("llhq");
            Encoder::NVENC
        },
        GpuVendor::INTEL => {
            options.push("-global_quality");
            options.push("51");
            Encoder::QSV
        },
        GpuVendor::UNKNOWN => Encoder::CPU,
    };
    proof {
        assert(strs(options@) =~= encoder_options(conversion_mode@, vendor));
    }
    (encoder, options)
}

} // verus!
