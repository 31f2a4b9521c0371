//! Startup configuration of the client.

use crate::schedule::Schedule;
use vstd::prelude::*;

verus! {

/// Which decoder the media pipeline should use.
#[derive(Debug, Copy, Clone, PartialEq, Eq, Structural)]
pub enum Decoder {
    Software,
    Hardware,
    FastSoftware,
}

/// The client's startup configuration. Rates are in tenths (bitrate scale)
/// and percent (video scaling).
#[derive(Debug)]
pub struct AppConfig {
    pub viewport_size: (u32, u32),
    pub case_key: Option<String>,
    pub protocol_key: Option<String>,
    pub ws_url: String,
    /// Bitrate multiplier, tenths.
    pub bitrate_scale: u32,
    pub gpu: bool,
    pub preset: String,
    pub lossless: bool,
    /// Downscale factor, percent.
    pub video_scaling: u32,
    pub narrow: bool,
    pub tcp: bool,
    pub decoder: Decoder,
    pub jitter: u32,
    pub n_views: usize,
    pub schedule: Schedule,
}

impl AppConfig {
    /// Assemble a configuration: the decoder is chosen from the two decode
    /// flags (fast software wins over hardware), the schedule from its name
    /// (unknown names fall back to the default policy).
    pub fn new(
        ws_url: String,
        viewport_size: (u32, u32),
        case_key: Option<String>,
        protocol_key: Option<String>,
        bitrate_scale: u32,
        gpu: bool,
        preset: String,
        lossless: bool,
        video_scaling: u32,
        narrow: bool,
        tcp: bool,
        client_hw: bool,
        fast_sw_decode: bool,
        jitter: u32,
        n_views: usize,
        scedule_string: String,
    ) -> (r: AppConfig)
        ensures
            r.ws_url@ == ws_url@,
            r.viewport_size == viewport_size,
            r.bitrate_scale == bitrate_scale,
            r.gpu == gpu,
            r.preset@ == preset@,
            r.lossless == lossless,
            r.video_scaling == video_scaling,
            r.narrow == narrow,
            r.tcp == tcp,
            r.jitter == jitter,
            r.n_views == n_views,
            r.decoder == (if fast_sw_decode {
                Decoder::FastSoftware
            } else if client_hw {
                Decoder::Hardware
            } else {
                Decoder::Software
            }),
            r.schedule == (if scedule_string@ == "performance"@ {
                Schedule::Performance
            } else if scedule_string@ == "quality"@ {
                Schedule::Quality
            } else {
                Schedule::Default
            }),
            r.case_key is Some <==> case_key is Some,
            case_key is Some ==> r.case_key->0@ == case_key->0@,
            r.protocol_key is Some <==> protocol_key is Some,
            protocol_key is Some ==> r.protocol_key->0@ == protocol_key->0@,
    {
        let decoder = if fast_sw_decode {
            Decoder::FastSoftware
        } else if client_hw {
            Decoder::Hardware
        } else {
            Decoder::Software
        };
        let performance_name: String = "performance".to_owned();
        let quality_name: String = "quality".to_owned();
        let schedule = if scedule_string.eq(&performance_name) {
            Schedule::Performance
        } else if scedule_string.eq(&quality_name) {
            Schedule::Quality
        } else {
            Schedule::Default
        };
        AppConfig {
            ws_url,
            viewport_size,
            case_key,
            protocol_key,
            bitrate_scale,
            gpu,
            preset,
            lossless,
            video_scaling,
            narrow,
            tcp,
            decoder,
            jitter,
            n_views,
            schedule,
        }
    }
}

} // verus!
