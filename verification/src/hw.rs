//! Hardware-capability resolution: given the external tool's probe output
//! (the available hardware accelerators and the available encoders, as raw
//! text), pick the first backend of a fixed preference order whose
//! accelerator name and encoder name both appear. This is a
//! discovery-and-fallback chain, not a negotiation: only the first match
//! wins, and `None` means "use the software fallback".

use crate::text::{contains_seq, contains_sub};
use vstd::prelude::*;
use vstd::string::StringExecFns;
use vstd::string::StringSliceAdditionalSpecFns;

verus! {

/// The candidate hardware backends, in fixed preference order.
#[derive(Clone, Copy, PartialEq, Eq, Structural, Debug)]
pub enum Backend {
    /// NVIDIA CUDA decode with NVENC encode.
    Cuda,
    /// Apple VideoToolbox.
    VideoToolbox,
    /// Intel Quick Sync Video.
    Qsv,
    /// VA-API.
    Vaapi,
}

/// A backend matches when its accelerator name appears in the accelerator
/// probe text and its encoder name appears in the encoder probe text.
pub open spec fn spec_backend_matches(b: Backend, hw: Seq<u8>, enc: Seq<u8>) -> bool {
    match b {
        Backend::Cuda => contains_seq(hw, "cuda".spec_bytes()) && contains_seq(
            enc,
            "h264_nvenc".spec_bytes(),
        ),
        Backend::VideoToolbox => contains_seq(hw, "videotoolbox".spec_bytes()) && contains_seq(
            enc,
            "h264_videotoolbox".spec_bytes(),
        ),
        Backend::Qsv => contains_seq(hw, "qsv".spec_bytes()) && contains_seq(
            enc,
            "h264_qsv".spec_bytes(),
        ),
        Backend::Vaapi => contains_seq(hw, "vaapi".spec_bytes()) && contains_seq(
            enc,
            "h264_vaapi".spec_bytes(),
        ),
    }
}

/// The first matching backend in preference order, or `None` when no
/// candidate accelerator/encoder pair is present.
pub open spec fn spec_select_backend(hw: Seq<u8>, enc: Seq<u8>) -> Option<Backend> {
    if spec_backend_matches(Backend::Cuda, hw, enc) {
        Some(Backend::Cuda)
    } else if spec_backend_matches(Backend::VideoToolbox, hw, enc) {
        Some(Backend::VideoToolbox)
    } else if spec_backend_matches(Backend::Qsv, hw, enc) {
        Some(Backend::Qsv)
    } else if spec_backend_matches(Backend::Vaapi, hw, enc) {
        Some(Backend::Vaapi)
    } else {
        None
    }
}

/// Select a backend from the two probe texts.
pub fn select_backend(hwaccels: &[u8], encoders: &[u8]) -> (r: Option<Backend>)
    ensures
        r == spec_select_backend(hwaccels@, encoders@),
{
    if contains_sub(hwaccels, "cuda".as_bytes()) && contains_sub(
        encoders,
        "h264_nvenc".as_bytes(),
    ) {
        Some(Backend::Cuda)
    } else if contains_sub(hwaccels, "videotoolbox".as_bytes()) && contains_sub(
        encoders,
        "h264_videotoolbox".as_bytes(),
    ) {
        Some(Backend::VideoToolbox)
    } else if contains_sub(hwaccels, "qsv".as_bytes()) && contains_sub(
        encoders,
        "h264_qsv".as_bytes(),
    ) {
        Some(Backend::Qsv)
    } else if contains_sub(hwaccels, "vaapi".as_bytes()) && contains_sub(
        encoders,
        "h264_vaapi".as_bytes(),
    ) {
        Some(Backend::Vaapi)
    } else {
        None
    }
}

/// A resolved hardware profile: the backend's name and the argument lists the
/// external tool needs for hardware decode and encode. Immutable once
/// resolved.
pub struct HardwareProfile {
    pub name: String,
    pub decode_args: Vec<String>,
    pub encode_args: Vec<String>,
}

/// The backend's name.
pub open spec fn spec_backend_name(b: Backend) -> Seq<char> {
    match b {
        Backend::Cuda => "cuda"@,
        Backend::VideoToolbox => "videotoolbox"@,
        Backend::Qsv => "qsv"@,
        Backend::Vaapi => "vaapi"@,
    }
}

/// The hardware-decode arguments of each backend.
pub open spec fn spec_backend_decode_args(b: Backend) -> Seq<Seq<char>> {
    match b {
        Backend::Cuda => seq!["cuda"@],
        Backend::VideoToolbox => seq!["videotoolbox"@],
        Backend::Qsv => seq!["qsv"@],
        Backend::Vaapi => seq!["vaapi"@, "-vaapi_device"@, "/dev/dri/renderD128"@],
    }
}

/// The hardware-encode arguments of each backend.
pub open spec fn spec_backend_encode_args(b: Backend) -> Seq<Seq<char>> {
    match b {
        Backend::Cuda => seq!["h264_nvenc"@, "-preset"@, "p4"@, "-tune"@, "hq"@],
        Backend::VideoToolbox => seq!["h264_videotoolbox"@],
        Backend::Qsv => seq!["h264_qsv"@],
        Backend::Vaapi => seq![
            "-vaapi_device"@,
            "/dev/dri/renderD128"@,
            "-vf"@,
            "format=nv12,hwupload"@,
            "-c:v"@,
            "h264_vaapi"@,
        ],
    }
}

/// A profile carries exactly its backend's name and argument lists.
pub open spec fn spec_profile_for(p: HardwareProfile, b: Backend) -> bool {
    &&& p.name@ == spec_backend_name(b)
    &&& p.decode_args.deep_view() == spec_backend_decode_args(b)
    &&& p.encode_args.deep_view() == spec_backend_encode_args(b)
}

/// Build the profile of a backend.
pub fn profile_for(b: Backend) -> (p: HardwareProfile)
    ensures
        spec_profile_for(p, b),
{
    match b {
        Backend::Cuda => {
            let mut decode_args: Vec<String> = Vec::new();
            decode_args.push(String::from_str("cuda"));
            let mut encode_args: Vec<String> = Vec::new();
            encode_args.push(String::from_str("h264_nvenc"));
            encode_args.push(String::from_str("-preset"));
            encode_args.push(String::from_str("p4"));
            encode_args.push(String::from_str("-tune"));
            encode_args.push(String::from_str("hq"));
            proof {
                assert(decode_args.deep_view() =~= spec_backend_decode_args(b));
                assert(encode_args.deep_view() =~= spec_backend_encode_args(b));
            }
            HardwareProfile { name: String::from_str("cuda"), decode_args, encode_args }
        },
        Backend::VideoToolbox => {
            let mut decode_args: Vec<String> = Vec::new();
            decode_args.push(String::from_str("videotoolbox"));
            let mut encode_args: Vec<String> = Vec::new();
            encode_args.push(String::from_str("h264_videotoolbox"));
            proof {
                assert(decode_args.deep_view() =~= spec_backend_decode_args(b));
                assert(encode_args.deep_view() =~= spec_backend_encode_args(b));
            }
            HardwareProfile { name: String::from_str("videotoolbox"), decode_args, encode_args }
        },
        Backend::Qsv => {
            let mut decode_args: Vec<String> = Vec::new();
            decode_args.push(String::from_str("qsv"));
            let mut encode_args: Vec<String> = Vec::new();
            encode_args.push(String::from_str("h264_qsv"));
            proof {
                assert(decode_args.deep_view() =~= spec_backend_decode_args(b));
                assert(encode_args.deep_view() =~= spec_backend_encode_args(b));
            }
            HardwareProfile { name: String::from_str("qsv"), decode_args, encode_args }
        },
        Backend::Vaapi => {
            let mut decode_args: Vec<String> = Vec::new();
            decode_args.push(String::from_str("vaapi"));
            decode_args.push(String::from_str("-vaapi_device"));
            decode_args.push(String::from_str("/dev/dri/renderD128"));
            let mut encode_args: Vec<String> = Vec::new();
            encode_args.push(String::from_str("-vaapi_device"));
            encode_args.push(String::from_str("/dev/dri/renderD128"));
            encode_args.push(String::from_str("-vf"));
            encode_args.push(String::from_str("format=nv12,hwupload"));
            encode_args.push(String::from_str("-c:v"));
            encode_args.push(String::from_str("h264_vaapi"));
            proof {
                assert(decode_args.deep_view() =~= spec_backend_decode_args(b));
                assert(encode_args.deep_view() =~= spec_backend_encode_args(b));
            }
            HardwareProfile { name: String::from_str("vaapi"), decode_args, encode_args }
        },
    }
}

/// The memoised resolver: a single write-once cache slot. The probes run at
/// most once per resolver; afterwards every resolution is answered from the
/// cache without consulting the probes again.
pub struct HardwareProfileResolver {
    /// Whether the probe results have been stored.
    pub probed: bool,
    /// The selected backend, valid once `probed`.
    pub cached: Option<Backend>,
}

impl HardwareProfileResolver {
    /// A fresh resolver that has not probed yet.
    pub fn new() -> (r: Self)
        ensures
            !r.probed,
            r.cached is None,
    {
        HardwareProfileResolver { probed: false, cached: None }
    }

    /// Whether the caller still has to run the two probes.
    pub fn needs_probe(&self) -> (r: bool)
        ensures
            r == !self.probed,
    {
        !self.probed
    }

    /// Store the result of the two probes; may run only once.
    pub fn store_probe(&mut self, hwaccels: &[u8], encoders: &[u8])
        requires
            !old(self).probed,
        ensures
            final(self).probed,
            final(self).cached == spec_select_backend(hwaccels@, encoders@),
    {
        self.cached = select_backend(hwaccels, encoders);
        self.probed = true;
    }

    /// The resolved profile, answered from the cache: `None` exactly when no
    /// candidate accelerator/encoder pair was present in the probed text.
    pub fn resolve(&self) -> (r: Option<HardwareProfile>)
        requires
            self.probed,
        ensures
            r is Some <==> self.cached is Some,
            r matches Some(p) ==> spec_profile_for(p, self.cached->Some_0),
    {
        match self.cached {
            Some(b) => Some(profile_for(b)),
            None => None,
        }
    }
}

} // verus!
