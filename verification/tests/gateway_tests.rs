use frame_dedup::gateway::{
    encode_args, extract_args, frame_pattern, probe_encoders_args, probe_hwaccels_args,
    similarity_args,
};
use frame_dedup::hw::{profile_for, select_backend, Backend, HardwareProfileResolver};
use frame_dedup::parse::parse_ssim_ppm;
use frame_dedup::paths::{is_frame_path, output_video_path};
use frame_dedup::text::{contains_sub, find_sub};
use frame_dedup::tool::{decode_tool_archive, ToolError, ToolPathCache};

fn strings(v: Vec<&str>) -> Vec<String> {
    v.into_iter().map(String::from).collect()
}

#[test]
fn finds_first_occurrence() {
    assert_eq!(find_sub(b"abcabc", b"bc"), Some(1));
    assert_eq!(find_sub(b"abcabc", b"zz"), None);
    assert_eq!(find_sub(b"abc", b""), Some(0));
    assert!(contains_sub(b"hardware cuda ready", b"cuda"));
    assert!(!contains_sub(b"cud", b"cuda"));
}

#[test]
fn backend_selection_follows_preference_order() {
    // both CUDA and VA-API available: CUDA wins
    let hw = b"Hardware acceleration methods:\nvaapi\ncuda\n";
    let enc = b" V..... h264_vaapi\n V..... h264_nvenc\n";
    assert_eq!(select_backend(hw, enc), Some(Backend::Cuda));
    // accelerator without its encoder does not match
    let enc_only_vaapi = b" V..... h264_vaapi\n";
    assert_eq!(select_backend(hw, enc_only_vaapi), Some(Backend::Vaapi));
    // no candidate pair at all
    assert_eq!(select_backend(b"none", b"none"), None);
    assert_eq!(
        select_backend(b"videotoolbox", b"h264_videotoolbox"),
        Some(Backend::VideoToolbox)
    );
    assert_eq!(select_backend(b"qsv", b"h264_qsv"), Some(Backend::Qsv));
}

struct FakeGateway {
    hwaccels: Vec<u8>,
    encoders: Vec<u8>,
    probe_calls: u32,
}

impl FakeGateway {
    fn probe(&mut self) -> (Vec<u8>, Vec<u8>) {
        self.probe_calls += 1;
        (self.hwaccels.clone(), self.encoders.clone())
    }
}

#[test]
fn resolver_caches_and_never_reprobes() {
    let mut gateway = FakeGateway {
        hwaccels: b"no accelerators here".to_vec(),
        encoders: b"software only".to_vec(),
        probe_calls: 0,
    };
    let mut resolver = HardwareProfileResolver::new();
    for _ in 0..3 {
        if resolver.needs_probe() {
            let (hw, enc) = gateway.probe();
            resolver.store_probe(&hw, &enc);
        }
        assert!(resolver.resolve().is_none());
    }
    assert_eq!(gateway.probe_calls, 1);
}

#[test]
fn resolver_returns_matching_profile() {
    let mut gateway = FakeGateway {
        hwaccels: b"cuda\nvaapi\n".to_vec(),
        encoders: b"h264_nvenc\n".to_vec(),
        probe_calls: 0,
    };
    let mut resolver = HardwareProfileResolver::new();
    if resolver.needs_probe() {
        let (hw, enc) = gateway.probe();
        resolver.store_probe(&hw, &enc);
    }
    let profile = resolver.resolve().unwrap();
    assert_eq!(profile.name, "cuda");
    assert_eq!(profile.decode_args, strings(vec!["cuda"]));
    assert_eq!(
        profile.encode_args,
        strings(vec!["h264_nvenc", "-preset", "p4", "-tune", "hq"])
    );
    let again = resolver.resolve().unwrap();
    assert_eq!(again.name, "cuda");
    assert_eq!(gateway.probe_calls, 1);
}

#[test]
fn vaapi_profile_arguments() {
    let p = profile_for(Backend::Vaapi);
    assert_eq!(p.name, "vaapi");
    assert_eq!(
        p.decode_args,
        strings(vec!["vaapi", "-vaapi_device", "/dev/dri/renderD128"])
    );
    assert_eq!(
        p.encode_args,
        strings(vec![
            "-vaapi_device",
            "/dev/dri/renderD128",
            "-vf",
            "format=nv12,hwupload",
            "-c:v",
            "h264_vaapi",
        ])
    );
}

#[test]
fn probe_argument_vectors() {
    assert_eq!(probe_hwaccels_args(), strings(vec!["-hwaccels"]));
    assert_eq!(probe_encoders_args(), strings(vec!["-encoders"]));
}

#[test]
fn similarity_argument_vector() {
    assert_eq!(
        similarity_args("x.png", "y.png"),
        strings(vec!["-i", "x.png", "-i", "y.png", "-filter_complex", "ssim", "-f", "null"])
    );
}

#[test]
fn extract_arguments_with_and_without_hardware() {
    let pattern = frame_pattern("/tmp/work");
    assert_eq!(pattern, "/tmp/work/frame_%04d.png");
    assert_eq!(
        extract_args(None, "in.mp4", &pattern),
        strings(vec!["-i", "in.mp4", "-threads", "0", "/tmp/work/frame_%04d.png"])
    );
    let cuda = profile_for(Backend::Cuda);
    assert_eq!(
        extract_args(Some(&cuda), "in.mp4", &pattern),
        strings(vec!["cuda", "-i", "in.mp4", "-threads", "0", "/tmp/work/frame_%04d.png"])
    );
}

#[test]
fn encode_arguments_with_and_without_hardware() {
    assert_eq!(
        encode_args(None, "w/frame_%04d.png", "out/v_processed.mp4"),
        strings(vec![
            "-framerate",
            "30",
            "-i",
            "w/frame_%04d.png",
            "-c:v",
            "libx264",
            "-preset",
            "fast",
            "-threads",
            "0",
            "-pix_fmt",
            "yuv420p",
            "out/v_processed.mp4",
        ])
    );
    let vt = profile_for(Backend::VideoToolbox);
    assert_eq!(
        encode_args(Some(&vt), "w/frame_%04d.png", "o.mp4"),
        strings(vec![
            "-framerate",
            "30",
            "-i",
            "w/frame_%04d.png",
            "h264_videotoolbox",
            "-threads",
            "0",
            "-pix_fmt",
            "yuv420p",
            "o.mp4",
        ])
    );
}

#[test]
fn parses_ssim_score_from_diagnostics() {
    let text = b"[Parsed_ssim_0 @ 0x55] SSIM Y:0.98 U:0.97 V:0.96 All: 0.978565 (16.81)";
    assert_eq!(parse_ssim_ppm(text), 978_565);
    assert_eq!(parse_ssim_ppm(b"All: 1.0"), 1_000_000);
    assert_eq!(parse_ssim_ppm(b"All: 0.95"), 950_000);
    assert_eq!(parse_ssim_ppm(b"All: 2"), 2_000_000);
    assert_eq!(parse_ssim_ppm(b"All:   0.5"), 500_000);
    assert_eq!(parse_ssim_ppm(b"before All: .25 after"), 250_000);
    assert_eq!(parse_ssim_ppm(b"All: 0.1234567"), 123_456);
}

#[test]
fn unparseable_scores_fail_safe_to_zero() {
    assert_eq!(parse_ssim_ppm(b"no marker at all"), 0);
    assert_eq!(parse_ssim_ppm(b"All: "), 0);
    assert_eq!(parse_ssim_ppm(b"All: abc"), 0);
    assert_eq!(parse_ssim_ppm(b"All: 0.978,"), 0);
    assert_eq!(parse_ssim_ppm(b"All: 1.2.3"), 0);
    assert_eq!(parse_ssim_ppm(b"All: ."), 0);
}

#[test]
fn frame_path_filter() {
    assert!(is_frame_path("work/frame_0001.png"));
    assert!(is_frame_path("frame_0001.png"));
    assert!(!is_frame_path("work/frame_0001.jpg"));
    assert!(!is_frame_path("work/.png"));
    assert!(!is_frame_path("work/frame"));
    assert!(!is_frame_path("work/frame_0001.PNG"));
    assert!(is_frame_path("a/b/c.d.png"));
}

#[test]
fn output_path_uses_the_input_stem() {
    assert_eq!(
        output_video_path("videos/input.mp4", "out"),
        "out/input_processed.mp4"
    );
    assert_eq!(output_video_path("clip", "d"), "d/clip_processed.mp4");
    assert_eq!(output_video_path("a/b/c.tar.gz", "o"), "o/c.tar_processed.mp4");
    assert_eq!(output_video_path(".hidden", "o"), "o/.hidden_processed.mp4");
}

#[test]
fn tool_archive_round_trip() {
    let payload: Vec<u8> = (0u8..=255).cycle().take(4096).collect();
    let compressed = zstd::stream::encode_all(&payload[..], 3).unwrap();
    assert_eq!(decode_tool_archive(&compressed), Ok(payload));
    assert_eq!(
        decode_tool_archive(b"not a zstd stream"),
        Err(ToolError::ArchiveCorrupt)
    );
}

#[test]
fn tool_path_cache_is_write_once() {
    let mut cache = ToolPathCache::new();
    assert!(cache.needs_install());
    cache.store("/tmp/mediatool".to_string());
    assert!(!cache.needs_install());
    assert_eq!(cache.get(), "/tmp/mediatool");
}

#[test]
fn frame_sequence_sorts_into_temporal_order() {
    let unordered: Vec<String> = vec![
        "w/frame_0003.png".to_string(),
        "w/frame_0001.png".to_string(),
        "w/frame_0010.png".to_string(),
        "w/frame_0002.png".to_string(),
    ];
    let sorted = frame_dedup::order::sort_frame_sequence(&unordered);
    assert_eq!(
        sorted,
        vec![
            "w/frame_0001.png".to_string(),
            "w/frame_0002.png".to_string(),
            "w/frame_0003.png".to_string(),
            "w/frame_0010.png".to_string(),
        ]
    );
}

#[test]
fn lexicographic_compare() {
    assert!(frame_dedup::order::str_lex_le("frame_0001.png", "frame_0002.png"));
    assert!(!frame_dedup::order::str_lex_le("frame_0002.png", "frame_0001.png"));
    assert!(frame_dedup::order::str_lex_le("a", "a"));
    assert!(frame_dedup::order::str_lex_le("a", "ab"));
    assert!(!frame_dedup::order::str_lex_le("ab", "a"));
}
