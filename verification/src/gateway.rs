//! The typed verb set of the external media tool.
//!
//! Every invocation of the tool is described here as an exact argument
//! vector, so that hardware-specific argument lists are the only varying
//! input and no raw argument construction leaks into other components. The
//! unverified host spawns the tool with these vectors and hands the captured
//! output back to the library (`hw` reads the probe texts, `parse` reads the
//! similarity diagnostics).

use crate::hw::HardwareProfile;
use vstd::prelude::*;
use vstd::string::StringExecFns;

verus! {

/// The fixed frame naming pattern inside a workspace folder: zero-padded
/// index, `png` extension, lexicographically sortable so that name order is
/// temporal order.
pub open spec fn spec_frame_pattern(folder: Seq<char>) -> Seq<char> {
    folder + "/frame_%04d.png"@
}

/// The extraction output pattern for a workspace folder.
pub fn frame_pattern(folder: &str) -> (r: String)
    ensures
        r@ == spec_frame_pattern(folder@),
{
    let mut out = String::from_str(folder);
    out.append("/frame_%04d.png");
    out
}

/// Arguments of the accelerator probe.
pub fn probe_hwaccels_args() -> (r: Vec<String>)
    ensures
        r.deep_view() == seq!["-hwaccels"@],
{
    let mut args: Vec<String> = Vec::new();
    args.push(String::from_str("-hwaccels"));
    proof {
        assert(args.deep_view() =~~= seq!["-hwaccels"@]);
    }
    args
}

/// Arguments of the encoder probe.
pub fn probe_encoders_args() -> (r: Vec<String>)
    ensures
        r.deep_view() == seq!["-encoders"@],
{
    let mut args: Vec<String> = Vec::new();
    args.push(String::from_str("-encoders"));
    proof {
        assert(args.deep_view() =~~= seq!["-encoders"@]);
    }
    args
}

/// Arguments of the external-metric similarity probe over two frame files:
/// the tool computes its similarity filter over both inputs and writes the
/// aggregate score to its diagnostic stream.
pub open spec fn spec_similarity_args(a: Seq<char>, b: Seq<char>) -> Seq<Seq<char>> {
    seq!["-i"@, a, "-i"@, b, "-filter_complex"@, "ssim"@, "-f"@, "null"@]
}

/// Build the similarity invocation.
pub fn similarity_args(frame_a: &str, frame_b: &str) -> (r: Vec<String>)
    ensures
        r.deep_view() == spec_similarity_args(frame_a@, frame_b@),
{
    let mut args: Vec<String> = Vec::new();
    args.push(String::from_str("-i"));
    args.push(String::from_str(frame_a));
    args.push(String::from_str("-i"));
    args.push(String::from_str(frame_b));
    args.push(String::from_str("-filter_complex"));
    args.push(String::from_str("ssim"));
    args.push(String::from_str("-f"));
    args.push(String::from_str("null"));
    proof {
        assert(args.deep_view() =~~= spec_similarity_args(frame_a@, frame_b@));
    }
    args
}

/// Arguments of the frame-extraction verb: the hardware decode arguments when
/// a profile is resolved, then the input video and the output pattern.
pub open spec fn spec_extract_args(
    decode: Option<Seq<Seq<char>>>,
    input: Seq<char>,
    pattern: Seq<char>,
) -> Seq<Seq<char>> {
    (match decode {
        Some(d) => d,
        None => Seq::empty(),
    }) + seq!["-i"@, input, "-threads"@, "0"@, pattern]
}

/// Build the extraction invocation.
pub fn extract_args(profile: Option<&HardwareProfile>, input: &str, pattern: &str) -> (r: Vec<
    String,
>)
    ensures
        r.deep_view() == spec_extract_args(
            match profile {
                Some(p) => Some(p.decode_args.deep_view()),
                None => None,
            },
            input@,
            pattern@,
        ),
{
    let mut args: Vec<String> = Vec::new();
    if let Some(p) = profile {
        append_all(&mut args, &p.decode_args);
    }
    args.push(String::from_str("-i"));
    args.push(String::from_str(input));
    args.push(String::from_str("-threads"));
    args.push(String::from_str("0"));
    args.push(String::from_str(pattern));
    proof {
        assert(args.deep_view() =~~= spec_extract_args(
            match profile {
                Some(p) => Some(p.decode_args.deep_view()),
                None => None,
            },
            input@,
            pattern@,
        ));
    }
    args
}

/// The software fallback encoder configuration, used when no hardware
/// profile is resolved.
pub open spec fn spec_software_encode_args() -> Seq<Seq<char>> {
    seq!["-c:v"@, "libx264"@, "-preset"@, "fast"@]
}

/// Arguments of the re-encode verb: framerate and the pruned frame pattern,
/// then the hardware encode arguments (or the software fallback), then the
/// threading, pixel format and output path.
pub open spec fn spec_encode_args(
    encode: Option<Seq<Seq<char>>>,
    pattern: Seq<char>,
    output: Seq<char>,
) -> Seq<Seq<char>> {
    seq!["-framerate"@, "30"@, "-i"@, pattern] + (match encode {
        Some(e) => e,
        None => spec_software_encode_args(),
    }) + seq!["-threads"@, "0"@, "-pix_fmt"@, "yuv420p"@, output]
}

/// Build the re-encode invocation.
pub fn encode_args(profile: Option<&HardwareProfile>, pattern: &str, output: &str) -> (r: Vec<
    String,
>)
    ensures
        r.deep_view() == spec_encode_args(
            match profile {
                Some(p) => Some(p.encode_args.deep_view()),
                None => None,
            },
            pattern@,
            output@,
        ),
{
    let mut args: Vec<String> = Vec::new();
    args.push(String::from_str("-framerate"));
    args.push(String::from_str("30"));
    args.push(String::from_str("-i"));
    args.push(String::from_str(pattern));
    let ghost head = args.deep_view();
    proof {
        assert(head =~~= seq!["-framerate"@, "30"@, "-i"@, pattern@]);
    }
    match profile {
        Some(p) => {
            append_all(&mut args, &p.encode_args);
        },
        None => {
            args.push(String::from_str("-c:v"));
            args.push(String::from_str("libx264"));
            args.push(String::from_str("-preset"));
            args.push(String::from_str("fast"));
            proof {
                assert(args.deep_view() =~~= head + spec_software_encode_args());
            }
        },
    }
    let ghost mid = args.deep_view();
    args.push(String::from_str("-threads"));
    args.push(String::from_str("0"));
    args.push(String::from_str("-pix_fmt"));
    args.push(String::from_str("yuv420p"));
    args.push(String::from_str(output));
    proof {
        assert(args.deep_view() =~~= mid + seq![
            "-threads"@,
            "0"@,
            "-pix_fmt"@,
            "yuv420p"@,
            output@,
        ]);
        assert(args.deep_view() =~~= spec_encode_args(
            match profile {
                Some(p) => Some(p.encode_args.deep_view()),
                None => None,
            },
            pattern@,
            output@,
        ));
    }
    args
}

/// Append clones of all of `src` to `dst`.
fn append_all(dst: &mut Vec<String>, src: &Vec<String>)
    ensures
        final(dst).deep_view() == old(dst).deep_view() + src.deep_view(),
{
    let ghost dst0 = *dst;
    proof {
        assert(dst.deep_view() =~~= dst0.deep_view() + src.deep_view().take(0));
    }
    let n = src.len();
    let mut k: usize = 0;
    #[verifier::loop_isolation(false)]
    while k < n
        invariant
            n == src@.len(),
            k <= n,
            dst.deep_view() == dst0.deep_view() + src.deep_view().take(k as int),
        decreases n - k,
    {
        let ghost before = *dst;
        let ghost rhs = dst0.deep_view() + src.deep_view().take(k as int + 1);
        dst.push(src[k].clone());
        proof {
            assert(dst.deep_view().len() == rhs.len());
            assert forall|i: int| 0 <= i < dst.deep_view().len() implies dst.deep_view()[i]
                == rhs[i] by {
                assert(dst@[i] == before@.push(dst@[before@.len() as int])[i]);
                if i < before@.len() {
                    assert(dst@[i] == before@[i]);
                    assert(dst.deep_view()[i] == before.deep_view()[i]);
                    assert(before.deep_view()[i] == (dst0.deep_view() + src.deep_view().take(
                        k as int,
                    ))[i]);
                    if i >= dst0@.len() {
                        assert(src.deep_view().take(k as int)[i - dst0@.len()]
                            == src.deep_view()[i - dst0@.len()]);
                        assert(src.deep_view().take(k as int + 1)[i - dst0@.len()]
                            == src.deep_view()[i - dst0@.len()]);
                    }
                } else {
                    assert(dst.deep_view()[i] == src.deep_view()[k as int]);
                    assert(rhs[i] == src.deep_view().take(k as int + 1)[k as int]);
                }
            }
            assert(dst.deep_view() =~= rhs);
        }
        k += 1;
    }
    proof {
        assert(src.deep_view().take(n as int) =~~= src.deep_view());
    }
}

} // verus!
