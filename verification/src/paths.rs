//! Frame-path reasoning: the fixed extraction naming pattern, the frame-file
//! filter, and the output video path.
//!
//! Paths are treated as plain character sequences with `/` as the separator;
//! a path ending in a separator has an empty file name.

use vstd::prelude::*;
use vstd::string::StrSliceExecFns;
use vstd::string::StringExecFns;

verus! {

/// Index where the file name begins: just after the last `/`.
pub open spec fn spec_name_start(s: Seq<char>) -> int
    decreases s.len(),
{
    if s.len() == 0 {
        0
    } else if s[s.len() - 1] == '/' {
        s.len() as int
    } else {
        spec_name_start(s.drop_last())
    }
}

/// Index of the last `.` in a file name, or `-1` when there is none.
pub open spec fn spec_last_dot(name: Seq<char>) -> int
    decreases name.len(),
{
    if name.len() == 0 {
        -1
    } else if name[name.len() - 1] == '.' {
        name.len() - 1
    } else {
        spec_last_dot(name.drop_last())
    }
}

/// The stem of a file name: everything before the last `.`, unless the only
/// `.` leads the name (a hidden file keeps its full name as its stem).
pub open spec fn spec_stem(name: Seq<char>) -> Seq<char> {
    let d = spec_last_dot(name);
    if d >= 1 {
        name.take(d)
    } else {
        name
    }
}

/// The stem of the file name of a whole path.
pub open spec fn spec_file_stem(s: Seq<char>) -> Seq<char> {
    spec_stem(s.subrange(spec_name_start(s), s.len() as int))
}

/// A path names a frame image: its file name carries the `png` extension.
pub open spec fn spec_is_frame_path(s: Seq<char>) -> bool {
    let name = s.subrange(spec_name_start(s), s.len() as int);
    let d = spec_last_dot(name);
    d >= 1 && name.subrange(d + 1, name.len() as int) == "png"@
}

/// Where the file name of `s` begins.
fn name_start(s: &str) -> (r: usize)
    ensures
        r as int == spec_name_start(s@),
        r <= s@.len(),
{
    let len = s.unicode_len();
    proof {
        assert(s@.take(len as int) =~= s@);
    }
    let mut ns: usize = len;
    loop
        invariant_except_break
            len == s@.len(),
            ns <= len,
            spec_name_start(s@) == spec_name_start(s@.take(ns as int)),
        invariant
            len == s@.len(),
        ensures
            ns <= len,
            spec_name_start(s@) == ns as int,
        decreases ns,
    {
        if ns == 0 {
            proof {
                assert(s@.take(0) =~= Seq::<char>::empty());
            }
            break;
        }
        let c = s.get_char(ns - 1);
        proof {
            assert(s@.take(ns as int)[ns - 1] == s@[ns - 1]);
            assert(s@.take(ns as int).len() == ns as int);
        }
        if c == '/' {
            proof {
                assert(spec_name_start(s@.take(ns as int)) == ns as int);
            }
            break;
        }
        proof {
            assert(s@.take(ns as int).drop_last() =~= s@.take(ns as int - 1));
        }
        ns -= 1;
    }
    ns
}

/// The last `.` of the file name `name`, as `spec_last_dot` sees it.
fn last_dot(name: &str) -> (r: Option<usize>)
    ensures
        match r {
            Some(d) => spec_last_dot(name@) == d as int && (d as int) < name@.len(),
            None => spec_last_dot(name@) == -1,
        },
{
    let len = name.unicode_len();
    proof {
        assert(name@.take(len as int) =~= name@);
    }
    let mut e: usize = len;
    loop
        invariant_except_break
            len == name@.len(),
            e <= len,
            spec_last_dot(name@) == spec_last_dot(name@.take(e as int)),
        invariant
            len == name@.len(),
        ensures
            e <= len,
            match (if e == 0 {
                Option::<usize>::None
            } else {
                Option::<usize>::Some((e - 1) as usize)
            }) {
                Some(d) => spec_last_dot(name@) == d as int,
                None => spec_last_dot(name@) == -1,
            },
        decreases e,
    {
        if e == 0 {
            proof {
                assert(name@.take(0) =~= Seq::<char>::empty());
            }
            break;
        }
        let c = name.get_char(e - 1);
        proof {
            assert(name@.take(e as int)[e - 1] == name@[e - 1]);
            assert(name@.take(e as int).len() == e as int);
        }
        if c == '.' {
            break;
        }
        proof {
            assert(name@.take(e as int).drop_last() =~= name@.take(e as int - 1));
        }
        e -= 1;
    }
    if e == 0 {
        None
    } else {
        Some(e - 1)
    }
}

/// Whether a path names a frame image file (extension `png`).
pub fn is_frame_path(path: &str) -> (r: bool)
    ensures
        r == spec_is_frame_path(path@),
{
    let len = path.unicode_len();
    let ns = name_start(path);
    let name = path.substring_char(ns, len);
    proof {
        assert(name@ == path@.subrange(ns as int, len as int));
    }
    let nlen = name.unicode_len();
    let d = match last_dot(name) {
        Some(d) => d,
        None => {
            return false;
        },
    };
    if d == 0 {
        return false;
    }
    proof {
        reveal_strlit("png");
    }
    if nlen - (d + 1) != 3 {
        proof {
            assert(name@.subrange(d + 1, nlen as int).len() != "png"@.len());
        }
        return false;
    }
    let c0 = name.get_char(d + 1);
    let c1 = name.get_char(d + 2);
    let c2 = name.get_char(d + 3);
    proof {
        assert(name@.subrange(d + 1, nlen as int)[0] == name@[d + 1]);
        assert(name@.subrange(d + 1, nlen as int)[1] == name@[d + 2]);
        assert(name@.subrange(d + 1, nlen as int)[2] == name@[d + 3]);
    }
    if c0 == 'p' && c1 == 'n' && c2 == 'g' {
        proof {
            assert(name@.subrange(d + 1, nlen as int) =~= "png"@);
        }
        true
    } else {
        false
    }
}

/// The output video path: the input's stem inside the output directory, with
/// the `_processed.mp4` suffix, exactly as
/// `<output_directory>/<stem>_processed.mp4`.
pub fn output_video_path(input_file: &str, output_directory: &str) -> (r: String)
    ensures
        r@ == output_directory@ + "/"@ + spec_file_stem(input_file@) + "_processed.mp4"@,
{
    let len = input_file.unicode_len();
    let ns = name_start(input_file);
    let name = input_file.substring_char(ns, len);
    proof {
        assert(name@ == input_file@.subrange(ns as int, len as int));
    }
    let nlen = name.unicode_len();
    let stem = match last_dot(name) {
        Some(d) => {
            if d >= 1 {
                name.substring_char(0, d)
            } else {
                name
            }
        },
        None => name,
    };
    proof {
        assert(stem@ == spec_file_stem(input_file@)) by {
            if spec_last_dot(name@) >= 1 {
                assert(name@.take(spec_last_dot(name@)) =~= name@.subrange(
                    0,
                    spec_last_dot(name@),
                ));
            }
        }
    }
    let mut out = String::from_str(output_directory);
    out.append("/");
    out.append(stem);
    out.append("_processed.mp4");
    out
}

} // verus!
