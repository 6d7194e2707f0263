//! The external tool's executable form: decoding its bundled compressed
//! archive and the process-wide write-once cache of its installed path.
//!
//! The host embeds the tool as a zstd-compressed asset, asks the library to
//! decode it, writes the bytes out and stores the resulting path here; every
//! later use reads the same cached path.

use vstd::prelude::*;

verus! {

/// What the bundled archive decompresses to; the result is a function of the
/// compressed bytes alone.
pub uninterp spec fn zstd_plain_of(compressed: Seq<u8>) -> Seq<u8>;

/// Relies on `zstd::stream::decode_all`: decompresses a complete zstd frame
/// from the given bytes, returning `None` on malformed input.
#[verifier::external_body]
fn zstd_decode(data: &[u8]) -> (r: Option<Vec<u8>>)
    ensures
        r matches Some(plain) ==> plain@ == zstd_plain_of(data@),
{
    match zstd::stream::decode_all(data) {
        Ok(plain) => Some(plain),
        Err(_) => None,
    }
}

/// Failure to recover the external tool: fatal for the whole pipeline, since
/// the tool is mandatory.
#[derive(Clone, Copy, PartialEq, Eq, Structural, Debug)]
pub enum ToolError {
    /// The bundled archive is not a well-formed compressed stream.
    ArchiveCorrupt,
}

/// Decode the bundled tool archive into the executable's bytes.
pub fn decode_tool_archive(data: &[u8]) -> (r: Result<Vec<u8>, ToolError>)
    ensures
        r matches Ok(plain) ==> plain@ == zstd_plain_of(data@),
        r is Err ==> r == Result::<Vec<u8>, ToolError>::Err(ToolError::ArchiveCorrupt),
{
    match zstd_decode(data) {
        Some(plain) => Ok(plain),
        None => Err(ToolError::ArchiveCorrupt),
    }
}

/// The write-once cache of the installed tool's path: filled at most once,
/// read-shared afterwards for the life of the owning context.
pub struct ToolPathCache {
    /// The installed path, once known.
    pub path: Option<String>,
}

impl ToolPathCache {
    /// An empty cache.
    pub fn new() -> (r: Self)
        ensures
            r.path is None,
    {
        ToolPathCache { path: None }
    }

    /// Whether the tool still has to be installed.
    pub fn needs_install(&self) -> (r: bool)
        ensures
            r == (self.path is None),
    {
        match self.path {
            Some(_) => false,
            None => true,
        }
    }

    /// Record the installed path; may run only once.
    pub fn store(&mut self, path: String)
        requires
            old(self).path is None,
        ensures
            final(self).path == Some(path),
    {
        self.path = Some(path);
    }

    /// The cached path.
    pub fn get(&self) -> (r: &String)
        requires
            self.path is Some,
        ensures
            r == self.path->Some_0,
    {
        match &self.path {
            Some(p) => p,
            None => unreached(),
        }
    }
}

} // verus!
