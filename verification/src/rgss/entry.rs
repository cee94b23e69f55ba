//! One file entry of an RGSS archive.

use vstd::prelude::*;

use crate::strutil::{replace_char, spec_replace_char, append_str};

verus! {

/// File entry in an RGSS archive.
#[derive(Debug, Clone)]
pub struct RgssEntry {
    /// File name (backslash-separated path within the archive).
    pub name: String,
    /// Payload size in bytes.
    pub size: u32,
    /// Absolute byte offset of the encrypted payload in the archive.
    pub offset: u64,
    /// Keystream seed for this entry's payload.
    pub key: u32,
}

impl RgssEntry {
    /// The path this entry is extracted to: the base directory joined with
    /// the archive name, backslashes normalised to forward slashes.
    pub open spec fn spec_output_path(name: Seq<char>, base_dir: Seq<char>) -> Seq<char> {
        base_dir + seq!['/'] + spec_replace_char(name, '\\', '/')
    }

    /// The output path for extraction under `base_dir`.
    pub fn output_path(&self, base_dir: &str) -> (r: String)
        ensures
            r@ == Self::spec_output_path(self.name@, base_dir@),
    {
        let normalized = replace_char(self.name.as_str(), '\\', '/');
        let mut out = String::from_str(base_dir);
        append_str(&mut out, "/");
        append_str(&mut out, normalized.as_str());
        proof {
            reveal_strlit("/");
            assert("/"@ =~= seq!['/']);
            assert(out@ =~= Self::spec_output_path(self.name@, base_dir@));
        }
        out
    }
}

} // verus!
