//! Shared archive-level types: the error enumeration and archive format
//! detection by file extension.

use vstd::prelude::*;

use crate::rgss::version::RgssVersion;

verus! {

broadcast use vstd::string::group_string_axioms;

/// Errors that can occur during archive operations.
#[derive(Debug, Clone)]
pub enum ArchiverError {
    /// An I/O error, carried as its message.
    Io(String),
    /// The archive bytes do not have the expected structure.
    InvalidFormat(String),
    /// The header names a version this codec does not support.
    UnsupportedVersion(u8),
    /// A payload could not be decrypted.
    DecryptionError(String),
    /// A payload could not be encrypted.
    EncryptionError(String),
    /// A named entry or file does not exist.
    FileNotFound(String),
}

impl ArchiverError {
    /// Build an `InvalidFormat` error from a message literal.
    pub fn invalid_format(msg: &str) -> (r: Self)
        ensures
            r matches ArchiverError::InvalidFormat(s) && s@ == msg@,
    {
        ArchiverError::InvalidFormat(String::from_str(msg))
    }
}

/// Result type for archiver operations.
pub type ArchiverResult<T> = Result<T, ArchiverError>;

/// Archive format detected from a file extension.
#[derive(Debug, Clone, Copy, PartialEq, Eq, Structural)]
pub enum ArchiveFormat {
    /// RGSS archive (RPG Maker XP/VX/VX Ace).
    Rgss(RgssVersion),
}

/// Lower-casing of an ASCII character; other characters are unchanged.
pub open spec fn spec_ascii_lower_char(c: char) -> char {
    if 'A' <= c && c <= 'Z' {
        ((c as u8) + 0x20) as char
    } else {
        c
    }
}

/// Lower-casing of a character sequence, ASCII letters only.
pub open spec fn spec_ascii_lower(s: Seq<char>) -> Seq<char> {
    s.map(|_i: int, c: char| spec_ascii_lower_char(c))
}

/// Whether `s` equals `lower` after ASCII lower-casing.
pub open spec fn spec_eq_ignore_ascii_case(s: Seq<char>, lower: Seq<char>) -> bool {
    spec_ascii_lower(s) == lower
}

/// Compare a string to a reference string case-insensitively over ASCII
/// letters.  The reference is expected to be already lower-case.
pub fn eq_ignore_ascii_case(s: &str, lower: &str) -> (r: bool)
    ensures
        r == spec_eq_ignore_ascii_case(s@, lower@),
{
    let n = s.unicode_len();
    let nl = lower.unicode_len();
    if n != nl {
        assert(spec_ascii_lower(s@).len() == s@.len());
        return false;
    }
    let mut i: usize = 0;
    while i < n
        invariant
            i <= n,
            n == s@.len(),
            n == lower@.len(),
            forall|j: int| 0 <= j < i ==> spec_ascii_lower_char(s@[j]) == lower@[j],
        decreases n - i,
    {
        let c = s.get_char(i);
        let cl = lower.get_char(i);
        let cv = c as u32;
        let clv = cl as u32;
        let lowered: u32 = if 0x41 <= cv && cv <= 0x5A {
            cv + 0x20
        } else {
            cv
        };
        if lowered != clv {
            assert(spec_ascii_lower_char(s@[i as int]) != lower@[i as int]);
            assert(spec_ascii_lower(s@)[i as int] != lower@[i as int]);
            return false;
        }
        assert(spec_ascii_lower_char(s@[i as int]) == lower@[i as int]);
        i = i + 1;
    }
    assert(spec_ascii_lower(s@) =~= lower@);
    true
}

impl ArchiveFormat {
    /// What `from_extension` returns for a lower-cased extension.
    pub open spec fn spec_from_extension(lower: Seq<char>) -> Option<ArchiveFormat> {
        if lower == "rgssad"@ {
            Some(ArchiveFormat::Rgss(RgssVersion::V1))
        } else if lower == "rgss2a"@ {
            Some(ArchiveFormat::Rgss(RgssVersion::V1))
        } else if lower == "rgss3a"@ {
            Some(ArchiveFormat::Rgss(RgssVersion::V3))
        } else {
            None
        }
    }

    /// Detect the archive format from a file extension (without the dot),
    /// compared case-insensitively.
    pub fn from_extension(ext: &str) -> (r: Option<Self>)
        ensures
            r == Self::spec_from_extension(spec_ascii_lower(ext@)),
    {
        proof {
            reveal_strlit("rgssad");
            reveal_strlit("rgss2a");
            reveal_strlit("rgss3a");
        }
        if eq_ignore_ascii_case(ext, "rgssad") {
            Some(ArchiveFormat::Rgss(RgssVersion::V1))
        } else if eq_ignore_ascii_case(ext, "rgss2a") {
            Some(ArchiveFormat::Rgss(RgssVersion::V1))
        } else if eq_ignore_ascii_case(ext, "rgss3a") {
            Some(ArchiveFormat::Rgss(RgssVersion::V3))
        } else {
            None
        }
    }
}

} // verus!
