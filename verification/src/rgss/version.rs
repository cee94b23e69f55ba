//! RGSS archive version detection and constants.

use vstd::prelude::*;

use crate::archiver::ArchiverError;

verus! {

/// The version tag of an RGSS archive.
#[derive(Debug, Clone, Copy, PartialEq, Eq, Structural)]
pub enum RgssVersion {
    /// Version 1 - RPG Maker XP (.rgssad) and VX (.rgss2a).
    V1,
    /// Version 3 - RPG Maker VX Ace (.rgss3a).
    V3,
}

/// The seven magic bytes that open every RGSS archive: `RGSSAD\0`.
pub open spec fn spec_magic() -> Seq<u8> {
    seq![0x52u8, 0x47u8, 0x53u8, 0x53u8, 0x41u8, 0x44u8, 0x00u8]
}

/// Whether a byte sequence begins with the RGSS magic.
pub open spec fn spec_has_magic(header: Seq<u8>) -> bool {
    header.len() >= 7 && header.subrange(0, 7) == spec_magic()
}

impl RgssVersion {
    /// The version byte written at offset 7 of the archive header.
    pub open spec fn spec_header_byte(self) -> u8 {
        match self {
            RgssVersion::V1 => 1u8,
            RgssVersion::V3 => 3u8,
        }
    }

    /// Detect the RGSS version from the first bytes of an archive.
    ///
    /// The header must hold at least 8 bytes: the magic `RGSSAD\0` followed
    /// by the version byte, which must be 1 or 3.
    pub fn detect_from_header(header: &[u8]) -> (r: Result<Self, ArchiverError>)
        ensures
            header@.len() < 8 ==> (r matches Err(e) && e is InvalidFormat),
            header@.len() >= 8 && !spec_has_magic(header@) ==> (r matches Err(e)
                && e is InvalidFormat),
            header@.len() >= 8 && spec_has_magic(header@) ==> match r {
                Ok(v) => header@[7] == v.spec_header_byte(),
                Err(e) => e matches ArchiverError::UnsupportedVersion(b) && b == header@[7]
                    && header@[7] != 1 && header@[7] != 3,
            },
    {
        if header.len() < 8 {
            return Err(ArchiverError::invalid_format("archive header is shorter than 8 bytes"));
        }
        if !(header[0] == 0x52 && header[1] == 0x47 && header[2] == 0x53 && header[3] == 0x53
            && header[4] == 0x41 && header[5] == 0x44 && header[6] == 0x00) {
            assert(header@.subrange(0, 7) != spec_magic());
            return Err(ArchiverError::invalid_format("not a valid RGSS archive: invalid magic bytes"));
        }
        assert(header@.subrange(0, 7) =~= spec_magic());
        match header[7] {
            1u8 => Ok(RgssVersion::V1),
            3u8 => Ok(RgssVersion::V3),
            v => Err(ArchiverError::UnsupportedVersion(v)),
        }
    }

    /// The file extension for this version.
    pub fn extension(&self) -> (r: &'static str)
        ensures
            *self is V1 ==> r@ == "rgssad"@,
            *self is V3 ==> r@ == "rgss3a"@,
    {
        match self {
            RgssVersion::V1 => "rgssad",
            RgssVersion::V3 => "rgss3a",
        }
    }

    /// The names of the RPG Maker releases that use this archive format.
    pub fn rpg_maker_versions(&self) -> (r: Vec<&'static str>)
        ensures
            *self is V1 ==> r@.len() == 2 && r@[0]@ == "RPG Maker XP"@ && r@[1]@
                == "RPG Maker VX"@,
            *self is V3 ==> r@.len() == 1 && r@[0]@ == "RPG Maker VX Ace"@,
    {
        match self {
            RgssVersion::V1 => {
                let mut v: Vec<&'static str> = Vec::new();
                v.push("RPG Maker XP");
                v.push("RPG Maker VX");
                v
            },
            RgssVersion::V3 => {
                let mut v: Vec<&'static str> = Vec::new();
                v.push("RPG Maker VX Ace");
                v
            },
        }
    }

    /// The version byte for the archive header.
    pub fn header_byte(&self) -> (r: u8)
        ensures
            r == self.spec_header_byte(),
    {
        match self {
            RgssVersion::V1 => 1,
            RgssVersion::V3 => 3,
        }
    }

    /// A human-readable description of the version.
    pub fn description(&self) -> (r: &'static str)
        ensures
            *self is V1 ==> r@ == "RGSS V1 (XP/VX)"@,
            *self is V3 ==> r@ == "RGSS V3 (VX Ace)"@,
    {
        match self {
            RgssVersion::V1 => "RGSS V1 (XP/VX)",
            RgssVersion::V3 => "RGSS V3 (VX Ace)",
        }
    }
}

} // verus!
