//! RGSS archive writer: builds a complete archive in memory from a set of
//! (archive name, payload) entries.  Reading source files from disk and
//! writing the archive out belong to the caller.

use vstd::prelude::*;

use crate::archiver::ArchiverError;
use crate::rgss::format::{
    spec_v1_entry_wf, spec_v1_wf, spec_v3_offset, spec_v3_payloads, spec_v3_table,
    spec_v3_table_len_from, spec_v3_wf, spec_write_v1, spec_write_v1_from, spec_write_v3,
    PackModel, V1_INITIAL_KEY, V1_NAME_CEILING,
};
use crate::rgss::key::{spec_step, RgssKey};
use crate::rgss::version::RgssVersion;
use crate::strutil::{replace_char, spec_replace_char};

verus! {

/// One file queued for packing.
pub struct PackEntry {
    /// Name in the archive (backslash-separated, Windows style).
    pub archive_name: String,
    /// Raw file data.
    pub data: Vec<u8>,
}

impl PackEntry {
    /// The model the byte-format specifications speak about: the UTF-8
    /// bytes of the name and the payload bytes.
    pub open spec fn model(&self) -> PackModel {
        PackModel { name: vstd::utf8::encode_utf8(self.archive_name@), data: self.data@ }
    }
}

/// The models of a whole entry list.
pub open spec fn spec_models(entries: Seq<PackEntry>) -> Seq<PackModel> {
    entries.map(|_i: int, e: PackEntry| e.model())
}

/// RGSS archive writer.
pub struct RgssWriter {
    version: RgssVersion,
    entries: Vec<PackEntry>,
    v3_initial_key: Option<u32>,
}

impl RgssWriter {
    /// The target version, as seen by specifications.
    pub closed spec fn version_spec(&self) -> RgssVersion {
        self.version
    }

    /// The queued entries, as seen by specifications.
    pub closed spec fn entries_spec(&self) -> Seq<PackEntry> {
        self.entries@
    }

    /// The explicit V3 seed, as seen by specifications.
    pub closed spec fn v3_key_spec(&self) -> Option<u32> {
        self.v3_initial_key
    }

    /// Create a writer for the given version, with no entries queued.
    pub fn for_version(version: RgssVersion) -> (r: Self)
        ensures
            r.version_spec() == version,
            r.entries_spec().len() == 0,
            r.v3_key_spec() is None,
    {
        Self { version, entries: Vec::new(), v3_initial_key: None }
    }

    /// Set an explicit initial seed for V3 archives.  Without one, a seed
    /// is derived from the clock at write time, so repeated writes differ.
    pub fn with_v3_key(self, key: u32) -> (r: Self)
        ensures
            r.version_spec() == self.version_spec(),
            r.entries_spec() == self.entries_spec(),
            r.v3_key_spec() == Some(key),
    {
        Self { version: self.version, entries: self.entries, v3_initial_key: Some(key) }
    }

    /// Queue one entry.  Forward slashes in the archive name are
    /// normalised to backslashes, as the formats expect.
    pub fn add_entry(&mut self, archive_name: &str, data: Vec<u8>)
        ensures
            final(self).version_spec() == old(self).version_spec(),
            final(self).v3_key_spec() == old(self).v3_key_spec(),
            final(self).entries_spec().len() == old(self).entries_spec().len() + 1,
            final(self).entries_spec().last().archive_name@ == spec_replace_char(
                archive_name@,
                '/',
                '\\',
            ),
            final(self).entries_spec().last().data@ == data@,
            final(self).entries_spec().take(old(self).entries_spec().len() as int) == old(self).entries_spec(),
    {
        let normalized = replace_char(archive_name, '/', '\\');
        self.entries.push(PackEntry { archive_name: normalized, data });
        assert(final(self).entries_spec().take(old(self).entries_spec().len() as int)
            =~= old(self).entries_spec());
    }

    /// Write a V1 archive.
    #[verifier::spinoff_prover]
    #[verifier::rlimit(100)]
    fn write_v1(&self) -> (r: Vec<u8>)
        requires
            spec_v1_wf(spec_models(self.entries_spec())),
        ensures
            r@ == spec_write_v1(spec_models(self.entries_spec())),
    {
        let ghost models = spec_models(self.entries_spec());
        let ghost target = spec_write_v1(models);
        let mut out: Vec<u8> = Vec::new();
        out.push(0x52);
        out.push(0x47);
        out.push(0x53);
        out.push(0x53);
        out.push(0x41);
        out.push(0x44);
        out.push(0x00);
        out.push(0x01);
        proof {
            assert(out@ =~= crate::rgss::version::spec_magic() + seq![1u8]);
        }
        let mut key = RgssKey::with_state(RgssVersion::V1, V1_INITIAL_KEY);
        let mut i: usize = 0;
        let n = self.entries.len();
        while i < n
            invariant
                i <= n,
                n == self.entries_spec().len(),
                models == spec_models(self.entries_spec()),
                spec_v1_wf(models),
                key.multiplier_spec() == 7,
                key.accumulator_spec() == 3,
                out@ + spec_write_v1_from(models, i as int, key.state_spec()) == target,
            decreases n - i,
        {
            let entry = &self.entries[i];
            let ghost k0 = key.state_spec();
            assert(models[i as int] == entry.model());
            assert(spec_v1_entry_wf(models[i as int]));
            let name_bytes = entry.archive_name.as_str().as_bytes_vec();
            let enc_len = key.encrypt_int(name_bytes.len() as u32);
            let mut enc_len_bytes = vstd::bytes::u32_to_le_bytes(enc_len);
            out.append(&mut enc_len_bytes);
            let mut enc_name = key.encrypt_string_v1(name_bytes.as_slice());
            out.append(&mut enc_name);
            let enc_size = key.encrypt_int(entry.data.len() as u32);
            let mut enc_size_bytes = vstd::bytes::u32_to_le_bytes(enc_size);
            out.append(&mut enc_size_bytes);
            let mut content_key = RgssKey::with_state(RgssVersion::V1, key.current());
            let mut enc_data = content_key.encrypt_content(entry.data.as_slice());
            out.append(&mut enc_data);
            proof {
                vstd::bytes::lemma_auto_spec_u32_to_from_le_bytes();
                assert(out@ + spec_write_v1_from(models, i as int + 1, key.state_spec())
                    =~= target);
            }
            i = i + 1;
        }
        proof {
            assert(out@ =~= target);
        }
        out
    }

    /// Total size of the V3 table records, end marker not included.
    fn v3_table_size(&self) -> (r: u64)
        requires
            spec_v3_wf(spec_models(self.entries_spec())),
        ensures
            r == spec_v3_table_len_from(spec_models(self.entries_spec()), 0),
            r <= 0xFFFF_FFFFu64,
    {
        let ghost models = spec_models(self.entries_spec());
        let n = self.entries.len();
        let mut table_size: u64 = 0;
        let mut i: usize = n;
        while i > 0
            invariant
                i <= n,
                n == self.entries_spec().len(),
                models == spec_models(self.entries_spec()),
                spec_v3_wf(models),
                table_size == spec_v3_table_len_from(models, i as int),
                table_size <= 0xFFFF_FFFFu64,
            decreases i,
        {
            i = i - 1;
            assert(models[i as int] == self.entries_spec()[i as int].model());
            assert(spec_v1_entry_wf(models[i as int]));
            let name_len = self.entries[i].archive_name.as_str().as_bytes().len();
            proof {
                crate::rgss::format::lemma_v3_table_bound(models, i as int);
            }
            table_size = table_size + 16 + name_len as u64;
        }
        table_size
    }

    /// Write a V3 archive with the given initial seed.
    #[verifier::spinoff_prover]
    #[verifier::rlimit(100)]
    fn write_v3(&self, seed: u32) -> (r: Vec<u8>)
        requires
            spec_v3_wf(spec_models(self.entries_spec())),
        ensures
            r@ == spec_write_v3(spec_models(self.entries_spec()), seed),
    {
        let ghost models = spec_models(self.entries_spec());
        let ghost target = spec_write_v3(models, seed);
        let n = self.entries.len();
        let table_size = self.v3_table_size();
        let first_off: u64 = 16 + table_size;
        proof {
            assert(first_off == spec_v3_offset(models, 0));
            crate::rgss::format::lemma_v3_offset_bounded(models, 0);
        }
        let mut out: Vec<u8> = Vec::new();
        out.push(0x52);
        out.push(0x47);
        out.push(0x53);
        out.push(0x53);
        out.push(0x41);
        out.push(0x44);
        out.push(0x00);
        out.push(0x03);
        let mut seed_bytes = vstd::bytes::u32_to_le_bytes(seed);
        out.append(&mut seed_bytes);
        proof {
            vstd::bytes::lemma_auto_spec_u32_to_from_le_bytes();
            assert(out@ =~= crate::rgss::version::spec_magic() + seq![3u8]
                + crate::rgss::format::spec_u32_le(seed));
        }
        let mut key = RgssKey::with_state(RgssVersion::V3, seed);
        key.step();
        // table records
        let mut off: u64 = first_off;
        let mut i: usize = 0;
        while i < n
            invariant
                i <= n,
                n == self.entries_spec().len(),
                models == spec_models(self.entries_spec()),
                spec_v3_wf(models),
                key.multiplier_spec() == 9,
                key.accumulator_spec() == 3,
                off == spec_v3_offset(models, i as int),
                off + 1 <= 0xFFFF_FFFFu64,
                out@ + spec_v3_table(models, i as int, seed, key.state_spec())
                    + spec_v3_payloads(models, 0, seed) == target,
            decreases n - i,
        {
            let entry = &self.entries[i];
            assert(models[i as int] == entry.model());
            assert(spec_v1_entry_wf(models[i as int]));
            proof {
                crate::rgss::format::lemma_v3_offset_bounded(models, i as int);
            }
            let name_bytes = entry.archive_name.as_str().as_bytes_vec();
            let enc_off = key.encrypt_int(off as u32);
            let mut b = vstd::bytes::u32_to_le_bytes(enc_off);
            out.append(&mut b);
            let enc_size = key.encrypt_int(entry.data.len() as u32);
            let mut b = vstd::bytes::u32_to_le_bytes(enc_size);
            out.append(&mut b);
            let file_key = seed.wrapping_mul((off as u32).wrapping_add(1));
            let enc_key = key.encrypt_int(file_key);
            let mut b = vstd::bytes::u32_to_le_bytes(enc_key);
            out.append(&mut b);
            let enc_name_len = key.encrypt_int(name_bytes.len() as u32);
            let mut b = vstd::bytes::u32_to_le_bytes(enc_name_len);
            out.append(&mut b);
            let mut enc_name = key.encrypt_string_v3(name_bytes.as_slice());
            out.append(&mut enc_name);
            proof {
                vstd::bytes::lemma_auto_spec_u32_to_from_le_bytes();
                assert(file_key == crate::rgss::format::spec_v3_key(models, seed, i as int));
                assert(out@ + spec_v3_table(models, i as int + 1, seed, key.state_spec())
                    + spec_v3_payloads(models, 0, seed) =~= target);
                crate::rgss::format::lemma_v3_offset_bounded(models, i as int + 1);
            }
            off = off + entry.data.len() as u64;
            i = i + 1;
        }
        // end marker
        let enc_end = key.encrypt_int(0);
        let mut b = vstd::bytes::u32_to_le_bytes(enc_end);
        out.append(&mut b);
        proof {
            vstd::bytes::lemma_auto_spec_u32_to_from_le_bytes();
            assert(out@ + spec_v3_payloads(models, 0, seed) =~= target);
        }
        // payloads
        proof {
            crate::rgss::format::lemma_v3_offset_bounded(models, 0);
        }
        let mut off: u64 = first_off;
        let mut i: usize = 0;
        while i < n
            invariant
                i <= n,
                n == self.entries_spec().len(),
                models == spec_models(self.entries_spec()),
                spec_v3_wf(models),
                off == spec_v3_offset(models, i as int),
                off + 1 <= 0xFFFF_FFFFu64,
                out@ + spec_v3_payloads(models, i as int, seed) == target,
            decreases n - i,
        {
            let entry = &self.entries[i];
            assert(models[i as int] == entry.model());
            proof {
                crate::rgss::format::lemma_v3_offset_bounded(models, i as int);
            }
            let file_key = seed.wrapping_mul((off as u32).wrapping_add(1));
            let mut content_key = RgssKey::with_state(RgssVersion::V3, file_key);
            let mut enc_data = content_key.encrypt_content(entry.data.as_slice());
            out.append(&mut enc_data);
            proof {
                assert(file_key == crate::rgss::format::spec_v3_key(models, seed, i as int));
                assert(out@ + spec_v3_payloads(models, i as int + 1, seed) =~= target);
                crate::rgss::format::lemma_v3_offset_bounded(models, i as int + 1);
            }
            off = off + entry.data.len() as u64;
            i = i + 1;
        }
        proof {
            assert(out@ =~= target);
        }
        out
    }

    /// Serialize the archive.  Fails when an entry's name is empty or
    /// longer than the reader's 1024-byte ceiling, a payload does not fit
    /// the 32-bit size field, or (for V3) the payload region runs past
    /// what a 32-bit offset can address; the archive bytes are returned
    /// otherwise.
    pub fn write(&self) -> (r: Result<Vec<u8>, ArchiverError>)
        ensures
            match r {
                Ok(bytes) => {
                    &&& self.version_spec() is V1 ==> spec_v1_wf(spec_models(self.entries_spec()))
                        && bytes@ == spec_write_v1(spec_models(self.entries_spec()))
                    &&& self.version_spec() is V3 ==> spec_v3_wf(spec_models(self.entries_spec()))
                        && (match self.v3_key_spec() {
                        Some(k) => bytes@ == spec_write_v3(spec_models(self.entries_spec()), k),
                        None => exists|seed: u32|
                            bytes@ == spec_write_v3(spec_models(self.entries_spec()), seed),
                    })
                },
                Err(_) => match self.version_spec() {
                    RgssVersion::V1 => !spec_v1_wf(spec_models(self.entries_spec())),
                    RgssVersion::V3 => !spec_v3_wf(spec_models(self.entries_spec())),
                },
            },
    {
        let ghost models = spec_models(self.entries_spec());
        if !self.check_entries_wf() {
            return Err(
                ArchiverError::EncryptionError(
                    String::from_str("entry name or payload size out of range"),
                ),
            );
        }
        match self.version {
            RgssVersion::V1 => Ok(self.write_v1()),
            RgssVersion::V3 => {
                if !self.check_v3_total() {
                    return Err(
                        ArchiverError::EncryptionError(
                            String::from_str("archive too large for 32-bit offsets"),
                        ),
                    );
                }
                let seed = match self.v3_initial_key {
                    Some(k) => k,
                    None => {
                        let t = crate::clock::now_unix();
                        proof {
                            assert(0 <= (t & 0xFFFF_FFFFi64) < 0x1_0000_0000i64) by (bit_vector);
                        }
                        ((t & 0xFFFF_FFFFi64) as u32) ^ 0x8E73A5C1
                    },
                };
                let bytes = self.write_v3(seed);
                proof {
                    assert(bytes@ == spec_write_v3(spec_models(self.entries_spec()), seed));
                }
                Ok(bytes)
            },
        }
    }

    /// Check every entry against the per-entry limits of the formats.
    fn check_entries_wf(&self) -> (r: bool)
        ensures
            r == spec_v1_wf(spec_models(self.entries_spec())),
    {
        let ghost models = spec_models(self.entries_spec());
        let n = self.entries.len();
        let mut i: usize = 0;
        while i < n
            invariant
                i <= n,
                n == self.entries_spec().len(),
                models == spec_models(self.entries_spec()),
                forall|j: int| 0 <= j < i ==> spec_v1_entry_wf(#[trigger] models[j]),
            decreases n - i,
        {
            let entry = &self.entries[i];
            assert(models[i as int] == entry.model());
            let name_len = entry.archive_name.as_str().as_bytes().len();
            if name_len == 0 || name_len > V1_NAME_CEILING as usize {
                assert(!spec_v1_entry_wf(models[i as int]));
                return false;
            }
            if entry.data.len() as u64 > 0xFFFF_FFFFu64 {
                assert(!spec_v1_entry_wf(models[i as int]));
                return false;
            }
            assert(spec_v1_entry_wf(models[i as int]));
            i = i + 1;
        }
        true
    }

    /// Check the V3 total-size limit: the end of the payload region must
    /// stay addressable by a 32-bit offset.  Expects per-entry limits to
    /// have been checked already.
    fn check_v3_total(&self) -> (r: bool)
        requires
            spec_v1_wf(spec_models(self.entries_spec())),
        ensures
            r == spec_v3_wf(spec_models(self.entries_spec())),
    {
        let ghost models = spec_models(self.entries_spec());
        let n = self.entries.len();
        // table length
        let mut table_size: u64 = 0;
        let mut i: usize = n;
        while i > 0
            invariant
                i <= n,
                n == self.entries_spec().len(),
                models == spec_models(self.entries_spec()),
                spec_v1_wf(models),
                table_size == spec_v3_table_len_from(models, i as int),
                table_size <= 0xFFFF_FFFF_FFFFu64,
            decreases i,
        {
            i = i - 1;
            assert(models[i as int] == self.entries_spec()[i as int].model());
            assert(spec_v1_entry_wf(models[i as int]));
            let name_len = self.entries[i].archive_name.as_str().as_bytes().len();
            if table_size > 0xFFFF_FFFFu64 {
                proof {
                    if spec_v3_wf(models) {
                        crate::rgss::format::lemma_v3_table_bound(models, i as int + 1);
                    }
                }
                return false;
            }
            table_size = table_size + 16 + name_len as u64;
        }
        if table_size > 0xFFFF_FFFFu64 {
            proof {
                if spec_v3_wf(models) {
                    crate::rgss::format::lemma_v3_table_bound(models, 0);
                }
            }
            return false;
        }
        // end of payload region
        let mut end: u64 = 16 + table_size;
        assert(end == spec_v3_offset(models, 0));
        let mut i: usize = 0;
        while i < n
            invariant
                i <= n,
                n == self.entries_spec().len(),
                models == spec_models(self.entries_spec()),
                spec_v1_wf(models),
                end == spec_v3_offset(models, i as int),
                end <= 0xFFFF_FFFEu64 + 0xFFFF_FFFFu64,
            decreases n - i,
        {
            if end > 0xFFFF_FFFEu64 {
                proof {
                    if spec_v3_wf(models) {
                        crate::rgss::format::lemma_v3_offset_bounded(models, i as int);
                    }
                }
                return false;
            }
            let entry = &self.entries[i];
            assert(models[i as int] == entry.model());
            assert(spec_v1_entry_wf(models[i as int]));
            end = end + entry.data.len() as u64;
            i = i + 1;
        }
        if end > 0xFFFF_FFFEu64 {
            return false;
        }
        true
    }
}

} // verus!
