//! RGSS archive reader: parses the entry table of an in-memory archive and
//! decrypts single payloads on demand.  Opening files and writing extracted
//! payloads to disk belong to the caller.

use vstd::prelude::*;
use vstd::slice::slice_subrange;

use crate::archiver::ArchiverError;
use crate::rgss::entry::RgssEntry;
use crate::rgss::format::{
    spec_read_v1, spec_read_v3_table, spec_u32_of_le, EntryModel, V1_INITIAL_KEY, V1_NAME_CEILING,
};
use crate::rgss::key::{spec_step, RgssKey};
use crate::rgss::version::{spec_has_magic, RgssVersion};
use crate::strutil::bytes_to_string_lossy;

verus! {

/// The parsed entries agree with the entry models: sizes, offsets and
/// payload seeds are equal, and each name whose bytes are valid UTF-8 is
/// decoded exactly (invalid names go through a lossy decoding that is not
/// specified further).
pub open spec fn spec_entries_match(es: Seq<RgssEntry>, ms: Seq<EntryModel>) -> bool {
    &&& es.len() == ms.len()
    &&& forall|j: int|
        0 <= j < es.len() ==> {
            &&& (vstd::utf8::valid_utf8(ms[j].name) ==> (#[trigger] es[j]).name@
                == vstd::utf8::decode_utf8(ms[j].name))
            &&& es[j].size == ms[j].size
            &&& es[j].offset == ms[j].offset
            &&& es[j].key == ms[j].key
        }
}

/// What opening an archive yields: the version and the entry models, or
/// nothing where the reader reports an error.
pub open spec fn spec_open_result(data: Seq<u8>) -> Option<(RgssVersion, Seq<EntryModel>)> {
    if data.len() < 8 || !spec_has_magic(data) {
        None
    } else if data[7] == 1 {
        Some((RgssVersion::V1, spec_read_v1(data.skip(8), 8, V1_INITIAL_KEY)))
    } else if data[7] == 3 {
        if data.len() < 12 {
            None
        } else {
            match spec_read_v3_table(
                data.skip(12),
                spec_step(spec_u32_of_le(data.subrange(8, 12)), 9, 3),
            ) {
                Some(t) => Some((RgssVersion::V3, t)),
                None => None,
            }
        }
    } else {
        None
    }
}

/// RGSS archive reader holding the version and the parsed entry table.
pub struct RgssReader {
    version: RgssVersion,
    entries: Vec<RgssEntry>,
}

impl RgssReader {
    /// Parse the entry table of a V1 archive body.
    #[verifier::spinoff_prover]
    #[verifier::rlimit(100)]
    fn read_v1(data: &[u8]) -> (r: Vec<RgssEntry>)
        requires
            data@.len() >= 8,
        ensures
            spec_entries_match(r@, spec_read_v1(data@.skip(8), 8, V1_INITIAL_KEY)),
    {
        let ghost target = spec_read_v1(data@.skip(8), 8, V1_INITIAL_KEY);
        let mut entries: Vec<RgssEntry> = Vec::new();
        let mut key = RgssKey::with_state(RgssVersion::V1, V1_INITIAL_KEY);
        let mut pos: usize = 8;
        let ghost mut processed: Seq<EntryModel> = Seq::empty();
        loop
            invariant_except_break
                8 <= pos <= data@.len(),
                key.multiplier_spec() == 7,
                key.accumulator_spec() == 3,
                spec_entries_match(entries@, processed),
                processed + spec_read_v1(data@.skip(pos as int), pos as nat, key.state_spec())
                    == target,
            ensures
                spec_entries_match(entries@, target),
            decreases data@.len() - pos,
        {
            let ghost k_old = key.state_spec();
            let ghost rest = data@.skip(pos as int);
            if data.len() - pos < 4 {
                proof {
                    assert(spec_read_v1(rest, pos as nat, k_old) =~= Seq::<EntryModel>::empty());
                    assert(processed + Seq::<EntryModel>::empty() =~= processed);
                }
                break ;
            }
            let len_bytes = slice_subrange(data, pos, pos + 4);
            assert(len_bytes@ =~= rest.subrange(0, 4));
            let name_len_u32 = key.decrypt_int(vstd::bytes::u32_from_le_bytes(len_bytes));
            if name_len_u32 == 0 || name_len_u32 > V1_NAME_CEILING {
                proof {
                    assert(spec_read_v1(rest, pos as nat, k_old) =~= Seq::<EntryModel>::empty());
                    assert(processed + Seq::<EntryModel>::empty() =~= processed);
                }
                break ;
            }
            let name_len = name_len_u32 as usize;
            if data.len() - pos < 8 + name_len {
                proof {
                    assert(spec_read_v1(rest, pos as nat, k_old) =~= Seq::<EntryModel>::empty());
                    assert(processed + Seq::<EntryModel>::empty() =~= processed);
                }
                break ;
            }
            let name_bytes = slice_subrange(data, pos + 4, pos + 4 + name_len);
            assert(name_bytes@ =~= rest.subrange(4, 4 + name_len as int));
            let decrypted_name = key.decrypt_string_v1(name_bytes);
            let name = bytes_to_string_lossy(decrypted_name.as_slice());
            let size_bytes = slice_subrange(data, pos + 4 + name_len, pos + 8 + name_len);
            assert(size_bytes@ =~= rest.subrange(4 + name_len as int, 8 + name_len as int));
            let size = key.decrypt_int(vstd::bytes::u32_from_le_bytes(size_bytes));
            let offset = pos + 8 + name_len;
            let file_key = key.current();
            let available = data.len() - offset;
            let skip: usize = if size as usize <= available {
                size as usize
            } else {
                available
            };
            let ghost model = EntryModel {
                name: decrypted_name@,
                size,
                offset: offset as nat,
                key: file_key,
            };
            entries.push(
                RgssEntry { name, size, offset: offset as u64, key: file_key },
            );
            proof {
                assert(spec_read_v1(rest, pos as nat, k_old) == seq![model] + spec_read_v1(
                    rest.skip(8 + name_len as int + skip as int),
                    (pos + 8 + name_len + skip) as nat,
                    key.state_spec(),
                ));
                assert(rest.skip(8 + name_len as int + skip as int) =~= data@.skip(
                    (pos + 8 + name_len + skip) as int,
                ));
                processed = processed + seq![model];
                assert(processed + spec_read_v1(
                    data@.skip((pos + 8 + name_len + skip) as int),
                    (pos + 8 + name_len + skip) as nat,
                    key.state_spec(),
                ) =~= target);
            }
            pos = offset + skip;
        }
        entries
    }

    /// Parse the entry table of a V3 archive body; fails on a truncated
    /// table.
    #[verifier::spinoff_prover]
    #[verifier::rlimit(100)]
    fn read_v3(data: &[u8]) -> (r: Result<Vec<RgssEntry>, ArchiverError>)
        requires
            data@.len() >= 12,
        ensures
            ({
                let k0 = spec_step(spec_u32_of_le(data@.subrange(8, 12)), 9, 3);
                match r {
                    Ok(es) => spec_read_v3_table(data@.skip(12), k0) matches Some(ms)
                        && spec_entries_match(es@, ms),
                    Err(e) => spec_read_v3_table(data@.skip(12), k0) is None
                        && e is InvalidFormat,
                }
            }),
    {
        let seed_bytes = slice_subrange(data, 8, 12);
        assert(seed_bytes@ =~= data@.subrange(8, 12));
        let initial_key = vstd::bytes::u32_from_le_bytes(seed_bytes);
        let mut key = RgssKey::with_state(RgssVersion::V3, initial_key);
        key.step();
        let ghost k0 = key.state_spec();
        let ghost target = spec_read_v3_table(data@.skip(12), k0);
        let mut entries: Vec<RgssEntry> = Vec::new();
        let mut pos: usize = 12;
        let ghost mut processed: Seq<EntryModel> = Seq::empty();
        let mut truncated = false;
        loop
            invariant_except_break
                12 <= pos <= data@.len(),
                key.multiplier_spec() == 9,
                key.accumulator_spec() == 3,
                spec_entries_match(entries@, processed),
                !truncated,
                match spec_read_v3_table(data@.skip(pos as int), key.state_spec()) {
                    Some(t) => target == Some(processed + t),
                    None => target is None,
                },
            ensures
                if truncated {
                    target is None
                } else {
                    target matches Some(ms) && spec_entries_match(entries@, ms)
                },
            decreases data@.len() - pos,
        {
            let ghost k_old = key.state_spec();
            let ghost rest = data@.skip(pos as int);
            if data.len() - pos < 4 {
                proof {
                    assert(processed + Seq::<EntryModel>::empty() =~= processed);
                }
                break ;
            }
            let off_bytes = slice_subrange(data, pos, pos + 4);
            assert(off_bytes@ =~= rest.subrange(0, 4));
            let off = key.decrypt_int(vstd::bytes::u32_from_le_bytes(off_bytes));
            if off == 0 {
                proof {
                    assert(processed + Seq::<EntryModel>::empty() =~= processed);
                }
                break ;
            }
            if data.len() - pos < 16 {
                truncated = true;
                break ;
            }
            let size_bytes = slice_subrange(data, pos + 4, pos + 8);
            assert(size_bytes@ =~= rest.subrange(4, 8));
            let size = key.decrypt_int(vstd::bytes::u32_from_le_bytes(size_bytes));
            let fkey_bytes = slice_subrange(data, pos + 8, pos + 12);
            assert(fkey_bytes@ =~= rest.subrange(8, 12));
            let file_key = key.decrypt_int(vstd::bytes::u32_from_le_bytes(fkey_bytes));
            let nlen_bytes = slice_subrange(data, pos + 12, pos + 16);
            assert(nlen_bytes@ =~= rest.subrange(12, 16));
            let name_len_u32 = key.decrypt_int(vstd::bytes::u32_from_le_bytes(nlen_bytes));
            let name_len = name_len_u32 as usize;
            if data.len() - pos - 16 < name_len {
                truncated = true;
                break ;
            }
            let name_bytes = slice_subrange(data, pos + 16, pos + 16 + name_len);
            assert(name_bytes@ =~= rest.subrange(16, 16 + name_len as int));
            let decrypted_name = key.decrypt_string_v3(name_bytes);
            let name = bytes_to_string_lossy(decrypted_name.as_slice());
            let ghost model = EntryModel {
                name: decrypted_name@,
                size,
                offset: off as nat,
                key: file_key,
            };
            entries.push(
                RgssEntry { name, size, offset: off as u64, key: file_key },
            );
            proof {
                assert(rest.skip(16 + name_len as int) =~= data@.skip(
                    (pos + 16 + name_len) as int,
                ));
                processed = processed + seq![model];
                let next = spec_read_v3_table(
                    data@.skip((pos + 16 + name_len) as int),
                    key.state_spec(),
                );
                if next is Some {
                    let t = next.unwrap();
                    assert((processed.drop_last() + (seq![model] + t)) =~= processed + t);
                }
            }
            pos = pos + 16 + name_len;
        }
        if truncated {
            Err(ArchiverError::invalid_format("truncated V3 entry table"))
        } else {
            Ok(entries)
        }
    }

    /// Open an archive held in memory: detect the version from the header
    /// and parse the entry table.
    pub fn open(data: &[u8]) -> (r: Result<RgssReader, ArchiverError>)
        ensures
            match r {
                Ok(reader) => spec_open_result(data@) matches Some((v, ms)) && reader.version_spec()
                    == v && spec_entries_match(reader.entries_spec(), ms),
                Err(e) => spec_open_result(data@) is None && (e is InvalidFormat
                    || (e matches ArchiverError::UnsupportedVersion(b) && data@.len() >= 8
                        && b == data@[7])),
            },
    {
        let version = match RgssVersion::detect_from_header(data) {
            Ok(v) => v,
            Err(e) => {
                return Err(e);
            },
        };
        match version {
            RgssVersion::V1 => {
                let entries = Self::read_v1(data);
                Ok(RgssReader { version, entries })
            },
            RgssVersion::V3 => {
                if data.len() < 12 {
                    return Err(
                        ArchiverError::invalid_format("archive is too short for a V3 seed"),
                    );
                }
                let entries = Self::read_v3(data)?;
                Ok(RgssReader { version, entries })
            },
        }
    }

    /// The archive version, as seen by specifications.
    pub closed spec fn version_spec(&self) -> RgssVersion {
        self.version
    }

    /// The parsed entries, as seen by specifications.
    pub closed spec fn entries_spec(&self) -> Seq<RgssEntry> {
        self.entries@
    }

    /// The archive version.
    pub fn version(&self) -> (r: RgssVersion)
        ensures
            r == self.version_spec(),
    {
        self.version
    }

    /// The entries of the archive, in archive order.
    pub fn entries(&self) -> (r: &Vec<RgssEntry>)
        ensures
            r@ == self.entries_spec(),
    {
        &self.entries
    }

    /// Decrypt one entry's payload out of the archive bytes.  Fails when
    /// the entry's payload region runs past the end of the data.
    pub fn extract_to_memory(&self, data: &[u8], entry: &RgssEntry) -> (r: Result<
        Vec<u8>,
        ArchiverError,
    >)
        ensures
            match r {
                Ok(out) => entry.offset + entry.size <= data@.len() && out@
                    == crate::rgss::key::spec_xor_content(
                    entry.key,
                    crate::rgss::key::RgssKey::constants_for(self.version_spec()).0,
                    crate::rgss::key::RgssKey::constants_for(self.version_spec()).1,
                    data@.subrange(entry.offset as int, entry.offset + entry.size),
                ),
                Err(_) => entry.offset + entry.size > data@.len(),
            },
    {
        if entry.offset > data.len() as u64 || entry.size as u64 > data.len() as u64 - entry.offset {
            return Err(ArchiverError::invalid_format("entry payload runs past the archive end"));
        }
        let start = entry.offset as usize;
        let end = start + entry.size as usize;
        let payload = slice_subrange(data, start, end);
        let mut key = RgssKey::with_state(self.version, entry.key);
        let decrypted = key.decrypt_content(payload);
        Ok(decrypted)
    }
}

} // verus!
