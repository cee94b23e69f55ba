//! Byte-level specification of the two RGSS archive layouts.
//!
//! V1 (XP / VX) is a sequence of records `enc_u32 name_len, enc name,
//! enc_u32 size, payload` encrypted with one keystream seeded at
//! `0xDEADCAFE`; each payload is encrypted with a fresh keystream seeded at
//! the state reached right after its size field.
//!
//! V3 (VX Ace) stores a plain initial seed, then a table of
//! `enc_u32 offset, enc_u32 size, enc_u32 content_seed, enc_u32 name_len,
//! enc name` records closed by an encrypted zero offset, then the payload
//! region; each payload is encrypted with a keystream seeded at its
//! recorded content seed.

use vstd::prelude::*;

use crate::rgss::key::{
    spec_step, spec_step_n, spec_xor_content, spec_xor_string_v1, spec_xor_string_v3,
};
use crate::rgss::version::spec_magic;

verus! {

/// Initial keystream state for V1 archives.
pub const V1_INITIAL_KEY: u32 = 0xDEADCAFE;

/// The reader's ceiling on V1 name lengths: a decrypted length of zero or
/// above this value is taken as the end of the archive.
pub const V1_NAME_CEILING: u32 = 1024;

/// Ghost model of one entry as the reader sees it: the decrypted name
/// bytes, the payload size, the payload's absolute offset, and the
/// keystream seed for the payload.
pub ghost struct EntryModel {
    pub name: Seq<u8>,
    pub size: u32,
    pub offset: nat,
    pub key: u32,
}

/// Ghost model of one entry handed to the writer: the archive name bytes
/// and the raw payload.
pub ghost struct PackModel {
    pub name: Seq<u8>,
    pub data: Seq<u8>,
}

/// Little-endian bytes of a 32-bit value.
pub open spec fn spec_u32_le(x: u32) -> Seq<u8> {
    vstd::bytes::spec_u32_to_le_bytes(x)
}

/// The 32-bit value of four little-endian bytes.
pub open spec fn spec_u32_of_le(s: Seq<u8>) -> u32 {
    vstd::bytes::spec_u32_from_le_bytes(s)
}

/// An entry the V1 writer accepts: a name of 1 to 1024 bytes and a payload
/// whose size fits the 32-bit size field.
pub open spec fn spec_v1_entry_wf(e: PackModel) -> bool {
    1 <= e.name.len() <= V1_NAME_CEILING && e.data.len() <= u32::MAX
}

/// Whether every entry of a set is writable in the V1 layout.
pub open spec fn spec_v1_wf(entries: Seq<PackModel>) -> bool {
    forall|i: int| 0 <= i < entries.len() ==> spec_v1_entry_wf(#[trigger] entries[i])
}

/// The V1 record stream from entry `i` on, with main keystream state `k`.
pub open spec fn spec_write_v1_from(entries: Seq<PackModel>, i: int, k: u32) -> Seq<u8>
    decreases entries.len() - i,
{
    if i < 0 || i >= entries.len() {
        Seq::empty()
    } else {
        let name = entries[i].name;
        let data = entries[i].data;
        let k1 = spec_step(k, 7, 3);
        let k2 = spec_step_n(k1, 7, 3, name.len());
        let k3 = spec_step(k2, 7, 3);
        spec_u32_le((name.len() as u32) ^ k) + spec_xor_string_v1(k1, 7, 3, name) + spec_u32_le(
            (data.len() as u32) ^ k2,
        ) + spec_xor_content(k3, 7, 3, data) + spec_write_v1_from(entries, i + 1, k3)
    }
}

/// A complete V1 archive for the given entries.
pub open spec fn spec_write_v1(entries: Seq<PackModel>) -> Seq<u8> {
    spec_magic() + seq![1u8] + spec_write_v1_from(entries, 0, V1_INITIAL_KEY)
}

/// The entries a V1 reader recovers from `rest` (the bytes after the
/// 8-byte header), where `base` is the absolute offset of `rest` in the
/// archive and `k` the current keystream state.
pub open spec fn spec_read_v1(rest: Seq<u8>, base: nat, k: u32) -> Seq<EntryModel>
    decreases rest.len(),
{
    if rest.len() < 4 {
        Seq::empty()
    } else {
        let name_len_u32 = spec_u32_of_le(rest.subrange(0, 4)) ^ k;
        let k1 = spec_step(k, 7, 3);
        if name_len_u32 == 0 || name_len_u32 > V1_NAME_CEILING {
            Seq::empty()
        } else {
            let name_len = name_len_u32 as int;
            if rest.len() < 8 + name_len {
                Seq::empty()
            } else {
                let name = spec_xor_string_v1(k1, 7, 3, rest.subrange(4, 4 + name_len));
                let k2 = spec_step_n(k1, 7, 3, name_len as nat);
                let size = spec_u32_of_le(rest.subrange(4 + name_len, 8 + name_len)) ^ k2;
                let k3 = spec_step(k2, 7, 3);
                let available = rest.len() - 8 - name_len;
                let skip = if size <= available {
                    size as int
                } else {
                    available as int
                };
                let entry = EntryModel {
                    name,
                    size,
                    offset: (base + 8 + name_len) as nat,
                    key: k3,
                };
                seq![entry] + spec_read_v1(
                    rest.skip(8 + name_len + skip),
                    (base + 8 + name_len + skip) as nat,
                    k3,
                )
            }
        }
    }
}

/// XOR with the same 32-bit key twice is the identity.
proof fn lemma_xor_u32_involution(x: u32, k: u32)
    ensures
        (x ^ k) ^ k == x,
{
    assert((x ^ k) ^ k == x) by (bit_vector);
}

/// Reading back a V1 record stream written from entry `i` on recovers the
/// remaining entries: names and sizes in order, and each recorded payload
/// seed decrypts the payload bytes at the recorded offset to the original
/// data.
proof fn lemma_v1_read_write_from(entries: Seq<PackModel>, i: int, k: u32, base: nat)
    requires
        0 <= i <= entries.len(),
        spec_v1_wf(entries),
    ensures
        ({
            let bytes = spec_write_v1_from(entries, i, k);
            let read = spec_read_v1(bytes, base, k);
            &&& read.len() == entries.len() - i
            &&& forall|j: int|
                0 <= j < read.len() ==> {
                    &&& (#[trigger] read[j]).name == entries[i + j].name
                    &&& read[j].size == entries[i + j].data.len()
                    &&& read[j].offset + read[j].size <= base + bytes.len()
                    &&& read[j].offset >= base
                    &&& spec_xor_content(
                        read[j].key,
                        7,
                        3,
                        bytes.subrange(
                            read[j].offset - base,
                            read[j].offset - base + read[j].size,
                        ),
                    ) == entries[i + j].data
                }
        }),
    decreases entries.len() - i,
{
    let bytes = spec_write_v1_from(entries, i, k);
    let read = spec_read_v1(bytes, base, k);
    if i == entries.len() {
        assert(bytes.len() == 0);
    } else {
        let name = entries[i].name;
        let data = entries[i].data;
        let nl = name.len() as int;
        let k1 = spec_step(k, 7, 3);
        let k2 = spec_step_n(k1, 7, 3, name.len());
        let k3 = spec_step(k2, 7, 3);
        let enc_len = spec_u32_le((name.len() as u32) ^ k);
        let enc_name = spec_xor_string_v1(k1, 7, 3, name);
        let enc_size = spec_u32_le((data.len() as u32) ^ k2);
        let payload = spec_xor_content(k3, 7, 3, data);
        let rest_bytes = spec_write_v1_from(entries, i + 1, k3);
        assert(spec_v1_entry_wf(entries[i]));
        vstd::bytes::lemma_auto_spec_u32_to_from_le_bytes();
        assert(bytes =~= enc_len + enc_name + enc_size + payload + rest_bytes);
        assert(enc_len.len() == 4);
        assert(enc_name.len() == nl);
        assert(enc_size.len() == 4);
        assert(payload.len() == data.len());
        assert(bytes.len() == 8 + nl + data.len() + rest_bytes.len());
        assert(bytes.subrange(0, 4) =~= enc_len);
        let got_len = spec_u32_of_le(bytes.subrange(0, 4)) ^ k;
        lemma_xor_u32_involution(name.len() as u32, k);
        assert(got_len == name.len() as u32);
        assert(got_len != 0 && got_len <= V1_NAME_CEILING);
        assert(bytes.len() >= 8 + nl);
        assert(bytes.subrange(4, 4 + nl) =~= enc_name);
        crate::rgss::key::lemma_xor_string_v1_round_trip(k1, 7, 3, name);
        assert(spec_xor_string_v1(k1, 7, 3, bytes.subrange(4, 4 + nl)) == name);
        assert(bytes.subrange(4 + nl, 8 + nl) =~= enc_size);
        let got_size = spec_u32_of_le(bytes.subrange(4 + nl, 8 + nl)) ^ k2;
        lemma_xor_u32_involution(data.len() as u32, k2);
        assert(got_size == data.len() as u32);
        let available = bytes.len() - 8 - nl;
        assert(available == data.len() + rest_bytes.len());
        assert(got_size <= available);
        let skip = got_size as int;
        assert(bytes.skip(8 + nl + skip) =~= rest_bytes);
        let entry = EntryModel {
            name,
            size: got_size,
            offset: (base + 8 + nl) as nat,
            key: k3,
        };
        assert(read =~= seq![entry] + spec_read_v1(
            rest_bytes,
            (base + 8 + nl + skip) as nat,
            k3,
        ));
        lemma_v1_read_write_from(entries, i + 1, k3, (base + 8 + nl + skip) as nat);
        let read_rest = spec_read_v1(rest_bytes, (base + 8 + nl + skip) as nat, k3);
        assert(read.len() == entries.len() - i);
        // the head entry round-trips
        assert(bytes.subrange(8 + nl, 8 + nl + skip) =~= payload);
        crate::rgss::key::lemma_xor_content_round_trip(k3, 7, 3, data);
        assert(spec_xor_content(
            entry.key,
            7,
            3,
            bytes.subrange(entry.offset - base, entry.offset - base + entry.size),
        ) == data);
        // the tail entries round-trip, shifted by this record's length
        let shift = 8 + nl + skip;
        assert forall|j: int| 1 <= j < read.len() implies {
            &&& (#[trigger] read[j]).name == entries[i + j].name
            &&& read[j].size == entries[i + j].data.len()
            &&& read[j].offset + read[j].size <= base + bytes.len()
            &&& read[j].offset >= base
            &&& spec_xor_content(
                read[j].key,
                7,
                3,
                bytes.subrange(read[j].offset - base, read[j].offset - base + read[j].size),
            ) == entries[i + j].data
        } by {
            assert(read[j] == read_rest[j - 1]);
            assert(read_rest[j - 1].name == entries[i + j].name);
            let off = read_rest[j - 1].offset;
            let sz = read_rest[j - 1].size;
            assert(off >= base + shift);
            assert(off + sz <= base + shift + rest_bytes.len());
            assert(bytes.subrange(off - base, off - base + sz) =~= rest_bytes.subrange(
                off - (base + shift),
                off - (base + shift) + sz,
            ));
        }
    }
}

proof fn lemma_v1_read_write_from_tail(
    entries: Seq<PackModel>,
    i: int,
    k: u32,
    base: nat,
    extra: Seq<u8>,
)
    requires
        0 <= i <= entries.len(),
        spec_v1_wf(entries),
        extra.len() < 4,
    ensures
        ({
            let bytes = spec_write_v1_from(entries, i, k);
            let tb = bytes + extra;
            let read = spec_read_v1(tb, base, k);
            &&& read.len() == entries.len() - i
            &&& forall|j: int|
                0 <= j < read.len() ==> {
                    &&& (#[trigger] read[j]).name == entries[i + j].name
                    &&& read[j].size == entries[i + j].data.len()
                    &&& read[j].offset + read[j].size <= base + bytes.len()
                    &&& read[j].offset >= base
                    &&& spec_xor_content(
                        read[j].key,
                        7,
                        3,
                        tb.subrange(
                            read[j].offset - base,
                            read[j].offset - base + read[j].size,
                        ),
                    ) == entries[i + j].data
                }
        }),
    decreases entries.len() - i,
{
    let bytes = spec_write_v1_from(entries, i, k);
    let tb = bytes + extra;
    let read = spec_read_v1(tb, base, k);
    if i == entries.len() {
        assert(bytes.len() == 0);
        assert(tb =~= extra);
        assert(read.len() == 0);
    } else {
        let name = entries[i].name;
        let data = entries[i].data;
        let nl = name.len() as int;
        let k1 = spec_step(k, 7, 3);
        let k2 = spec_step_n(k1, 7, 3, name.len());
        let k3 = spec_step(k2, 7, 3);
        let enc_len = spec_u32_le((name.len() as u32) ^ k);
        let enc_name = spec_xor_string_v1(k1, 7, 3, name);
        let enc_size = spec_u32_le((data.len() as u32) ^ k2);
        let payload = spec_xor_content(k3, 7, 3, data);
        let rest_bytes = spec_write_v1_from(entries, i + 1, k3);
        assert(spec_v1_entry_wf(entries[i]));
        vstd::bytes::lemma_auto_spec_u32_to_from_le_bytes();
        assert(tb =~= enc_len + enc_name + enc_size + payload + (rest_bytes + extra));
        assert(enc_len.len() == 4);
        assert(enc_name.len() == nl);
        assert(enc_size.len() == 4);
        assert(payload.len() == data.len());
        assert(tb.len() == 8 + nl + data.len() + rest_bytes.len() + extra.len());
        assert(tb.subrange(0, 4) =~= enc_len);
        let got_len = spec_u32_of_le(tb.subrange(0, 4)) ^ k;
        lemma_xor_u32_involution(name.len() as u32, k);
        assert(got_len == name.len() as u32);
        assert(got_len != 0 && got_len <= V1_NAME_CEILING);
        assert(tb.len() >= 8 + nl);
        assert(tb.subrange(4, 4 + nl) =~= enc_name);
        crate::rgss::key::lemma_xor_string_v1_round_trip(k1, 7, 3, name);
        assert(spec_xor_string_v1(k1, 7, 3, tb.subrange(4, 4 + nl)) == name);
        assert(tb.subrange(4 + nl, 8 + nl) =~= enc_size);
        let got_size = spec_u32_of_le(tb.subrange(4 + nl, 8 + nl)) ^ k2;
        lemma_xor_u32_involution(data.len() as u32, k2);
        assert(got_size == data.len() as u32);
        let available = tb.len() - 8 - nl;
        assert(available == data.len() + rest_bytes.len() + extra.len());
        assert(got_size <= available);
        let skip = got_size as int;
        assert(tb.skip(8 + nl + skip) =~= rest_bytes + extra);
        let entry = EntryModel {
            name,
            size: got_size,
            offset: (base + 8 + nl) as nat,
            key: k3,
        };
        assert(read =~= seq![entry] + spec_read_v1(
            rest_bytes + extra,
            (base + 8 + nl + skip) as nat,
            k3,
        ));
        lemma_v1_read_write_from_tail(entries, i + 1, k3, (base + 8 + nl + skip) as nat, extra);
        let read_rest = spec_read_v1(rest_bytes + extra, (base + 8 + nl + skip) as nat, k3);
        assert(read.len() == entries.len() - i);
        assert(tb.subrange(8 + nl, 8 + nl + skip) =~= payload);
        crate::rgss::key::lemma_xor_content_round_trip(k3, 7, 3, data);
        assert(spec_xor_content(
            entry.key,
            7,
            3,
            tb.subrange(entry.offset - base, entry.offset - base + entry.size),
        ) == data);
        let shift = 8 + nl + skip;
        assert forall|j: int| 1 <= j < read.len() implies {
            &&& (#[trigger] read[j]).name == entries[i + j].name
            &&& read[j].size == entries[i + j].data.len()
            &&& read[j].offset + read[j].size <= base + bytes.len()
            &&& read[j].offset >= base
            &&& spec_xor_content(
                read[j].key,
                7,
                3,
                tb.subrange(read[j].offset - base, read[j].offset - base + read[j].size),
            ) == entries[i + j].data
        } by {
            assert(read[j] == read_rest[j - 1]);
            assert(read_rest[j - 1].name == entries[i + j].name);
            let off = read_rest[j - 1].offset;
            let sz = read_rest[j - 1].size;
            assert(off >= base + shift);
            assert(off + sz <= base + shift + rest_bytes.len());
            assert(tb.subrange(off - base, off - base + sz) =~= (rest_bytes + extra).subrange(
                off - (base + shift),
                off - (base + shift) + sz,
            ));
        }
    }
}

/// A short read on the next length field is a benign end of archive:
/// reading a written V1 archive with one to three trailing bytes appended
/// after the last record still recovers exactly the written entries, with
/// the same names, sizes, offsets and per-entry keys.
pub proof fn lemma_v1_round_trip_partial_tail(entries: Seq<PackModel>, extra: Seq<u8>)
    requires
        spec_v1_wf(entries),
        extra.len() < 4,
    ensures
        ({
            let archive = spec_write_v1(entries) + extra;
            let read = spec_read_v1(archive.skip(8), 8, V1_INITIAL_KEY);
            &&& read.len() == entries.len()
            &&& forall|j: int|
                0 <= j < read.len() ==> {
                    &&& (#[trigger] read[j]).name == entries[j].name
                    &&& read[j].size == entries[j].data.len()
                    &&& 8 <= read[j].offset && read[j].offset + read[j].size <= spec_write_v1(
                        entries,
                    ).len()
                    &&& spec_xor_content(
                        read[j].key,
                        7,
                        3,
                        archive.subrange(
                            read[j].offset as int,
                            read[j].offset + read[j].size,
                        ),
                    ) == entries[j].data
                }
        }),
{
    let archive = spec_write_v1(entries) + extra;
    let body = spec_write_v1_from(entries, 0, V1_INITIAL_KEY);
    assert(archive.skip(8) =~= body + extra);
    lemma_v1_read_write_from_tail(entries, 0, V1_INITIAL_KEY, 8, extra);
    let read = spec_read_v1(body + extra, 8, V1_INITIAL_KEY);
    assert forall|j: int| 0 <= j < read.len() implies {
        &&& (#[trigger] read[j]).name == entries[j].name
        &&& read[j].size == entries[j].data.len()
        &&& 8 <= read[j].offset && read[j].offset + read[j].size <= spec_write_v1(entries).len()
        &&& spec_xor_content(
            read[j].key,
            7,
            3,
            archive.subrange(read[j].offset as int, read[j].offset + read[j].size),
        ) == entries[j].data
    } by {
        assert(read[j].name == entries[j].name);
        let off = read[j].offset;
        let sz = read[j].size;
        assert(off + sz <= 8 + body.len());
        assert(spec_write_v1(entries).len() == 8 + body.len());
        assert(archive.subrange(off as int, off + sz) =~= (body + extra).subrange(
            off - 8,
            off - 8 + sz,
        ));
    }
}

/// Reading a whole written V1 archive recovers the entries in order, with
/// payload seeds that decrypt each payload region back to the original
/// bytes: the V1 round trip.
pub proof fn lemma_v1_round_trip(entries: Seq<PackModel>)
    requires
        spec_v1_wf(entries),
    ensures
        ({
            let archive = spec_write_v1(entries);
            let read = spec_read_v1(archive.skip(8), 8, V1_INITIAL_KEY);
            &&& read.len() == entries.len()
            &&& forall|j: int|
                0 <= j < read.len() ==> {
                    &&& (#[trigger] read[j]).name == entries[j].name
                    &&& read[j].size == entries[j].data.len()
                    &&& 8 <= read[j].offset && read[j].offset + read[j].size <= archive.len()
                    &&& spec_xor_content(
                        read[j].key,
                        7,
                        3,
                        archive.subrange(
                            read[j].offset as int,
                            read[j].offset + read[j].size,
                        ),
                    ) == entries[j].data
                }
        }),
{
    let archive = spec_write_v1(entries);
    let body = spec_write_v1_from(entries, 0, V1_INITIAL_KEY);
    assert(archive.skip(8) =~= body);
    lemma_v1_read_write_from(entries, 0, V1_INITIAL_KEY, 8);
    let read = spec_read_v1(body, 8, V1_INITIAL_KEY);
    assert forall|j: int| 0 <= j < read.len() implies {
        &&& (#[trigger] read[j]).name == entries[j].name
        &&& read[j].size == entries[j].data.len()
        &&& 8 <= read[j].offset && read[j].offset + read[j].size <= archive.len()
        &&& spec_xor_content(
            read[j].key,
            7,
            3,
            archive.subrange(read[j].offset as int, read[j].offset + read[j].size),
        ) == entries[j].data
    } by {
        assert(read[j].name == entries[j].name);
        let off = read[j].offset;
        let sz = read[j].size;
        assert(archive.subrange(off as int, off + sz) =~= body.subrange(
            off - 8,
            off - 8 + sz,
        ));
    }
}

/// Total size of the V3 table records from entry `i` on, end marker not
/// included: sixteen bytes of fields plus the name for each entry.
pub open spec fn spec_v3_table_len_from(entries: Seq<PackModel>, i: int) -> nat
    decreases entries.len() - i,
{
    if i < 0 || i >= entries.len() {
        0
    } else {
        (16 + entries[i].name.len() + spec_v3_table_len_from(entries, i + 1)) as nat
    }
}

/// Absolute offset of entry `i`'s payload in a V3 archive: the payload
/// region starts after the 12-byte head, the table and the 4-byte end
/// marker, and payloads are laid out in order.
pub open spec fn spec_v3_offset(entries: Seq<PackModel>, i: int) -> nat
    decreases i,
{
    if i <= 0 {
        (16 + spec_v3_table_len_from(entries, 0)) as nat
    } else {
        (spec_v3_offset(entries, i - 1) + entries[i - 1].data.len()) as nat
    }
}

/// The content seed the writer derives for entry `i`: the initial seed
/// multiplied by one more than the payload offset, with 32-bit wrap.
pub open spec fn spec_v3_key(entries: Seq<PackModel>, seed: u32, i: int) -> u32 {
    vstd::wrapping::u32_specs::wrapping_mul(seed, (spec_v3_offset(entries, i) + 1) as u32)
}

/// Entries writable in the V3 layout: each entry well formed, and the end
/// of the payload region still addressable by a 32-bit offset.
pub open spec fn spec_v3_wf(entries: Seq<PackModel>) -> bool {
    &&& forall|i: int| 0 <= i < entries.len() ==> spec_v1_entry_wf(#[trigger] entries[i])
    &&& spec_v3_offset(entries, entries.len() as int) + 1 <= u32::MAX
}

/// The V3 table from entry `i` on, closed by the encrypted zero marker,
/// with index keystream state `k`.
pub open spec fn spec_v3_table(entries: Seq<PackModel>, i: int, seed: u32, k: u32) -> Seq<u8>
    decreases entries.len() - i,
{
    if i < 0 || i >= entries.len() {
        spec_u32_le(0u32 ^ k)
    } else {
        let name = entries[i].name;
        let data = entries[i].data;
        let k1 = spec_step(k, 9, 3);
        let k2 = spec_step(k1, 9, 3);
        let k3 = spec_step(k2, 9, 3);
        let k4 = spec_step(k3, 9, 3);
        spec_u32_le((spec_v3_offset(entries, i) as u32) ^ k) + spec_u32_le(
            (data.len() as u32) ^ k1,
        ) + spec_u32_le(spec_v3_key(entries, seed, i) ^ k2) + spec_u32_le(
            (name.len() as u32) ^ k3,
        ) + spec_xor_string_v3(k4, name) + spec_v3_table(entries, i + 1, seed, k4)
    }
}

/// The V3 payload region from entry `i` on.
pub open spec fn spec_v3_payloads(entries: Seq<PackModel>, i: int, seed: u32) -> Seq<u8>
    decreases entries.len() - i,
{
    if i < 0 || i >= entries.len() {
        Seq::empty()
    } else {
        spec_xor_content(spec_v3_key(entries, seed, i), 9, 3, entries[i].data)
            + spec_v3_payloads(entries, i + 1, seed)
    }
}

/// A complete V3 archive for the given entries and initial seed.
pub open spec fn spec_write_v3(entries: Seq<PackModel>, seed: u32) -> Seq<u8> {
    spec_magic() + seq![3u8] + spec_u32_le(seed) + spec_v3_table(
        entries,
        0,
        seed,
        spec_step(seed, 9, 3),
    ) + spec_v3_payloads(entries, 0, seed)
}

/// The entries a V3 reader recovers from the table at the start of `rest`
/// (the bytes after the 12-byte head), with index keystream state `k`.
/// `None` stands for a truncated table, which the reader rejects.
pub open spec fn spec_read_v3_table(rest: Seq<u8>, k: u32) -> Option<Seq<EntryModel>>
    decreases rest.len(),
{
    if rest.len() < 4 {
        Some(Seq::empty())
    } else {
        let off = spec_u32_of_le(rest.subrange(0, 4)) ^ k;
        let k1 = spec_step(k, 9, 3);
        if off == 0 {
            Some(Seq::empty())
        } else if rest.len() < 16 {
            None
        } else {
            let size = spec_u32_of_le(rest.subrange(4, 8)) ^ k1;
            let k2 = spec_step(k1, 9, 3);
            let fkey = spec_u32_of_le(rest.subrange(8, 12)) ^ k2;
            let k3 = spec_step(k2, 9, 3);
            let nlen_u32 = spec_u32_of_le(rest.subrange(12, 16)) ^ k3;
            let k4 = spec_step(k3, 9, 3);
            let nlen = nlen_u32 as int;
            if rest.len() < 16 + nlen {
                None
            } else {
                let name = spec_xor_string_v3(k4, rest.subrange(16, 16 + nlen));
                let entry = EntryModel { name, size, offset: off as nat, key: fkey };
                match spec_read_v3_table(rest.skip(16 + nlen), k4) {
                    None => None,
                    Some(t) => Some(seq![entry] + t),
                }
            }
        }
    }
}

/// The table length only grows towards the front.
proof fn lemma_v3_table_len_monotone(entries: Seq<PackModel>, i: int)
    requires
        0 <= i <= entries.len(),
    ensures
        spec_v3_table_len_from(entries, i) <= spec_v3_table_len_from(entries, 0),
    decreases i,
{
    if i > 0 {
        lemma_v3_table_len_monotone(entries, i - 1);
    }
}

/// Payload offsets grow with the index.
proof fn lemma_v3_offset_monotone(entries: Seq<PackModel>, i: int, j: int)
    requires
        0 <= i <= j <= entries.len(),
    ensures
        spec_v3_offset(entries, i) <= spec_v3_offset(entries, j),
    decreases j - i,
{
    if i < j {
        lemma_v3_offset_monotone(entries, i, j - 1);
    }
}

/// Length of the table byte stream: the record bytes plus the marker.
proof fn lemma_v3_table_bytes_len(entries: Seq<PackModel>, i: int, seed: u32, k: u32)
    requires
        0 <= i <= entries.len(),
        forall|n: int| 0 <= n < entries.len() ==> spec_v1_entry_wf(#[trigger] entries[n]),
    ensures
        spec_v3_table(entries, i, seed, k).len() == spec_v3_table_len_from(entries, i) + 4,
    decreases entries.len() - i,
{
    vstd::bytes::lemma_auto_spec_u32_to_from_le_bytes();
    if i < entries.len() {
        let k1 = spec_step(k, 9, 3);
        let k2 = spec_step(k1, 9, 3);
        let k3 = spec_step(k2, 9, 3);
        let k4 = spec_step(k3, 9, 3);
        lemma_v3_table_bytes_len(entries, i + 1, seed, k4);
    }
}

/// Length of the payload region from entry `i` on.
proof fn lemma_v3_payloads_len(entries: Seq<PackModel>, i: int, seed: u32)
    requires
        0 <= i <= entries.len(),
    ensures
        spec_v3_payloads(entries, i, seed).len() == spec_v3_offset(entries, entries.len() as int)
            - spec_v3_offset(entries, i),
    decreases entries.len() - i,
{
    if i < entries.len() {
        lemma_v3_payloads_len(entries, i + 1, seed);
    }
}

/// Within the payload region starting at entry `i`, entry `j`'s chunk sits
/// at the offset difference and decrypts with its derived seed.
proof fn lemma_v3_payload_chunk(entries: Seq<PackModel>, i: int, j: int, seed: u32)
    requires
        0 <= i <= j < entries.len(),
    ensures
        ({
            let region = spec_v3_payloads(entries, i, seed);
            let lo = spec_v3_offset(entries, j) - spec_v3_offset(entries, i);
            &&& lo + entries[j].data.len() <= region.len()
            &&& region.subrange(lo, lo + entries[j].data.len()) == spec_xor_content(
                spec_v3_key(entries, seed, j),
                9,
                3,
                entries[j].data,
            )
        }),
    decreases j - i,
{
    lemma_v3_payloads_len(entries, i, seed);
    lemma_v3_payloads_len(entries, i + 1, seed);
    lemma_v3_offset_monotone(entries, j + 1, entries.len() as int);
    let region = spec_v3_payloads(entries, i, seed);
    let chunk = spec_xor_content(spec_v3_key(entries, seed, i), 9, 3, entries[i].data);
    let rest = spec_v3_payloads(entries, i + 1, seed);
    if i == j {
        assert(region.subrange(0, entries[i].data.len() as int) =~= chunk);
    } else {
        lemma_v3_payload_chunk(entries, i + 1, j, seed);
        lemma_v3_offset_monotone(entries, i + 1, j);
        let lo = spec_v3_offset(entries, j) - spec_v3_offset(entries, i);
        let lo2 = spec_v3_offset(entries, j) - spec_v3_offset(entries, i + 1);
        assert(region.subrange(lo, lo + entries[j].data.len()) =~= rest.subrange(
            lo2,
            lo2 + entries[j].data.len(),
        ));
    }
}

/// Under the V3 size limit, every offset stays addressable and every table
/// suffix length is bounded.
pub proof fn lemma_v3_offset_bounded(entries: Seq<PackModel>, i: int)
    requires
        0 <= i <= entries.len(),
        spec_v3_wf(entries),
    ensures
        spec_v3_offset(entries, i) >= 16,
        spec_v3_offset(entries, i) + 1 <= u32::MAX,
{
    lemma_v3_offset_monotone(entries, 0, i);
    lemma_v3_offset_monotone(entries, i, entries.len() as int);
}

/// Under the V3 size limit, the table length from any index on leaves room
/// for the 16-byte head and one more byte below the 32-bit bound.
pub proof fn lemma_v3_table_bound(entries: Seq<PackModel>, i: int)
    requires
        0 <= i <= entries.len(),
        spec_v3_wf(entries),
    ensures
        spec_v3_table_len_from(entries, i) + 17 <= u32::MAX,
{
    lemma_v3_table_len_monotone(entries, i);
    lemma_v3_offset_monotone(entries, 0, entries.len() as int);
}

/// Parsing one encrypted V3 table record off the front of a stream yields
/// the record's fields and continues with the remainder.
#[verifier::spinoff_prover]
#[verifier::rlimit(50)]
proof fn lemma_v3_parse_record(
    off: u32,
    size: u32,
    ekey: u32,
    name: Seq<u8>,
    k: u32,
    rest: Seq<u8>,
)
    requires
        off != 0,
        name.len() <= u32::MAX,
    ensures
        ({
            let k1 = spec_step(k, 9, 3);
            let k2 = spec_step(k1, 9, 3);
            let k3 = spec_step(k2, 9, 3);
            let k4 = spec_step(k3, 9, 3);
            let record = spec_u32_le(off ^ k) + spec_u32_le(size ^ k1) + spec_u32_le(ekey ^ k2)
                + spec_u32_le((name.len() as u32) ^ k3) + spec_xor_string_v3(k4, name);
            let entry = EntryModel { name, size, offset: off as nat, key: ekey };
            spec_read_v3_table(record + rest, k) == match spec_read_v3_table(rest, k4) {
                None => None,
                Some(t) => Some(seq![entry] + t),
            }
        }),
{
    vstd::bytes::lemma_auto_spec_u32_to_from_le_bytes();
    let k1 = spec_step(k, 9, 3);
    let k2 = spec_step(k1, 9, 3);
    let k3 = spec_step(k2, 9, 3);
    let k4 = spec_step(k3, 9, 3);
    let nl = name.len() as int;
    let record = spec_u32_le(off ^ k) + spec_u32_le(size ^ k1) + spec_u32_le(ekey ^ k2)
        + spec_u32_le((name.len() as u32) ^ k3) + spec_xor_string_v3(k4, name);
    let stream = record + rest;
    assert(record.len() == 16 + nl);
    assert(stream.subrange(0, 4) =~= spec_u32_le(off ^ k));
    lemma_xor_u32_involution(off, k);
    assert(spec_u32_of_le(stream.subrange(0, 4)) ^ k == off);
    assert(stream.subrange(4, 8) =~= spec_u32_le(size ^ k1));
    lemma_xor_u32_involution(size, k1);
    assert(stream.subrange(8, 12) =~= spec_u32_le(ekey ^ k2));
    lemma_xor_u32_involution(ekey, k2);
    assert(stream.subrange(12, 16) =~= spec_u32_le((name.len() as u32) ^ k3));
    lemma_xor_u32_involution(name.len() as u32, k3);
    assert(stream.subrange(16, 16 + nl) =~= spec_xor_string_v3(k4, name));
    crate::rgss::key::lemma_xor_string_v3_round_trip(k4, name);
    assert(spec_xor_string_v3(k4, stream.subrange(16, 16 + nl)) == name);
    assert(stream.skip(16 + nl) =~= rest);
}

/// The entry models a correct read of a V3 archive yields, from entry `i`
/// on.
pub open spec fn spec_v3_models_from(entries: Seq<PackModel>, seed: u32, i: int) -> Seq<
    EntryModel,
>
    decreases entries.len() - i,
{
    if i < 0 || i >= entries.len() {
        Seq::empty()
    } else {
        seq![
            EntryModel {
                name: entries[i].name,
                size: entries[i].data.len() as u32,
                offset: spec_v3_offset(entries, i),
                key: spec_v3_key(entries, seed, i),
            },
        ] + spec_v3_models_from(entries, seed, i + 1)
    }
}

/// Index characterisation of `spec_v3_models_from`.
proof fn lemma_v3_models_index(entries: Seq<PackModel>, seed: u32, i: int, j: int)
    requires
        0 <= i <= i + j < entries.len(),
    ensures
        spec_v3_models_from(entries, seed, i).len() == entries.len() - i,
        spec_v3_models_from(entries, seed, i)[j] == (EntryModel {
            name: entries[i + j].name,
            size: entries[i + j].data.len() as u32,
            offset: spec_v3_offset(entries, i + j),
            key: spec_v3_key(entries, seed, i + j),
        }),
    decreases j,
{
    lemma_v3_models_len(entries, seed, i + 1);
    if j > 0 {
        lemma_v3_models_index(entries, seed, i + 1, j - 1);
    }
}

/// Length of `spec_v3_models_from`.
proof fn lemma_v3_models_len(entries: Seq<PackModel>, seed: u32, i: int)
    requires
        0 <= i <= entries.len(),
    ensures
        spec_v3_models_from(entries, seed, i).len() == entries.len() - i,
    decreases entries.len() - i,
{
    if i < entries.len() {
        lemma_v3_models_len(entries, seed, i + 1);
    }
}

/// Reading the written V3 table (with anything after it) recovers the
/// remaining entries: names, sizes, offsets, and derived content seeds.
#[verifier::spinoff_prover]
#[verifier::rlimit(100)]
proof fn lemma_v3_read_table_from(
    entries: Seq<PackModel>,
    i: int,
    seed: u32,
    k: u32,
    tail: Seq<u8>,
)
    requires
        0 <= i <= entries.len(),
        spec_v3_wf(entries),
    ensures
        spec_read_v3_table(spec_v3_table(entries, i, seed, k) + tail, k) == Some(
            spec_v3_models_from(entries, seed, i),
        ),
    decreases entries.len() - i,
{
    vstd::bytes::lemma_auto_spec_u32_to_from_le_bytes();
    let stream = spec_v3_table(entries, i, seed, k) + tail;
    if i == entries.len() {
        assert(stream.subrange(0, 4) =~= spec_u32_le(0u32 ^ k));
        lemma_xor_u32_involution(0u32, k);
        assert(spec_u32_of_le(stream.subrange(0, 4)) ^ k == 0);
    } else {
        let name = entries[i].name;
        let data = entries[i].data;
        let off = spec_v3_offset(entries, i);
        let ekey = spec_v3_key(entries, seed, i);
        let k1 = spec_step(k, 9, 3);
        let k2 = spec_step(k1, 9, 3);
        let k3 = spec_step(k2, 9, 3);
        let k4 = spec_step(k3, 9, 3);
        let rest_table = spec_v3_table(entries, i + 1, seed, k4);
        assert(spec_v1_entry_wf(entries[i]));
        lemma_v3_offset_monotone(entries, i, entries.len() as int);
        lemma_v3_offset_monotone(entries, 0, i);
        lemma_v3_table_len_monotone(entries, 0);
        assert(off + 1 <= u32::MAX);
        assert(off >= 16);
        let record = spec_u32_le((off as u32) ^ k) + spec_u32_le((data.len() as u32) ^ k1)
            + spec_u32_le(ekey ^ k2) + spec_u32_le((name.len() as u32) ^ k3)
            + spec_xor_string_v3(k4, name);
        assert(spec_v3_table(entries, i, seed, k) == record + rest_table);
        assert((record + rest_table) + tail =~= record + (rest_table + tail));
        lemma_v3_parse_record(off as u32, data.len() as u32, ekey, name, k, rest_table + tail);
        lemma_v3_read_table_from(entries, i + 1, seed, k4, tail);
        let entry = EntryModel { name, size: data.len() as u32, offset: (off as u32) as nat, key: ekey };
        assert(seq![entry] + spec_v3_models_from(entries, seed, i + 1) == spec_v3_models_from(
            entries,
            seed,
            i,
        ));
    }
}

/// Reading a whole written V3 archive recovers the seed and the entries in
/// order, and each recorded content seed decrypts the payload region at
/// the recorded offset back to the original bytes: the V3 round trip.
#[verifier::spinoff_prover]
#[verifier::rlimit(100)]
pub proof fn lemma_v3_round_trip(entries: Seq<PackModel>, seed: u32)
    requires
        spec_v3_wf(entries),
    ensures
        ({
            let archive = spec_write_v3(entries, seed);
            let read = spec_read_v3_table(archive.skip(12), spec_step(seed, 9, 3));
            &&& archive.len() >= 12
            &&& spec_u32_of_le(archive.subrange(8, 12)) == seed
            &&& read is Some
            &&& read.unwrap().len() == entries.len()
            &&& forall|j: int|
                0 <= j < entries.len() ==> {
                    &&& (#[trigger] read.unwrap()[j]).name == entries[j].name
                    &&& read.unwrap()[j].size == entries[j].data.len()
                    &&& read.unwrap()[j].offset + read.unwrap()[j].size <= archive.len()
                    &&& spec_xor_content(
                        read.unwrap()[j].key,
                        9,
                        3,
                        archive.subrange(
                            read.unwrap()[j].offset as int,
                            read.unwrap()[j].offset + read.unwrap()[j].size,
                        ),
                    ) == entries[j].data
                }
        }),
{
    vstd::bytes::lemma_auto_spec_u32_to_from_le_bytes();
    let archive = spec_write_v3(entries, seed);
    let k1 = spec_step(seed, 9, 3);
    let table = spec_v3_table(entries, 0, seed, k1);
    let payloads = spec_v3_payloads(entries, 0, seed);
    lemma_v3_table_bytes_len(entries, 0, seed, k1);
    lemma_v3_payloads_len(entries, 0, seed);
    assert(archive.subrange(8, 12) =~= spec_u32_le(seed));
    assert(archive.skip(12) =~= table + payloads);
    lemma_v3_read_table_from(entries, 0, seed, k1, payloads);
    lemma_v3_models_len(entries, seed, 0);
    let read = spec_read_v3_table(table + payloads, k1);
    let first_off = spec_v3_offset(entries, 0);
    assert(archive.len() == 12 + (spec_v3_table_len_from(entries, 0) + 4) + payloads.len());
    assert(first_off == 16 + spec_v3_table_len_from(entries, 0));
    assert(archive.len() == first_off + payloads.len());
    assert forall|j: int| 0 <= j < entries.len() implies {
        &&& (#[trigger] read.unwrap()[j]).name == entries[j].name
        &&& read.unwrap()[j].size == entries[j].data.len()
        &&& read.unwrap()[j].offset + read.unwrap()[j].size <= archive.len()
        &&& spec_xor_content(
            read.unwrap()[j].key,
            9,
            3,
            archive.subrange(
                read.unwrap()[j].offset as int,
                read.unwrap()[j].offset + read.unwrap()[j].size,
            ),
        ) == entries[j].data
    } by {
        lemma_v3_models_index(entries, seed, 0, j);
        let off = spec_v3_offset(entries, j);
        let sz = entries[j].data.len();
        lemma_v3_payload_chunk(entries, 0, j, seed);
        lemma_v3_offset_monotone(entries, 0, j);
        lemma_v3_offset_monotone(entries, j + 1, entries.len() as int);
        assert(off >= first_off >= 16);
        crate::rgss::key::lemma_xor_content_round_trip(
            spec_v3_key(entries, seed, j),
            9,
            3,
            entries[j].data,
        );
        assert(off + sz <= archive.len());
        let lo = off - first_off;
        assert(archive.subrange(off as int, (off + sz) as int) =~= archive.skip(12).subrange(
            off - 12,
            off - 12 + sz,
        ));
        assert((table + payloads).subrange(off - 12, off - 12 + sz) =~= payloads.subrange(
            lo as int,
            (lo + sz) as int,
        ));
    }
}

} // verus!
