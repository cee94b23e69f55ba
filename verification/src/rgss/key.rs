//! The RGSS keystream: a 32-bit linear congruential generator used as a
//! stream cipher.  Stepping is `state <- state * multiplier + accumulator`
//! with 32-bit wrap-around; V1 archives use multiplier 7, V3 use 9, both with
//! accumulator 3.
//!
//! Three cipher modes share the state:
//! * 32-bit metadata fields are XORed with the whole state, stepping once;
//! * V1 names are XORed byte by byte with the low byte, stepping per byte;
//! * V3 names and all payloads are XORed with the state's little-endian
//!   bytes cyclically; payloads step once per four bytes, V3 names never.

use vstd::prelude::*;

use crate::rgss::version::RgssVersion;

verus! {

/// One LCG step with 32-bit wrap-around.
pub open spec fn spec_step(state: u32, multiplier: u32, accumulator: u32) -> u32 {
    vstd::wrapping::u32_specs::wrapping_add(
        vstd::wrapping::u32_specs::wrapping_mul(state, multiplier),
        accumulator,
    )
}

/// The keystream state after `n` LCG steps.
pub open spec fn spec_step_n(state: u32, multiplier: u32, accumulator: u32, n: nat) -> u32
    decreases n,
{
    if n == 0 {
        state
    } else {
        spec_step(spec_step_n(state, multiplier, accumulator, (n - 1) as nat), multiplier, accumulator)
    }
}

/// Byte `j` (little-endian, `j < 4`) of a keystream state.
pub open spec fn spec_key_byte(state: u32, j: nat) -> u8 {
    ((state >> ((j % 4) * 8) as u32) & 0xFF) as u8
}

/// The V1 name cipher: byte `i` is XORed with the low byte of the state
/// after `i` steps (one step is consumed per byte).
pub open spec fn spec_xor_string_v1(state: u32, m: u32, a: u32, data: Seq<u8>) -> Seq<u8> {
    Seq::new(data.len(), |i: int| data[i] ^ spec_key_byte(spec_step_n(state, m, a, i as nat), 0))
}

/// The V3 name cipher: byte `i` is XORed with byte `i % 4` of the state;
/// the state is never stepped.
pub open spec fn spec_xor_string_v3(state: u32, data: Seq<u8>) -> Seq<u8> {
    Seq::new(data.len(), |i: int| data[i] ^ spec_key_byte(state, (i % 4) as nat))
}

/// The payload cipher: byte `i` is XORed with byte `i % 4` of the state
/// after `i / 4` steps (one step is consumed per four bytes).
pub open spec fn spec_xor_content(state: u32, m: u32, a: u32, data: Seq<u8>) -> Seq<u8> {
    Seq::new(
        data.len(),
        |i: int| data[i] ^ spec_key_byte(spec_step_n(state, m, a, (i / 4) as nat), (i % 4) as nat),
    )
}

/// The byte at position 0 of a state is its low byte.
proof fn lemma_key_byte_low(s: u32)
    ensures
        spec_key_byte(s, 0) == (s & 0xFF) as u8,
{
    assert(s >> 0u32 == s) by (bit_vector);
}

/// RGSS decryption/encryption keystream.
#[derive(Debug, Clone, Copy)]
pub struct RgssKey {
    state: u32,
    multiplier: u32,
    accumulator: u32,
}

impl RgssKey {
    /// The current state, as seen by specifications.
    pub closed spec fn state_spec(&self) -> u32 {
        self.state
    }

    /// The LCG multiplier, as seen by specifications.
    pub closed spec fn multiplier_spec(&self) -> u32 {
        self.multiplier
    }

    /// The LCG accumulator, as seen by specifications.
    pub closed spec fn accumulator_spec(&self) -> u32 {
        self.accumulator
    }

    /// The constants this keystream would carry for a given version.
    pub open spec fn constants_for(version: RgssVersion) -> (u32, u32) {
        match version {
            RgssVersion::V1 => (7u32, 3u32),
            RgssVersion::V3 => (9u32, 3u32),
        }
    }

    /// Create a new keystream for the given version, with state zero.
    pub fn new(version: RgssVersion) -> (r: Self)
        ensures
            r.state_spec() == 0u32,
            r.multiplier_spec() == Self::constants_for(version).0,
            r.accumulator_spec() == Self::constants_for(version).1,
    {
        match version {
            RgssVersion::V1 => Self { state: 0, multiplier: 7, accumulator: 3 },
            RgssVersion::V3 => Self { state: 0, multiplier: 9, accumulator: 3 },
        }
    }

    /// Create a keystream for the given version with an explicit state.
    pub fn with_state(version: RgssVersion, state: u32) -> (r: Self)
        ensures
            r.state_spec() == state,
            r.multiplier_spec() == Self::constants_for(version).0,
            r.accumulator_spec() == Self::constants_for(version).1,
    {
        let mut key = Self::new(version);
        key.state = state;
        key
    }

    /// Get the current key state.
    pub fn current(&self) -> (r: u32)
        ensures
            r == self.state_spec(),
    {
        self.state
    }

    /// Set the key state.
    pub fn set_state(&mut self, state: u32)
        ensures
            final(self).state_spec() == state,
            final(self).multiplier_spec() == old(self).multiplier_spec(),
            final(self).accumulator_spec() == old(self).accumulator_spec(),
    {
        self.state = state;
    }

    /// Step the key to the next state.
    pub fn step(&mut self)
        ensures
            final(self).state_spec() == spec_step(
                old(self).state_spec(),
                old(self).multiplier_spec(),
                old(self).accumulator_spec(),
            ),
            final(self).multiplier_spec() == old(self).multiplier_spec(),
            final(self).accumulator_spec() == old(self).accumulator_spec(),
    {
        self.state = self.state.wrapping_mul(self.multiplier).wrapping_add(self.accumulator);
    }

    /// Decrypt a 32-bit integer and step the key.
    pub fn decrypt_int(&mut self, value: u32) -> (r: u32)
        ensures
            r == value ^ old(self).state_spec(),
            final(self).state_spec() == spec_step(
                old(self).state_spec(),
                old(self).multiplier_spec(),
                old(self).accumulator_spec(),
            ),
            final(self).multiplier_spec() == old(self).multiplier_spec(),
            final(self).accumulator_spec() == old(self).accumulator_spec(),
    {
        let result = value ^ self.state;
        self.step();
        result
    }

    /// Decrypt a 32-bit integer without stepping the key.
    pub fn decrypt_int_no_step(&self, value: u32) -> (r: u32)
        ensures
            r == value ^ self.state_spec(),
    {
        value ^ self.state
    }

    /// Encrypt a 32-bit integer and step the key.  XOR is symmetric, so this
    /// is the same operation as decryption.
    pub fn encrypt_int(&mut self, value: u32) -> (r: u32)
        ensures
            r == value ^ old(self).state_spec(),
            final(self).state_spec() == spec_step(
                old(self).state_spec(),
                old(self).multiplier_spec(),
                old(self).accumulator_spec(),
            ),
            final(self).multiplier_spec() == old(self).multiplier_spec(),
            final(self).accumulator_spec() == old(self).accumulator_spec(),
    {
        self.decrypt_int(value)
    }

    /// Decrypt a byte string in the V1 mode: each byte is XORed with the low
    /// byte of the state and the key is stepped once per byte.
    pub fn decrypt_string_v1(&mut self, data: &[u8]) -> (r: Vec<u8>)
        ensures
            r@ == spec_xor_string_v1(
                old(self).state_spec(),
                old(self).multiplier_spec(),
                old(self).accumulator_spec(),
                data@,
            ),
            final(self).state_spec() == spec_step_n(
                old(self).state_spec(),
                old(self).multiplier_spec(),
                old(self).accumulator_spec(),
                data@.len(),
            ),
            final(self).multiplier_spec() == old(self).multiplier_spec(),
            final(self).accumulator_spec() == old(self).accumulator_spec(),
    {
        let ghost k0 = self.state;
        let ghost m = self.multiplier;
        let ghost a = self.accumulator;
        let mut result: Vec<u8> = Vec::with_capacity(data.len());
        let mut i: usize = 0;
        while i < data.len()
            invariant
                i <= data@.len(),
                self.multiplier == m,
                self.accumulator == a,
                self.state == spec_step_n(k0, m, a, i as nat),
                result@ == spec_xor_string_v1(k0, m, a, data@.subrange(0, i as int)),
            decreases data@.len() - i,
        {
            let b = data[i];
            proof {
                lemma_key_byte_low(self.state);
            }
            result.push(b ^ (self.state & 0xFF) as u8);
            self.step();
            i = i + 1;
            assert(result@ =~= spec_xor_string_v1(k0, m, a, data@.subrange(0, i as int)));
        }
        assert(data@.subrange(0, data@.len() as int) =~= data@);
        result
    }

    /// Encrypt a byte string in the V1 mode; XOR is symmetric.
    pub fn encrypt_string_v1(&mut self, data: &[u8]) -> (r: Vec<u8>)
        ensures
            r@ == spec_xor_string_v1(
                old(self).state_spec(),
                old(self).multiplier_spec(),
                old(self).accumulator_spec(),
                data@,
            ),
            final(self).state_spec() == spec_step_n(
                old(self).state_spec(),
                old(self).multiplier_spec(),
                old(self).accumulator_spec(),
                data@.len(),
            ),
            final(self).multiplier_spec() == old(self).multiplier_spec(),
            final(self).accumulator_spec() == old(self).accumulator_spec(),
    {
        self.decrypt_string_v1(data)
    }

    /// Decrypt a byte string in the V3 mode: each byte is XORed with a byte
    /// of the state chosen cyclically; the key is never stepped.
    pub fn decrypt_string_v3(&self, data: &[u8]) -> (r: Vec<u8>)
        ensures
            r@ == spec_xor_string_v3(self.state_spec(), data@),
    {
        let ghost k0 = self.state;
        let mut result: Vec<u8> = Vec::with_capacity(data.len());
        let mut i: usize = 0;
        while i < data.len()
            invariant
                i <= data@.len(),
                self.state == k0,
                result@ == spec_xor_string_v3(k0, data@.subrange(0, i as int)),
            decreases data@.len() - i,
        {
            let b = data[i];
            let shift: u32 = ((i % 4) * 8) as u32;
            result.push(b ^ ((self.state >> shift) & 0xFF) as u8);
            i = i + 1;
            assert(result@ =~= spec_xor_string_v3(k0, data@.subrange(0, i as int)));
        }
        assert(data@.subrange(0, data@.len() as int) =~= data@);
        result
    }

    /// Encrypt a byte string in the V3 mode; XOR is symmetric.
    pub fn encrypt_string_v3(&self, data: &[u8]) -> (r: Vec<u8>)
        ensures
            r@ == spec_xor_string_v3(self.state_spec(), data@),
    {
        self.decrypt_string_v3(data)
    }

    /// Decrypt payload bytes: each byte is XORed with a byte of the state
    /// chosen cyclically, and the key steps once per four bytes consumed,
    /// leaving the state at the `len / 4`-th iterate.
    pub fn decrypt_content(&mut self, data: &[u8]) -> (r: Vec<u8>)
        ensures
            r@ == spec_xor_content(
                old(self).state_spec(),
                old(self).multiplier_spec(),
                old(self).accumulator_spec(),
                data@,
            ),
            final(self).state_spec() == spec_step_n(
                old(self).state_spec(),
                old(self).multiplier_spec(),
                old(self).accumulator_spec(),
                data@.len() / 4,
            ),
            final(self).multiplier_spec() == old(self).multiplier_spec(),
            final(self).accumulator_spec() == old(self).accumulator_spec(),
    {
        let ghost k0 = self.state;
        let ghost m = self.multiplier;
        let ghost a = self.accumulator;
        let mut result: Vec<u8> = Vec::with_capacity(data.len());
        let mut j: usize = 0;
        let mut i: usize = 0;
        while i < data.len()
            invariant
                i <= data@.len(),
                j == i % 4,
                self.multiplier == m,
                self.accumulator == a,
                self.state == spec_step_n(k0, m, a, (i / 4) as nat),
                result@ == spec_xor_content(k0, m, a, data@.subrange(0, i as int)),
            decreases data@.len() - i,
        {
            let b = data[i];
            let shift: u32 = (j * 8) as u32;
            result.push(b ^ ((self.state >> shift) & 0xFF) as u8);
            j = j + 1;
            i = i + 1;
            if j == 4 {
                j = 0;
                self.step();
            }
            assert(result@ =~= spec_xor_content(k0, m, a, data@.subrange(0, i as int)));
        }
        assert(data@.subrange(0, data@.len() as int) =~= data@);
        result
    }

    /// Encrypt payload bytes; XOR is symmetric.
    pub fn encrypt_content(&mut self, data: &[u8]) -> (r: Vec<u8>)
        ensures
            r@ == spec_xor_content(
                old(self).state_spec(),
                old(self).multiplier_spec(),
                old(self).accumulator_spec(),
                data@,
            ),
            final(self).state_spec() == spec_step_n(
                old(self).state_spec(),
                old(self).multiplier_spec(),
                old(self).accumulator_spec(),
                data@.len() / 4,
            ),
            final(self).multiplier_spec() == old(self).multiplier_spec(),
            final(self).accumulator_spec() == old(self).accumulator_spec(),
    {
        self.decrypt_content(data)
    }
}

/// XOR of a byte with the same byte twice returns the original byte.
proof fn lemma_xor_u8_involution(x: u8, k: u8)
    ensures
        (x ^ k) ^ k == x,
{
    assert((x ^ k) ^ k == x) by (bit_vector);
}

/// Applying the payload cipher twice with the same seed returns the original
/// bytes, whichever version's constants are used: decrypting an encryption
/// (or encrypting a decryption) of any payload is the identity.
pub proof fn lemma_xor_content_round_trip(state: u32, m: u32, a: u32, data: Seq<u8>)
    ensures
        spec_xor_content(state, m, a, spec_xor_content(state, m, a, data)) == data,
{
    let once = spec_xor_content(state, m, a, data);
    let twice = spec_xor_content(state, m, a, once);
    assert forall|i: int| 0 <= i < data.len() implies twice[i] == data[i] by {
        let k = spec_key_byte(spec_step_n(state, m, a, (i / 4) as nat), (i % 4) as nat);
        lemma_xor_u8_involution(data[i], k);
    }
    assert(twice =~= data);
}

/// Applying the V1 name cipher twice with the same seed is the identity.
pub proof fn lemma_xor_string_v1_round_trip(state: u32, m: u32, a: u32, data: Seq<u8>)
    ensures
        spec_xor_string_v1(state, m, a, spec_xor_string_v1(state, m, a, data)) == data,
{
    let once = spec_xor_string_v1(state, m, a, data);
    let twice = spec_xor_string_v1(state, m, a, once);
    assert forall|i: int| 0 <= i < data.len() implies twice[i] == data[i] by {
        let k = spec_key_byte(spec_step_n(state, m, a, i as nat), 0);
        lemma_xor_u8_involution(data[i], k);
    }
    assert(twice =~= data);
}

/// Applying the V3 name cipher twice with the same state is the identity.
pub proof fn lemma_xor_string_v3_round_trip(state: u32, data: Seq<u8>)
    ensures
        spec_xor_string_v3(state, spec_xor_string_v3(state, data)) == data,
{
    let once = spec_xor_string_v3(state, data);
    let twice = spec_xor_string_v3(state, once);
    assert forall|i: int| 0 <= i < data.len() implies twice[i] == data[i] by {
        let k = spec_key_byte(state, (i % 4) as nat);
        lemma_xor_u8_involution(data[i], k);
    }
    assert(twice =~= data);
}

} // verus!
