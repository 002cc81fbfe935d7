//! Searching for runtime code whose code hash starts with a given prefix.
//!
//! The runtime code is a fixed part followed by the shortest big-endian bytes
//! of a counter; the counter runs through the values of one to eight bytes,
//! shortest first, each length searched in parallel.

use rayon::iter::{IntoParallelIterator, ParallelIterator};
use vstd::prelude::*;
use vstd::string::{StrSliceExecFns, StringExecFns};

use crate::bigendian::{
    byte_power, fixed_be, leading_zero_count, lemma_fixed_be, lemma_leading_zero_count_meaning,
    lemma_byte_power_monotonic, lemma_byte_power_positive, lemma_leading_zero_count_padding,
    lemma_minimal_be_leading, lemma_minimal_be_len_lower, lemma_minimal_be_len_upper,
    lemma_minimal_be_value, minimal_be, be_value,
};
use crate::hexcodec::{
    format_lower_hex_2, hex_decode, hex_encode, hex_encoding, hex_string_bytes, is_hex_string,
    lemma_hex_encoding_concat, lemma_hex_round_trip, lower_hex_digit, lower_hex_numeral,
    lower_hex_numeral_2,
};
use crate::keccak::{keccak256, keccak256_digest};

verus! {

/// The material of the puzzle that a search is for.
#[derive(Clone, Copy, Debug, PartialEq, Eq, Structural)]
pub enum Materia {
    Gold,
    Lead,
}

/// The error of reading a `Materia` from text.
#[derive(Clone, Copy, Debug, PartialEq, Eq, Structural)]
pub enum MateriaError {
    WrongMateria,
}

impl MateriaError {
    /// The error's message.
    pub fn message(&self) -> (res: String)
        ensures
            res@ == "wrong materia specified"@,
    {
        String::from_str("wrong materia specified")
    }
}

/// Whether two strings hold the same characters.
fn str_equals(s: &str, t: &str) -> (res: bool)
    ensures
        res == (s@ == t@),
{
    let n = s.unicode_len();
    if n != t.unicode_len() {
        return false;
    }
    let mut i: usize = 0;
    while i < n
        invariant
            n == s@.len(),
            n == t@.len(),
            i <= n,
            forall|j: int| 0 <= j < i ==> s@[j] == t@[j],
        decreases n - i,
    {
        if s.get_char(i) != t.get_char(i) {
            return false;
        }
        i = i + 1;
    }
    assert(s@ =~= t@);
    true
}

/// The code-hash prefix that the runtime code of each material must have.
pub open spec fn spec_code_hash_prefix(m: Materia) -> Seq<u8> {
    match m {
        Materia::Gold => seq![0x00u8, 0x90u8, 0x1du8],
        Materia::Lead => seq![0x00u8, 0x1eu8, 0xadu8],
    }
}

impl Materia {
    /// Reads a material from its name, `gold` or `lead`.
    pub fn from_str(s: &str) -> (res: Result<Materia, MateriaError>)
        ensures
            res == (if s@ == "gold"@ {
                Ok(Materia::Gold)
            } else if s@ == "lead"@ {
                Ok(Materia::Lead)
            } else {
                Err(MateriaError::WrongMateria)
            }),
    {
        if str_equals(s, "gold") {
            Ok(Materia::Gold)
        } else if str_equals(s, "lead") {
            Ok(Materia::Lead)
        } else {
            Err(MateriaError::WrongMateria)
        }
    }

    /// The bytes that the code hash of this material's runtime code must
    /// start with.
    pub fn code_hash_prefix(&self) -> (res: [u8; 3])
        ensures
            res@ == spec_code_hash_prefix(*self),
            *self == Materia::Gold ==> res == [0x00u8, 0x90u8, 0x1du8],
            *self == Materia::Lead ==> res == [0x00u8, 0x1eu8, 0xadu8],
    {
        let res = match self {
            Materia::Gold => [0x00u8, 0x90u8, 0x1du8],
            Materia::Lead => [0x00u8, 0x1eu8, 0xadu8],
        };
        assert(res@ =~= spec_code_hash_prefix(*self));
        res
    }
}

/// Where the trimmed bytes start: after the leading zeros, or at index 15
/// when every byte is zero.
pub open spec fn trim_start(bytes: Seq<u8>) -> nat {
    if leading_zero_count(bytes) < bytes.len() {
        leading_zero_count(bytes)
    } else {
        15
    }
}

/// Drops the leading zero bytes of `bytes`; when all of them are zero, keeps
/// the bytes from index 15 on (the last byte of a 16-byte number).
pub fn get_bytes_slice_trimmed_zeros(bytes: &[u8]) -> (res: Vec<u8>)
    requires
        leading_zero_count(bytes@) < bytes@.len() || bytes@.len() >= 15,
    ensures
        res@ == bytes@.subrange(trim_start(bytes@) as int, bytes@.len() as int),
{
    let n = bytes.len();
    let mut i: usize = 0;
    while i < n && bytes[i] == 0
        invariant
            n == bytes@.len(),
            i <= n,
            forall|j: int| 0 <= j < i ==> bytes@[j] == 0,
        decreases n - i,
    {
        i = i + 1;
    }
    proof {
        lemma_leading_zero_count_meaning(bytes@);
        let z = leading_zero_count(bytes@);
        if z < i {
            assert(bytes@[z as int] == 0);
        }
        if z > i {
            assert(bytes@[i as int] == 0);
        }
        assert(z == i);
    }
    let start: usize = if i < n {
        i
    } else {
        15
    };
    let mut res: Vec<u8> = Vec::new();
    let mut k: usize = start;
    while k < n
        invariant
            n == bytes@.len(),
            start <= k <= n,
            res@ == bytes@.subrange(start as int, k as int),
        decreases n - k,
    {
        res.push(bytes[k]);
        k = k + 1;
        assert(res@ =~= bytes@.subrange(start as int, k as int));
    }
    res
}

/// The 16 big-endian bytes of `val`, as `u128::to_be_bytes` gives them.
pub fn u128_be_bytes(val: u128) -> (res: Vec<u8>)
    ensures
        res@ == fixed_be(val as nat, 16),
{
    let mut res: Vec<u8> = Vec::new();
    let mut v: u128 = val;
    let mut i: usize = 0;
    assert(res@ + Seq::empty() =~= res@);
    while i < 16
        invariant
            i <= 16,
            res@.len() == i,
            fixed_be(val as nat, 16) == fixed_be(v as nat, (16 - i) as nat) + res@,
        decreases 16 - i,
    {
        let byte = (v % 256) as u8;
        proof {
            let rest = (16 - i - 1) as nat;
            assert(fixed_be(v as nat, (16 - i) as nat) == fixed_be((v / 256) as nat, rest).push(
                byte,
            ));
            assert(fixed_be((v / 256) as nat, rest).push(byte) + res@ =~= fixed_be(
                (v / 256) as nat,
                rest,
            ) + res@.insert(0, byte));
        }
        res.insert(0, byte);
        v = v / 256;
        i = i + 1;
    }
    assert(fixed_be(v as nat, 0) =~= Seq::<u8>::empty());
    assert(Seq::<u8>::empty() + res@ =~= res@);
    res
}

/// The bytes that a counter value adds to the runtime code: its shortest
/// big-endian form, or a single zero byte for zero.
pub open spec fn trimmed_be(v: nat) -> Seq<u8> {
    if v == 0 {
        seq![0u8]
    } else {
        minimal_be(v)
    }
}

pub proof fn lemma_byte_power_16()
    ensures
        byte_power(16) == 0x1_0000_0000_0000_0000_0000_0000_0000_0000,
{
    reveal_with_fuel(byte_power, 17);
}

/// The trimmed big-endian bytes of `val`.
pub fn trimmed_value_bytes(val: u128) -> (res: Vec<u8>)
    ensures
        res@ == trimmed_be(val as nat),
{
    let be = u128_be_bytes(val);
    proof {
        lemma_byte_power_16();
        lemma_fixed_be(val as nat, 16);
        let m = minimal_be(val as nat);
        let k = (16 - m.len()) as nat;
        lemma_leading_zero_count_padding(k, m);
        if val > 0 {
            lemma_minimal_be_leading(val as nat);
            assert(leading_zero_count(m) == 0);
            assert(be@.subrange(k as int, 16) =~= m);
        } else {
            assert(m =~= Seq::<u8>::empty());
            assert(leading_zero_count(m) == 0);
            assert(be@.subrange(15, 16) =~= seq![0u8]);
        }
    }
    get_bytes_slice_trimmed_zeros(be.as_slice())
}

/// Reading back the trimmed bytes of a counter value gives the value, and
/// only the trimmed bytes of zero start with a zero byte.
pub proof fn lemma_trimmed_be_value(v: nat)
    ensures
        be_value(trimmed_be(v)) == v,
        trimmed_be(v).len() >= 1,
        trimmed_be(v)[0] == 0 <==> v == 0,
{
    if v == 0 {
        assert(seq![0u8].drop_last() =~= Seq::<u8>::empty());
        assert(be_value(Seq::<u8>::empty()) == 0);
        assert(be_value(seq![0u8]) == be_value(seq![0u8].drop_last()) * 256 + 0);
    } else {
        lemma_minimal_be_value(v);
        lemma_minimal_be_leading(v);
    }
}

/// Whether the runtime code made of `initial` and the trimmed bytes of `v`
/// has a code hash that starts with `prefix`.
pub open spec fn code_hash_matches(initial: Seq<u8>, prefix: Seq<u8>, v: nat) -> bool {
    keccak256_digest(initial + trimmed_be(v)).subrange(0, prefix.len() as int) == prefix
}

/// Appends `src` to `dst`.
fn append_bytes(dst: &mut Vec<u8>, src: &[u8])
    ensures
        final(dst)@ == old(dst)@ + src@,
{
    let mut i: usize = 0;
    while i < src.len()
        invariant
            i <= src@.len(),
            dst@ == old(dst)@ + src@.subrange(0, i as int),
        decreases src@.len() - i,
    {
        dst.push(src[i]);
        i = i + 1;
        assert(dst@ =~= old(dst)@ + src@.subrange(0, i as int));
    }
    assert(src@.subrange(0, src@.len() as int) =~= src@);
}

/// The runtime code for counter value `val`: `initial` followed by the
/// trimmed bytes of `val`.
pub fn runtime_code(initial: &[u8], val: u128) -> (res: Vec<u8>)
    ensures
        res@ == initial@ + trimmed_be(val as nat),
{
    let trimmed = trimmed_value_bytes(val);
    let mut code: Vec<u8> = Vec::new();
    append_bytes(&mut code, initial);
    append_bytes(&mut code, trimmed.as_slice());
    assert(code@ =~= initial@ + trimmed@);
    code
}

/// Whether the code hash of the runtime code for `val` starts with `prefix`.
pub fn runtime_hash_matches(initial: &[u8], prefix: &[u8], val: u128) -> (res: bool)
    requires
        prefix@.len() <= 32,
    ensures
        res == code_hash_matches(initial@, prefix@, val as nat),
{
    let code = runtime_code(initial, val);
    let hash = keccak256(code.as_slice());
    let n = prefix.len();
    let mut i: usize = 0;
    while i < n
        invariant
            n == prefix@.len(),
            n <= 32,
            hash@.len() == 32,
            hash@ == keccak256_digest(initial@ + trimmed_be(val as nat)),
            i <= n,
            forall|j: int| 0 <= j < i ==> hash@[j] == prefix@[j],
        decreases n - i,
    {
        if hash[i] != prefix[i] {
            assert(hash@.subrange(0, n as int)[i as int] != prefix@[i as int]);
            return false;
        }
        i = i + 1;
    }
    assert(hash@.subrange(0, n as int) =~= prefix@);
    true
}

/// Searches `start..end` in parallel with `rayon`'s `find_any` for a value
/// whose runtime code has a matching code hash.
///
/// `find_any` returns some matching item, not necessarily the first, or
/// `None` when no item matches; the predicate is `runtime_hash_matches`.
#[verifier::external_body]
fn find_any_matching(start: u128, end: u128, initial: &[u8], prefix: &[u8]) -> (res: Option<u128>)
    requires
        start <= end,
        prefix@.len() <= 32,
    ensures
        res matches Some(v) ==> start <= v < end && code_hash_matches(initial@, prefix@, v as nat),
        res is None ==> forall|v: nat|
            start <= v < end ==> !#[trigger] code_hash_matches(initial@, prefix@, v),
{
    (start..end).into_par_iter().find_any(|v| runtime_hash_matches(initial, prefix, *v))
}

/// Every trimmed byte string has at least one byte.
pub proof fn lemma_trimmed_be_nonempty(v: nat)
    ensures
        trimmed_be(v).len() >= 1,
{
    if v > 0 {
        lemma_minimal_be_leading(v);
    }
}

/// A value whose trimmed bytes are shorter than those of a value below
/// `256^(k+1)` lies below the start of that value's length class: `k` is
/// positive and the value is below `256^k`.
pub proof fn lemma_shorter_lies_below(v: nat, w: nat, k: nat)
    requires
        v < byte_power(k + 1),
        trimmed_be(w).len() < trimmed_be(v).len(),
    ensures
        k > 0,
        w < byte_power(k),
{
    lemma_minimal_be_len_upper(v, k + 1);
    lemma_trimmed_be_nonempty(w);
    assert(trimmed_be(v).len() <= k + 1);
    if w >= byte_power(k) {
        lemma_byte_power_positive(k);
        lemma_minimal_be_len_lower(w, k);
    }
}

/// The largest value the search tries, plus one: `2^64`.
pub open spec fn search_limit() -> nat {
    byte_power(8)
}

/// Searches the values of one to eight bytes, one length class at a time
/// and shortest first, for a value whose runtime code has a code hash that
/// starts with `prefix`.
fn search_shortest(initial: &[u8], prefix: &[u8]) -> (res: Option<u128>)
    requires
        prefix@.len() <= 32,
    ensures
        res matches Some(v) ==> {
            &&& v < search_limit()
            &&& code_hash_matches(initial@, prefix@, v as nat)
            &&& forall|w: nat|
                trimmed_be(w).len() < trimmed_be(v as nat).len() ==> !#[trigger] code_hash_matches(
                    initial@,
                    prefix@,
                    w,
                )
        },
        res is None ==> forall|w: nat|
            w < search_limit() ==> !#[trigger] code_hash_matches(initial@, prefix@, w),
{
    let mut k: usize = 0;
    let mut start: u128 = 0;
    let mut end: u128 = 256;
    proof {
        reveal_with_fuel(byte_power, 2);
    }
    while k < 8
        invariant
            k <= 8,
            prefix@.len() <= 32,
            start as nat == (if k == 0 {
                0nat
            } else {
                byte_power(k as nat)
            }),
            end as nat == byte_power((k + 1) as nat),
            forall|w: nat| w < start ==> !#[trigger] code_hash_matches(initial@, prefix@, w),
        decreases 8 - k,
    {
        proof {
            lemma_byte_power_monotonic(k as nat, (k + 1) as nat);
        }
        match find_any_matching(start, end, initial, prefix) {
            Some(v) => {
                proof {
                    lemma_byte_power_monotonic((k + 1) as nat, 8);
                    assert forall|w: nat|
                        trimmed_be(w).len() < trimmed_be(
                            v as nat,
                        ).len() implies !#[trigger] code_hash_matches(initial@, prefix@, w) by {
                        lemma_shorter_lies_below(v as nat, w, k as nat);
                    }
                }
                return Some(v);
            },
            None => {},
        }
        proof {
            lemma_byte_power_monotonic((k + 2) as nat, 9);
            reveal_with_fuel(byte_power, 10);
            assert(byte_power(9) == 0x1_0000_0000_0000_0000_00);
            assert forall|w: nat| w < end implies !#[trigger] code_hash_matches(
                initial@,
                prefix@,
                w,
            ) by {
                if w >= start {
                    assert(start <= w < end);
                }
            }
        }
        start = end;
        end = end * 256;
        k = k + 1;
    }
    None
}

/// The text of the deploy code that returns the runtime code `initial`
/// followed by `suffix`: `60`, the length of the runtime code in hex,
/// `8060093d393df3`, then the runtime code in hex.
pub open spec fn deploy_code_text(initial: Seq<u8>, suffix: Seq<u8>) -> Seq<char> {
    seq!['6', '0'] + lower_hex_numeral_2((initial.len() + suffix.len()) as nat) + seq![
        '8',
        '0',
        '6',
        '0',
        '0',
        '9',
        '3',
        'd',
        '3',
        '9',
        '3',
        'd',
        'f',
        '3',
    ] + hex_encoding(initial) + hex_encoding(suffix)
}

/// Init code that returns `runtime`: `PUSH1 len DUP1 PUSH1 09
/// RETURNDATASIZE CODECOPY RETURNDATASIZE RETURN`, then the runtime code,
/// which the `CODECOPY` copies from offset 9.
pub open spec fn deploy_init_code(runtime: Seq<u8>) -> Seq<u8> {
    seq![0x60u8, runtime.len() as u8, 0x80u8, 0x60u8, 0x09u8, 0x3du8, 0x39u8, 0x3du8, 0xf3u8]
        + runtime
}

/// Runtime code that the search found, with the text that is reported of it.
pub struct CodeHashMatch {
    /// The counter value.
    pub value: u128,
    /// The trimmed big-endian bytes of the counter value.
    pub suffix: Vec<u8>,
    /// The runtime code: the fixed part, then the suffix.
    pub runtime_code: Vec<u8>,
    /// The Keccak-256 code hash of the runtime code.
    pub code_hash: [u8; 32],
    /// The runtime code in hex.
    pub runtime_hex: String,
    /// The code hash in hex.
    pub code_hash_hex: String,
    /// The deploy code in hex.
    pub deploy_code: String,
}

/// What a match found for the fixed part `initial` and the hash prefix
/// `prefix` holds.
pub open spec fn match_describes(m: CodeHashMatch, initial: Seq<u8>, prefix: Seq<u8>) -> bool {
    &&& m.suffix@ == trimmed_be(m.value as nat)
    &&& m.runtime_code@ == initial + m.suffix@
    &&& m.code_hash@ == keccak256_digest(m.runtime_code@)
    &&& m.code_hash@.subrange(0, prefix.len() as int) == prefix
    &&& m.runtime_hex@ == hex_encoding(m.runtime_code@)
    &&& m.code_hash_hex@ == hex_encoding(m.code_hash@)
    &&& m.deploy_code@ == deploy_code_text(initial, m.suffix@)
}

/// Searches for runtime code, made of `initial_runtime` (hex) followed by the
/// trimmed big-endian bytes of a counter, whose Keccak-256 code hash starts
/// with `start_code_hash`.
///
/// The counter runs through the values of one byte, then of two bytes, and
/// so on up to eight bytes; within one length any matching value may be
/// returned. `None` means that no value below `2^64` matches.
pub fn bruteforce_code_hash(start_code_hash: &[u8], initial_runtime: &str) -> (res: Option<
    CodeHashMatch,
>)
    requires
        start_code_hash@.len() <= 32,
        is_hex_string(initial_runtime@),
    ensures
        res matches Some(m) ==> {
            &&& m.value < search_limit()
            &&& match_describes(m, hex_string_bytes(initial_runtime@), start_code_hash@)
            &&& m.runtime_code@.len() < 256 ==> is_hex_string(m.deploy_code@) && hex_string_bytes(
                m.deploy_code@,
            ) == deploy_init_code(m.runtime_code@)
            &&& forall|w: nat|
                trimmed_be(w).len() < m.suffix@.len() ==> !#[trigger] code_hash_matches(
                    hex_string_bytes(initial_runtime@),
                    start_code_hash@,
                    w,
                )
        },
        res is None ==> forall|w: nat|
            w < search_limit() ==> !#[trigger] code_hash_matches(
                hex_string_bytes(initial_runtime@),
                start_code_hash@,
                w,
            ),
{
    let initial_bytes = match hex_decode(initial_runtime) {
        Some(bytes) => bytes,
        None => {
            return None;
        },
    };
    match search_shortest(initial_bytes.as_slice(), start_code_hash) {
        None => None,
        Some(value) => Some(describe_match(initial_bytes.as_slice(), start_code_hash, value)),
    }
}

/// Builds the report of a counter value whose runtime code matches.
pub fn describe_match(initial: &[u8], prefix: &[u8], value: u128) -> (m: CodeHashMatch)
    requires
        prefix@.len() <= 32,
        code_hash_matches(initial@, prefix@, value as nat),
    ensures
        m.value == value,
        match_describes(m, initial@, prefix@),
        m.runtime_code@.len() < 256 ==> is_hex_string(m.deploy_code@) && hex_string_bytes(
            m.deploy_code@,
        ) == deploy_init_code(m.runtime_code@),
{
    let suffix = trimmed_value_bytes(value);
    let code = runtime_code(initial, value);
    let hash = keccak256(code.as_slice());
    let initial_hex = hex_encode(initial);
    let suffix_hex = hex_encode(suffix.as_slice());
    let mut runtime_hex = hex_encode(initial);
    runtime_hex.append(suffix_hex.as_str());
    proof {
        lemma_hex_encoding_concat(initial@, suffix@);
    }
    let code_hash_hex = hex_encode(&hash);
    let len_hex = format_lower_hex_2(code.len());
    let mut deploy = String::from_str("60");
    deploy.append(len_hex.as_str());
    deploy.append("8060093d393df3");
    deploy.append(initial_hex.as_str());
    deploy.append(suffix_hex.as_str());
    proof {
        reveal_strlit("60");
        reveal_strlit("8060093d393df3");
        assert(deploy@ =~= deploy_code_text(initial@, suffix@));
        if code@.len() < 256 {
            lemma_deploy_code_decodes(initial@, suffix@);
            assert(deploy_init_code(code@) =~= seq![
                0x60u8,
                code@.len() as u8,
                0x80u8,
                0x60u8,
                0x09u8,
                0x3du8,
                0x39u8,
                0x3du8,
                0xf3u8,
            ] + initial@ + suffix@);
        }
    }
    CodeHashMatch {
        value,
        suffix,
        runtime_code: code,
        code_hash: hash,
        runtime_hex,
        code_hash_hex,
        deploy_code: deploy,
    }
}

/// The deploy code text decodes to init code that copies the runtime code
/// out and returns it, whenever the length of the runtime code fits in the
/// one-byte operand of `PUSH1`.
#[verifier::spinoff_prover]
#[verifier::rlimit(40)]
pub proof fn lemma_deploy_code_decodes(initial: Seq<u8>, suffix: Seq<u8>)
    requires
        initial.len() + suffix.len() < 256,
    ensures
        is_hex_string(deploy_code_text(initial, suffix)),
        hex_string_bytes(deploy_code_text(initial, suffix)) == seq![
            0x60u8,
            (initial.len() + suffix.len()) as u8,
            0x80u8,
            0x60u8,
            0x09u8,
            0x3du8,
            0x39u8,
            0x3du8,
            0xf3u8,
        ] + initial + suffix,
{
    let n = (initial.len() + suffix.len()) as nat;
    let head = seq![0x60u8];
    let len_byte = seq![n as u8];
    let tail = seq![0x80u8, 0x60u8, 0x09u8, 0x3du8, 0x39u8, 0x3du8, 0xf3u8];
    lemma_deploy_head_encoding();
    lemma_deploy_tail_encoding();
    lemma_two_digit_numeral(n);
    let e = hex_encoding(head) + hex_encoding(len_byte) + hex_encoding(tail) + hex_encoding(
        initial,
    ) + hex_encoding(suffix);
    assert(deploy_code_text(initial, suffix) == e);
    let all = head + len_byte + tail + initial + suffix;
    assert(e == hex_encoding(all)) by {
        lemma_hex_encoding_concat(head, len_byte);
        lemma_hex_encoding_concat(head + len_byte, tail);
        lemma_hex_encoding_concat(head + len_byte + tail, initial);
        lemma_hex_encoding_concat(head + len_byte + tail + initial, suffix);
    }
    lemma_hex_round_trip(all);
    assert(seq![0x60u8, n as u8, 0x80u8, 0x60u8, 0x09u8, 0x3du8, 0x39u8, 0x3du8, 0xf3u8] + initial
        + suffix =~= all);
}

proof fn lemma_two_digit_numeral(n: nat)
    requires
        n < 256,
    ensures
        hex_encoding(seq![n as u8]) =~= lower_hex_numeral_2(n),
{
    if n >= 16 {
        assert(lower_hex_numeral(n / 16) == seq![lower_hex_digit((n / 16) as int)]);
    }
    assert(hex_encoding(seq![n as u8])[0] == lower_hex_digit((n / 16) as int));
    assert(hex_encoding(seq![n as u8])[1] == lower_hex_digit((n % 16) as int));
}

proof fn lemma_deploy_head_encoding()
    ensures
        hex_encoding(seq![0x60u8]) =~= seq!['6', '0'],
{
    assert(hex_encoding(seq![0x60u8])[0] == lower_hex_digit(6));
    assert(hex_encoding(seq![0x60u8])[1] == lower_hex_digit(0));
}

proof fn lemma_byte_encoding(x: u8)
    ensures
        hex_encoding(seq![x]) =~= seq![lower_hex_digit(x as int / 16), lower_hex_digit(x as int % 16)],
{
    assert(hex_encoding(seq![x])[0] == lower_hex_digit(x as int / 16));
    assert(hex_encoding(seq![x])[1] == lower_hex_digit(x as int % 16));
}

proof fn lemma_deploy_tail_encoding()
    ensures
        hex_encoding(seq![0x80u8, 0x60u8, 0x09u8, 0x3du8, 0x39u8, 0x3du8, 0xf3u8]) =~= seq![
            '8',
            '0',
            '6',
            '0',
            '0',
            '9',
            '3',
            'd',
            '3',
            '9',
            '3',
            'd',
            'f',
            '3',
        ],
{
    let s0 = seq![0x80u8];
    let s1 = seq![0x60u8];
    let s2 = seq![0x09u8];
    let s3 = seq![0x3du8];
    let s4 = seq![0x39u8];
    let s5 = seq![0x3du8];
    let s6 = seq![0xf3u8];
    lemma_byte_encoding(0x80u8);
    lemma_byte_encoding(0x60u8);
    lemma_byte_encoding(0x09u8);
    lemma_byte_encoding(0x3du8);
    lemma_byte_encoding(0x39u8);
    lemma_byte_encoding(0xf3u8);
    lemma_hex_encoding_concat(s0, s1);
    lemma_hex_encoding_concat(s0 + s1, s2);
    lemma_hex_encoding_concat(s0 + s1 + s2, s3);
    lemma_hex_encoding_concat(s0 + s1 + s2 + s3, s4);
    lemma_hex_encoding_concat(s0 + s1 + s2 + s3 + s4, s5);
    lemma_hex_encoding_concat(s0 + s1 + s2 + s3 + s4 + s5, s6);
    assert(s0 + s1 + s2 + s3 + s4 + s5 + s6 =~= seq![
        0x80u8,
        0x60u8,
        0x09u8,
        0x3du8,
        0x39u8,
        0x3du8,
        0xf3u8,
    ]);
}

} // verus!
