//! Fingerprints that name cached files: a clip's thumbnail, the audio mix
//! rendered for a clip and its mixer settings, and the scripts a scan ran.
//!
//! A fingerprint is the standard library's default hash of the identifying
//! values, written as 16 lower-case hexadecimal digits. The hash algorithm
//! is left open by the standard library (it may differ between Rust
//! releases), and what a value's `Hash` impl feeds it depends on the target;
//! so what is stated of a fingerprint is what is fed to the hasher, in which
//! order, and how the result is written.
use vstd::prelude::*;
use std::collections::hash_map::DefaultHasher;
use std::hash::Hasher;
use vstd::std_specs::hash::DefaultHasherAdditionalSpecFns;
use crate::model::TrackState;
use crate::paths::{join_path, spec_join};
use crate::text::{concat2, string_of};

verus! {

/// The byte slices `<Path as Hash>::hash` writes to a hasher for the path
/// `p` (component by component) on the target the crate is built for.
pub uninterp spec fn spec_path_writes(p: Seq<char>) -> Seq<Seq<u8>>;

/// The byte slices `<i64 as Hash>::hash` writes for `v` on the target.
pub uninterp spec fn spec_i64_writes(v: i64) -> Seq<Seq<u8>>;

/// The byte slices `<u32 as Hash>::hash` writes for `v` on the target.
pub uninterp spec fn spec_u32_writes(v: u32) -> Seq<Seq<u8>>;

/// The byte slices `<u64 as Hash>::hash` writes for `v` on the target.
pub uninterp spec fn spec_u64_writes(v: u64) -> Seq<Seq<u8>>;

/// The byte slices `<bool as Hash>::hash` writes for `v` on the target.
pub uninterp spec fn spec_bool_writes(v: bool) -> Seq<Seq<u8>>;

/// The byte slices `<Vec<u8> as Hash>::hash` writes for the bytes `v` (its
/// length, then its contents) on the target.
pub uninterp spec fn spec_byte_vec_writes(v: Seq<u8>) -> Seq<Seq<u8>>;

/// Feeds a path to the hasher (`<Path as Hash>::hash`): the hasher's writes
/// grow by what hashing that path writes.
#[verifier::external_body]
fn hash_path(h: &mut DefaultHasher, p: &str)
    ensures
        final(h)@ == old(h)@ + spec_path_writes(p@),
{
    std::hash::Hash::hash(std::path::Path::new(p), h)
}

/// `<i64 as Hash>::hash`: the hasher's writes grow by those of `v`.
#[verifier::external_body]
fn hash_i64(h: &mut DefaultHasher, v: i64)
    ensures
        final(h)@ == old(h)@ + spec_i64_writes(v),
{
    std::hash::Hash::hash(&v, h)
}

/// `<u32 as Hash>::hash`: the hasher's writes grow by those of `v`.
#[verifier::external_body]
fn hash_u32(h: &mut DefaultHasher, v: u32)
    ensures
        final(h)@ == old(h)@ + spec_u32_writes(v),
{
    std::hash::Hash::hash(&v, h)
}

/// `<u64 as Hash>::hash`: the hasher's writes grow by those of `v`.
#[verifier::external_body]
fn hash_u64(h: &mut DefaultHasher, v: u64)
    ensures
        final(h)@ == old(h)@ + spec_u64_writes(v),
{
    std::hash::Hash::hash(&v, h)
}

/// `<bool as Hash>::hash`: the hasher's writes grow by those of `v`.
#[verifier::external_body]
fn hash_bool(h: &mut DefaultHasher, v: bool)
    ensures
        final(h)@ == old(h)@ + spec_bool_writes(v),
{
    std::hash::Hash::hash(&v, h)
}

/// `<Vec<u8> as Hash>::hash`: the hasher's writes grow by those of `v`.
#[verifier::external_body]
fn hash_bytes(h: &mut DefaultHasher, v: &Vec<u8>)
    ensures
        final(h)@ == old(h)@ + spec_byte_vec_writes(v@),
{
    std::hash::Hash::hash(v, h)
}

/// The lower-case hexadecimal digit for `d < 16`.
pub open spec fn hex_char(d: nat) -> char {
    if d < 10 {
        ((d + 48) as int) as char
    } else {
        ((d + 87) as int) as char
    }
}

/// The last `n` hexadecimal digits of `v`, most significant first
/// (`format!("{:0n$x}")` for values below `16^n`).
pub open spec fn hex_digits(v: nat, n: nat) -> Seq<char>
    decreases n,
{
    if n == 0 {
        Seq::empty()
    } else {
        hex_digits(v / 16, (n - 1) as nat).push(hex_char(v % 16))
    }
}

/// `n` digits, none of them a `/`.
pub proof fn lemma_hex_digits(v: nat, n: nat)
    ensures
        hex_digits(v, n).len() == n,
        forall|i: int| 0 <= i < n ==> hex_digits(v, n)[i] != '/',
    decreases n,
{
    if n > 0 {
        lemma_hex_digits(v / 16, (n - 1) as nat);
        let d = v % 16;
        assert(hex_char(d) != '/');
        assert forall|i: int| 0 <= i < n implies hex_digits(v, n)[i] != '/' by {
            if i < n - 1 {
                assert(hex_digits(v, n)[i] == hex_digits(v / 16, (n - 1) as nat)[i]);
            }
        }
    }
}

/// `v` as 16 zero-padded lower-case hexadecimal digits (`{:016x}`).
pub open spec fn hex16(v: u64) -> Seq<char> {
    hex_digits(v as nat, 16)
}

fn hex_digit(d: u64) -> (c: char)
    requires
        d < 16,
    ensures
        c == hex_char(d as nat),
{
    if d < 10 {
        ((d as u8) + 48) as char
    } else {
        ((d as u8) + 87) as char
    }
}

fn hex_chars(v: u64, n: u64) -> (r: Vec<char>)
    ensures
        r@ == hex_digits(v as nat, n as nat),
    decreases n,
{
    if n == 0 {
        Vec::new()
    } else {
        let mut r = hex_chars(v / 16, n - 1);
        r.push(hex_digit(v % 16));
        r
    }
}

/// `v` written as 16 lower-case hexadecimal digits, zero-padded.
pub fn hex_string(v: u64) -> (r: String)
    ensures
        r@ == hex16(v),
{
    let cs = hex_chars(v, 16);
    string_of(&cs)
}

/// What the hasher is fed for a clip file: its path, then its modification
/// time.
pub open spec fn clip_writes(path: Seq<char>, mtime: i64) -> Seq<Seq<u8>> {
    spec_path_writes(path) + spec_i64_writes(mtime)
}

/// What the hasher is fed for one mixer state: the track index, the volume
/// bits, then whether it is muted.
pub open spec fn state_writes(st: TrackState) -> Seq<Seq<u8>> {
    spec_u32_writes(st.idx) + spec_u64_writes(st.volume_bits) + spec_bool_writes(st.muted)
}

/// What the hasher is fed for mixer states, in order.
pub open spec fn states_writes(sts: Seq<TrackState>) -> Seq<Seq<u8>>
    decreases sts.len(),
{
    if sts.len() == 0 {
        Seq::empty()
    } else {
        states_writes(sts.drop_last()) + state_writes(sts.last())
    }
}

/// The fingerprint of a clip file: the default hash of its path and
/// modification time, as 16 hexadecimal digits.
pub open spec fn spec_fingerprint(path: Seq<char>, mtime: i64) -> Seq<char> {
    hex16(DefaultHasher::spec_finish(clip_writes(path, mtime)))
}

/// The name of the cached audio mix of a clip with mixer states `sts`: the
/// default hash of its path, modification time and states, then `.flac`.
pub open spec fn spec_mix_cache_name(path: Seq<char>, mtime: i64, sts: Seq<TrackState>) -> Seq<
    char,
> {
    hex16(DefaultHasher::spec_finish(clip_writes(path, mtime) + states_writes(sts))) + ".flac"@
}

/// The fingerprint of a clip file at `path` with modification time `mtime`
/// (it names the clip's thumbnail).
pub fn fingerprint_hash(path: &str, mtime: i64) -> (r: String)
    ensures
        r@ == spec_fingerprint(path@, mtime),
{
    let mut h = DefaultHasher::new();
    hash_path(&mut h, path);
    hash_i64(&mut h, mtime);
    assert(h@ =~= clip_writes(path@, mtime));
    let v = h.finish();
    hex_string(v)
}

/// File name of a clip's thumbnail: its fingerprint and `.jpg`.
pub fn thumb_file_name(path: &str, mtime: i64) -> (r: String)
    ensures
        r@ == spec_fingerprint(path@, mtime) + ".jpg"@,
{
    let f = fingerprint_hash(path, mtime);
    concat2(f.as_str(), ".jpg")
}

/// File name of the audio mix rendered for the clip at `path` (modified at
/// `mtime`) with the mixer states `states`: a hash of the path, the time and
/// each state's index, volume and mute flag, then `.flac`.
pub fn mix_cache_name(path: &str, mtime: i64, states: &Vec<TrackState>) -> (r: String)
    ensures
        r@ == spec_mix_cache_name(path@, mtime, states@),
{
    let mut h = DefaultHasher::new();
    hash_path(&mut h, path);
    hash_i64(&mut h, mtime);
    assert(h@ =~= clip_writes(path@, mtime) + states_writes(states@.subrange(0, 0)));
    let mut i: usize = 0;
    while i < states.len()
        invariant
            i <= states@.len(),
            h@ == clip_writes(path@, mtime) + states_writes(states@.subrange(0, i as int)),
        decreases states@.len() - i,
    {
        let st = states[i];
        hash_u32(&mut h, st.idx);
        hash_u64(&mut h, st.volume_bits);
        hash_bool(&mut h, st.muted);
        proof {
            let next = states@.subrange(0, i as int + 1);
            assert(next.drop_last() =~= states@.subrange(0, i as int));
            assert(next.last() == st);
            assert(h@ =~= clip_writes(path@, mtime) + states_writes(next));
        }
        i = i + 1;
    }
    assert(states@.subrange(0, states@.len() as int) =~= states@);
    let v = h.finish();
    let hex = hex_string(v);
    concat2(hex.as_str(), ".flac")
}

/// Where the audio mix of a clip with mixer states `sts` is cached inside
/// `cache_dir`.
pub open spec fn spec_cache_path(cache_dir: Seq<char>, path: Seq<char>, mtime: i64, sts: Seq<
    TrackState,
>) -> Seq<char> {
    spec_join(cache_dir, spec_mix_cache_name(path, mtime, sts))
}

/// Where the audio mix of a clip with mixer states `states` is cached
/// inside `cache_dir`.
pub fn cache_path(cache_dir: &str, path: &str, mtime: i64, states: &Vec<TrackState>) -> (r: String)
    ensures
        r@ == spec_cache_path(cache_dir@, path@, mtime, states@),
{
    let name = mix_cache_name(path, mtime, states);
    let ghost h = DefaultHasher::spec_finish(clip_writes(path@, mtime) + states_writes(states@));
    assert(name@.len() > 0 && name@[0] != '/') by {
        lemma_hex_digits(h as nat, 16);
        assert(name@[0] == hex16(h)[0]);
    }
    join_path(cache_dir, name.as_str())
}

/// What a scan found of a script file.
pub enum ScriptSource {
    /// No script is configured.
    Missing,
    /// It is configured but could not be read.
    Unreadable,
    /// Its contents.
    Bytes(Vec<u8>),
}

/// The fingerprint of a script as a scan records it: `none` without a
/// script, `unreadable` when it cannot be read, else a hash of its bytes.
pub fn script_fingerprint(src: &ScriptSource) -> (r: String)
    ensures
        src is Missing ==> r@ == "none"@,
        src is Unreadable ==> r@ == "unreadable"@,
        src matches ScriptSource::Bytes(b) ==> r@ == hex16(
            DefaultHasher::spec_finish(spec_byte_vec_writes(b@)),
        ),
{
    match src {
        ScriptSource::Missing => String::from_str("none"),
        ScriptSource::Unreadable => String::from_str("unreadable"),
        ScriptSource::Bytes(b) => {
            let mut h = DefaultHasher::new();
            hash_bytes(&mut h, b);
            assert(h@ =~= spec_byte_vec_writes(b@));
            let v = h.finish();
            hex_string(v)
        },
    }
}

} // verus!
