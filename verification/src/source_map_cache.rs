//! Content-addressed caching of decoded source mappings.
//!
//! Entries are keyed by the SHA-256 hash of the WASM module bytes, hex
//! encoded, and stored durably as `{cache_dir}/{hash}.bin`, each guarded by a
//! sibling `.lock` file for cross-process advisory locking. This module holds
//! everything about the cache that is a pure computation: hash and path
//! construction, the binary entry format with its round-trip guarantee, the
//! interpretation of a read, and the laws the cache obeys over a model of the
//! directory. The process that opens, locks, reads, writes and renames the
//! files hands the raw bytes in and out.

use vstd::prelude::*;

use crate::source_mapper::SourceLocation;
use crate::source_mapper::SpecSourceLocation;

verus! {

/// The SHA-256 digest of a byte sequence (32 bytes).
pub uninterp spec fn sha256_of(bytes: Seq<u8>) -> Seq<u8>;

/// Lowercase hex digit for a value below 16.
pub open spec fn hex_digit_char(n: u8) -> char {
    seq!['0', '1', '2', '3', '4', '5', '6', '7', '8', '9', 'a', 'b', 'c', 'd', 'e', 'f'][n as int]
}

/// Lowercase hex encoding: two digits per byte, high nibble first.
pub open spec fn spec_hex_of(bytes: Seq<u8>) -> Seq<char> {
    Seq::new(
        bytes.len() * 2,
        |i: int|
            if i % 2 == 0 {
                hex_digit_char(bytes[i / 2] >> 4)
            } else {
                hex_digit_char(bytes[i / 2] & 0xf)
            },
    )
}

/// Relies on sha2::Sha256: a 32-byte digest determined by the input alone.
#[verifier::external_body]
fn sha256_digest(bytes: &[u8]) -> (r: Vec<u8>)
    ensures
        r@ == sha256_of(bytes@),
        r@.len() == 32,
{
    <sha2::Sha256 as sha2::Digest>::digest(bytes).to_vec()
}

/// Relies on hex::encode: lowercase hex, two digits per byte, high nibble
/// first.
#[verifier::external_body]
fn hex_encode(bytes: &Vec<u8>) -> (r: String)
    ensures
        r@ == spec_hex_of(bytes@),
{
    hex::encode(bytes)
}

/// Relies on dirs::home_dir: the user's home directory, which depends on the
/// environment, so nothing is promised of the value.
#[verifier::external_body]
fn home_dir_string() -> (r: Option<String>) {
    dirs::home_dir().and_then(|p| p.to_str().map(|s| s.to_string()))
}

/// Spec-level image of a [`SourceMapCacheEntry`].
pub ghost struct SpecCacheEntry {
    pub wasm_hash: Seq<char>,
    pub has_symbols: bool,
    pub mappings: Seq<(u64, SpecSourceLocation)>,
    pub created_at: u64,
}

/// Cache entry containing decoded source mappings for one module.
///
/// An entry is only trustworthy if its `has_symbols` flag matches the flag
/// recomputed for the module being looked up; the loader verifies that before
/// trusting `mappings`.
#[derive(Debug)]
pub struct SourceMapCacheEntry {
    /// The WASM hash this entry corresponds to: 64 lowercase hex characters.
    pub wasm_hash: String,
    /// Whether the WASM had debug symbols.
    pub has_symbols: bool,
    /// Cached mappings from wasm offset to source location; an association
    /// list in which the first binding for an offset wins.
    pub mappings: Vec<(u64, SourceLocation)>,
    /// Unix timestamp of when the entry was created.
    pub created_at: u64,
}

impl View for SourceMapCacheEntry {
    type V = SpecCacheEntry;

    open spec fn view(&self) -> SpecCacheEntry {
        SpecCacheEntry {
            wasm_hash: self.wasm_hash@,
            has_symbols: self.has_symbols,
            mappings: Seq::new(self.mappings@.len(), |i: int| (self.mappings@[i].0, self.mappings@[i].1@)),
            created_at: self.created_at,
        }
    }
}

/// Metadata about a cached entry, as reported by an inventory listing.
#[derive(Debug)]
pub struct CachedEntryInfo {
    pub wasm_hash: String,
    pub has_symbols: bool,
    pub mappings_count: u64,
    pub created_at: u64,
    pub file_size: u64,
}

/// Source map cache manager: the decisions and codecs for a cache directory.
/// The directory path is resolved once at construction and never mutated.
pub struct SourceMapCache {
    cache_dir: String,
}

/// File name of the cache entry for a hash: `{hash}.bin`.
pub open spec fn spec_cache_file_name(hash: Seq<char>) -> Seq<char> {
    hash + ".bin"@
}

/// File name of the temporary file an entry is staged in before the atomic
/// rename: `{hash}.tmp`.
pub open spec fn spec_tmp_file_name(hash: Seq<char>) -> Seq<char> {
    hash + ".tmp"@
}

impl SourceMapCache {
    /// The directory this cache resolves paths under.
    pub closed spec fn spec_dir(&self) -> Seq<char> {
        self.cache_dir@
    }

    /// Creates a cache rooted at the default directory,
    /// `{home}/.erst/cache/sourcemaps`; fails when no home directory can be
    /// determined.
    pub fn new() -> (r: Result<SourceMapCache, String>)
        ensures
            r matches Ok(c) ==> c.spec_dir().len() >= "/.erst/cache/sourcemaps"@.len()
                && c.spec_dir().skip(
                c.spec_dir().len() - "/.erst/cache/sourcemaps"@.len(),
            ) == "/.erst/cache/sourcemaps"@,
    {
        match home_dir_string() {
            None => Err("Failed to determine home directory".to_owned()),
            Some(home) => {
                let cache_dir = home.concat("/.erst/cache/sourcemaps");
                proof {
                    assert(cache_dir@.skip(cache_dir@.len() - "/.erst/cache/sourcemaps"@.len())
                        =~= "/.erst/cache/sourcemaps"@);
                }
                Ok(SourceMapCache { cache_dir })
            },
        }
    }

    /// Creates a cache rooted at `cache_dir`. The directory itself is made on
    /// demand by whoever performs the writes.
    pub fn with_cache_dir(cache_dir: String) -> (r: SourceMapCache)
        ensures
            r.spec_dir() == cache_dir@,
    {
        SourceMapCache { cache_dir }
    }

    /// Computes the cache key of a module: the lowercase hex SHA-256 of its
    /// bytes, 64 characters.
    pub fn compute_wasm_hash(wasm_bytes: &[u8]) -> (r: String)
        ensures
            r@ == spec_hex_of(sha256_of(wasm_bytes@)),
            r@.len() == 64,
    {
        let digest = sha256_digest(wasm_bytes);
        hex_encode(&digest)
    }

    /// The full path of the cache file for a hash:
    /// `{cache_dir}/{wasm_hash}.bin`.
    pub fn get_cache_path(&self, wasm_hash: &str) -> (r: String)
        ensures
            r@ == self.spec_dir() + "/"@ + spec_cache_file_name(wasm_hash@),
    {
        let mut s = self.cache_dir.clone();
        s.append("/");
        s.append(wasm_hash);
        s.append(".bin");
        proof {
            assert(s@ =~= self.cache_dir@ + "/"@ + (wasm_hash@ + ".bin"@));
        }
        s
    }

    /// The full path of the temporary staging file for a hash:
    /// `{cache_dir}/{wasm_hash}.tmp`.
    pub fn get_tmp_path(&self, wasm_hash: &str) -> (r: String)
        ensures
            r@ == self.spec_dir() + "/"@ + spec_tmp_file_name(wasm_hash@),
    {
        let mut s = self.cache_dir.clone();
        s.append("/");
        s.append(wasm_hash);
        s.append(".tmp");
        proof {
            assert(s@ =~= self.cache_dir@ + "/"@ + (wasm_hash@ + ".tmp"@));
        }
        s
    }

    /// The advisory lock file guarding a cache path: the path with `.lock`
    /// appended.
    pub fn get_lock_path(cache_path: &str) -> (r: String)
        ensures
            r@ == cache_path@ + ".lock"@,
    {
        let mut s = cache_path.to_owned();
        s.append(".lock");
        s
    }

    /// The directory this cache resolves paths under.
    pub fn get_cache_dir(&self) -> (r: &String)
        ensures
            r@ == self.spec_dir(),
    {
        &self.cache_dir
    }
}

// ---------------------------------------------------------------------------
// The binary entry format.
//
// Little-endian throughout: a string is its UTF-8 length (8 bytes) and bytes;
// an optional u32 is a tag byte and 4 value bytes (0 when absent); an
// optional string is a tag byte followed by a string when present. An entry
// is hash, symbol flag, mapping count (8 bytes), the mappings, and the
// creation timestamp. The format is internal and versionless: whatever fails
// to decode is treated as a cache miss.
// ---------------------------------------------------------------------------
/// Little-endian bytes of a 64-bit value.
pub open spec fn spec_encode_u64(v: u64) -> Seq<u8> {
    seq![
        v as u8,
        (v >> 8) as u8,
        (v >> 16) as u8,
        (v >> 24) as u8,
        (v >> 32) as u8,
        (v >> 40) as u8,
        (v >> 48) as u8,
        (v >> 56) as u8,
    ]
}

/// Little-endian bytes of a 32-bit value.
pub open spec fn spec_encode_u32(v: u32) -> Seq<u8> {
    seq![v as u8, (v >> 8) as u8, (v >> 16) as u8, (v >> 24) as u8]
}

/// One byte, 1 for true and 0 for false.
pub open spec fn spec_encode_bool(b: bool) -> Seq<u8> {
    seq![if b { 1u8 } else { 0u8 }]
}

/// UTF-8 length, then UTF-8 bytes.
pub open spec fn spec_encode_str(s: Seq<char>) -> Seq<u8> {
    spec_encode_u64(vstd::utf8::encode_utf8(s).len() as u64) + vstd::utf8::encode_utf8(s)
}

/// Tag byte, then the value or 0.
pub open spec fn spec_encode_opt_u32(o: Option<u32>) -> Seq<u8> {
    match o {
        None => seq![0u8] + spec_encode_u32(0),
        Some(v) => seq![1u8] + spec_encode_u32(v),
    }
}

/// Tag byte, then the string when present.
pub open spec fn spec_encode_opt_str(o: Option<Seq<char>>) -> Seq<u8> {
    match o {
        None => seq![0u8],
        Some(s) => seq![1u8] + spec_encode_str(s),
    }
}

/// A source location: file, line, column, column end, repository link.
pub open spec fn spec_encode_loc(l: SpecSourceLocation) -> Seq<u8> {
    spec_encode_str(l.file) + spec_encode_u32(l.line) + spec_encode_u32(l.column)
        + spec_encode_opt_u32(l.column_end) + spec_encode_opt_str(l.github_link)
}

/// One mapping: the wasm offset, then its location.
pub open spec fn spec_encode_pair(p: (u64, SpecSourceLocation)) -> Seq<u8> {
    spec_encode_u64(p.0) + spec_encode_loc(p.1)
}

/// The mappings in order.
pub open spec fn spec_encode_mappings(ms: Seq<(u64, SpecSourceLocation)>) -> Seq<u8>
    decreases ms.len(),
{
    if ms.len() == 0 {
        Seq::empty()
    } else {
        spec_encode_pair(ms[0]) + spec_encode_mappings(ms.skip(1))
    }
}

/// A whole entry: hash, symbol flag, mapping count, mappings, timestamp.
pub open spec fn spec_encode_entry(e: SpecCacheEntry) -> Seq<u8> {
    spec_encode_str(e.wasm_hash) + spec_encode_bool(e.has_symbols) + spec_encode_u64(
        e.mappings.len() as u64,
    ) + spec_encode_mappings(e.mappings) + spec_encode_u64(e.created_at)
}

/// A 64-bit value from the front of `b`, and what remains.
pub open spec fn spec_take_u64(b: Seq<u8>) -> Option<(u64, Seq<u8>)> {
    if b.len() >= 8 {
        Some(
            (
                (b[0] as u64) | ((b[1] as u64) << 8) | ((b[2] as u64) << 16) | ((b[3] as u64)
                    << 24) | ((b[4] as u64) << 32) | ((b[5] as u64) << 40) | ((b[6] as u64) << 48)
                    | ((b[7] as u64) << 56),
                b.skip(8),
            ),
        )
    } else {
        None
    }
}

/// A 32-bit value from the front of `b`, and what remains.
pub open spec fn spec_take_u32(b: Seq<u8>) -> Option<(u32, Seq<u8>)> {
    if b.len() >= 4 {
        Some(
            (
                (b[0] as u32) | ((b[1] as u32) << 8) | ((b[2] as u32) << 16) | ((b[3] as u32)
                    << 24),
                b.skip(4),
            ),
        )
    } else {
        None
    }
}

/// A boolean from the front of `b`; any byte other than 0 or 1 is malformed.
pub open spec fn spec_take_bool(b: Seq<u8>) -> Option<(bool, Seq<u8>)> {
    if b.len() >= 1 {
        if b[0] == 1 {
            Some((true, b.skip(1)))
        } else if b[0] == 0 {
            Some((false, b.skip(1)))
        } else {
            None
        }
    } else {
        None
    }
}

/// A string from the front of `b`: length, then that many bytes of valid
/// UTF-8.
pub open spec fn spec_take_str(b: Seq<u8>) -> Option<(Seq<char>, Seq<u8>)> {
    match spec_take_u64(b) {
        None => None,
        Some((n, r)) => if r.len() >= n {
            let bytes = r.take(n as int);
            if vstd::utf8::valid_utf8(bytes) {
                Some((vstd::utf8::decode_utf8(bytes), r.skip(n as int)))
            } else {
                None
            }
        } else {
            None
        },
    }
}

/// An optional 32-bit value from the front of `b`.
pub open spec fn spec_take_opt_u32(b: Seq<u8>) -> Option<(Option<u32>, Seq<u8>)> {
    if b.len() >= 1 {
        match spec_take_u32(b.skip(1)) {
            None => None,
            Some((v, r)) => if b[0] == 0 {
                Some((None, r))
            } else if b[0] == 1 {
                Some((Some(v), r))
            } else {
                None
            },
        }
    } else {
        None
    }
}

/// An optional string from the front of `b`.
pub open spec fn spec_take_opt_str(b: Seq<u8>) -> Option<(Option<Seq<char>>, Seq<u8>)> {
    if b.len() >= 1 {
        if b[0] == 0 {
            Some((None, b.skip(1)))
        } else if b[0] == 1 {
            match spec_take_str(b.skip(1)) {
                None => None,
                Some((s, r)) => Some((Some(s), r)),
            }
        } else {
            None
        }
    } else {
        None
    }
}

/// A source location from the front of `b`.
pub open spec fn spec_take_loc(b: Seq<u8>) -> Option<(SpecSourceLocation, Seq<u8>)> {
    match spec_take_str(b) {
        None => None,
        Some((file, r1)) => match spec_take_u32(r1) {
            None => None,
            Some((line, r2)) => match spec_take_u32(r2) {
                None => None,
                Some((column, r3)) => match spec_take_opt_u32(r3) {
                    None => None,
                    Some((column_end, r4)) => match spec_take_opt_str(r4) {
                        None => None,
                        Some((github_link, r5)) => Some(
                            (
                                SpecSourceLocation { file, line, column, column_end, github_link },
                                r5,
                            ),
                        ),
                    },
                },
            },
        },
    }
}

/// One mapping from the front of `b`.
pub open spec fn spec_take_pair(b: Seq<u8>) -> Option<((u64, SpecSourceLocation), Seq<u8>)> {
    match spec_take_u64(b) {
        None => None,
        Some((k, r1)) => match spec_take_loc(r1) {
            None => None,
            Some((l, r2)) => Some(((k, l), r2)),
        },
    }
}

/// `count` mappings from the front of `b`.
pub open spec fn spec_take_mappings(b: Seq<u8>, count: int) -> Option<
    (Seq<(u64, SpecSourceLocation)>, Seq<u8>),
>
    decreases count,
{
    if count <= 0 {
        Some((Seq::empty(), b))
    } else {
        match spec_take_pair(b) {
            None => None,
            Some((p, r)) => match spec_take_mappings(r, count - 1) {
                None => None,
                Some((ps, r2)) => Some((seq![p] + ps, r2)),
            },
        }
    }
}

/// A whole entry from the front of `b`; trailing bytes are ignored.
pub open spec fn spec_decode_entry(b: Seq<u8>) -> Option<SpecCacheEntry> {
    match spec_take_str(b) {
        None => None,
        Some((wasm_hash, r1)) => match spec_take_bool(r1) {
            None => None,
            Some((has_symbols, r2)) => match spec_take_u64(r2) {
                None => None,
                Some((count, r3)) => match spec_take_mappings(r3, count as int) {
                    None => None,
                    Some((mappings, r4)) => match spec_take_u64(r4) {
                        None => None,
                        Some((created_at, _r5)) => Some(
                            SpecCacheEntry { wasm_hash, has_symbols, mappings, created_at },
                        ),
                    },
                },
            },
        },
    }
}

/// The bounds under which a location encodes within the format's length
/// fields; every location held in an executable value satisfies them.
pub open spec fn spec_loc_wf(l: SpecSourceLocation) -> bool {
    &&& vstd::utf8::encode_utf8(l.file).len() <= u64::MAX
    &&& (l.github_link matches Some(g) ==> vstd::utf8::encode_utf8(g).len() <= u64::MAX)
}

/// The bounds under which an entry encodes within the format's length fields.
pub open spec fn spec_entry_wf(e: SpecCacheEntry) -> bool {
    &&& vstd::utf8::encode_utf8(e.wasm_hash).len() <= u64::MAX
    &&& e.mappings.len() <= u64::MAX
    &&& forall|i: int| 0 <= i < e.mappings.len() ==> spec_loc_wf(#[trigger] e.mappings[i].1)
}

// ---------------------------------------------------------------------------
// Round-trip: decoding an encoding yields the encoded value.
// ---------------------------------------------------------------------------
pub proof fn lemma_take_encode_u64(v: u64, rest: Seq<u8>)
    ensures
        spec_take_u64(spec_encode_u64(v) + rest) == Some((v, rest)),
{
    let b = spec_encode_u64(v) + rest;
    assert(((v as u8) as u64) | (((v >> 8) as u8) as u64) << 8 | (((v >> 16) as u8) as u64) << 16
        | (((v >> 24) as u8) as u64) << 24 | (((v >> 32) as u8) as u64) << 32 | (((v
        >> 40) as u8) as u64) << 40 | (((v >> 48) as u8) as u64) << 48 | (((v
        >> 56) as u8) as u64) << 56 == v) by (bit_vector);
    assert(b.skip(8) =~= rest);
}

pub proof fn lemma_take_encode_u32(v: u32, rest: Seq<u8>)
    ensures
        spec_take_u32(spec_encode_u32(v) + rest) == Some((v, rest)),
{
    let b = spec_encode_u32(v) + rest;
    assert(((v as u8) as u32) | (((v >> 8) as u8) as u32) << 8 | (((v >> 16) as u8) as u32) << 16
        | (((v >> 24) as u8) as u32) << 24 == v) by (bit_vector);
    assert(b.skip(4) =~= rest);
}

pub proof fn lemma_take_encode_bool(v: bool, rest: Seq<u8>)
    ensures
        spec_take_bool(spec_encode_bool(v) + rest) == Some((v, rest)),
{
    let b = spec_encode_bool(v) + rest;
    assert(b.skip(1) =~= rest);
}

pub proof fn lemma_take_encode_str(s: Seq<char>, rest: Seq<u8>)
    requires
        vstd::utf8::encode_utf8(s).len() <= u64::MAX,
    ensures
        spec_take_str(spec_encode_str(s) + rest) == Some((s, rest)),
{
    let utf8 = vstd::utf8::encode_utf8(s);
    let n = utf8.len() as u64;
    assert(spec_encode_str(s) + rest =~= spec_encode_u64(n) + (utf8 + rest));
    lemma_take_encode_u64(n, utf8 + rest);
    assert((utf8 + rest).take(n as int) =~= utf8);
    assert((utf8 + rest).skip(n as int) =~= rest);
    vstd::utf8::encode_utf8_valid_utf8(s);
    vstd::utf8::encode_utf8_decode_utf8(s);
}

pub proof fn lemma_take_encode_opt_u32(o: Option<u32>, rest: Seq<u8>)
    ensures
        spec_take_opt_u32(spec_encode_opt_u32(o) + rest) == Some((o, rest)),
{
    let b = spec_encode_opt_u32(o) + rest;
    match o {
        None => {
            assert(b.skip(1) =~= spec_encode_u32(0) + rest);
            lemma_take_encode_u32(0, rest);
        },
        Some(v) => {
            assert(b.skip(1) =~= spec_encode_u32(v) + rest);
            lemma_take_encode_u32(v, rest);
        },
    }
}

pub proof fn lemma_take_encode_opt_str(o: Option<Seq<char>>, rest: Seq<u8>)
    requires
        o matches Some(s) ==> vstd::utf8::encode_utf8(s).len() <= u64::MAX,
    ensures
        spec_take_opt_str(spec_encode_opt_str(o) + rest) == Some((o, rest)),
{
    let b = spec_encode_opt_str(o) + rest;
    match o {
        None => {
            assert(b.skip(1) =~= rest);
        },
        Some(s) => {
            assert(b.skip(1) =~= spec_encode_str(s) + rest);
            lemma_take_encode_str(s, rest);
        },
    }
}

pub proof fn lemma_take_encode_loc(l: SpecSourceLocation, rest: Seq<u8>)
    requires
        spec_loc_wf(l),
    ensures
        spec_take_loc(spec_encode_loc(l) + rest) == Some((l, rest)),
{
    let r4 = spec_encode_opt_str(l.github_link) + rest;
    let r3 = spec_encode_opt_u32(l.column_end) + r4;
    let r2 = spec_encode_u32(l.column) + r3;
    let r1 = spec_encode_u32(l.line) + r2;
    assert(spec_encode_loc(l) + rest =~= spec_encode_str(l.file) + r1);
    lemma_take_encode_str(l.file, r1);
    lemma_take_encode_u32(l.line, r2);
    lemma_take_encode_u32(l.column, r3);
    lemma_take_encode_opt_u32(l.column_end, r4);
    lemma_take_encode_opt_str(l.github_link, rest);
}

pub proof fn lemma_take_encode_pair(p: (u64, SpecSourceLocation), rest: Seq<u8>)
    requires
        spec_loc_wf(p.1),
    ensures
        spec_take_pair(spec_encode_pair(p) + rest) == Some((p, rest)),
{
    let r1 = spec_encode_loc(p.1) + rest;
    assert(spec_encode_pair(p) + rest =~= spec_encode_u64(p.0) + r1);
    lemma_take_encode_u64(p.0, r1);
    lemma_take_encode_loc(p.1, rest);
}

#[verifier::rlimit(100)]
#[verifier::spinoff_prover]
pub proof fn lemma_take_encode_mappings(ms: Seq<(u64, SpecSourceLocation)>, rest: Seq<u8>)
    requires
        forall|i: int| 0 <= i < ms.len() ==> spec_loc_wf(#[trigger] ms[i].1),
    ensures
        spec_take_mappings(spec_encode_mappings(ms) + rest, ms.len() as int) == Some((ms, rest)),
    decreases ms.len(),
{
    if ms.len() == 0 {
        assert(spec_encode_mappings(ms) + rest =~= rest);
        assert(Seq::<(u64, SpecSourceLocation)>::empty() =~= ms);
    } else {
        let tail = ms.skip(1);
        assert(spec_encode_mappings(ms) + rest =~= spec_encode_pair(ms[0]) + (spec_encode_mappings(
            tail,
        ) + rest));
        lemma_take_encode_pair(ms[0], spec_encode_mappings(tail) + rest);
        assert forall|i: int| 0 <= i < tail.len() implies spec_loc_wf(#[trigger] tail[i].1) by {
            assert(tail[i] == ms[i + 1]);
        }
        lemma_take_encode_mappings(tail, rest);
        assert(seq![ms[0]] + tail =~= ms);
    }
}

/// Appending one mapping extends the encoding by that mapping's bytes.
pub proof fn lemma_enc_mappings_snoc(ms: Seq<(u64, SpecSourceLocation)>, p: (u64, SpecSourceLocation))
    ensures
        spec_encode_mappings(ms.push(p)) == spec_encode_mappings(ms) + spec_encode_pair(p),
    decreases ms.len(),
{
    if ms.len() == 0 {
        assert(ms.push(p).skip(1) =~= Seq::<(u64, SpecSourceLocation)>::empty());
        assert(spec_encode_mappings(Seq::<(u64, SpecSourceLocation)>::empty())
            == Seq::<u8>::empty());
        assert(spec_encode_mappings(ms.push(p)) == spec_encode_pair(p) + Seq::<u8>::empty());
        assert(spec_encode_pair(p) + Seq::<u8>::empty() =~= Seq::<u8>::empty() + spec_encode_pair(
            p,
        ));
    } else {
        assert(ms.push(p).skip(1) =~= ms.skip(1).push(p));
        lemma_enc_mappings_snoc(ms.skip(1), p);
        assert(spec_encode_mappings(ms.push(p)) =~= spec_encode_mappings(ms) + spec_encode_pair(p));
    }
}

/// Decoding an encoded entry yields the entry back: the cache file format
/// round-trips.
pub proof fn lemma_decode_encode_entry(e: SpecCacheEntry)
    requires
        spec_entry_wf(e),
    ensures
        spec_decode_entry(spec_encode_entry(e)) == Some(e),
{
    let r4 = spec_encode_u64(e.created_at);
    let r3 = spec_encode_mappings(e.mappings) + r4;
    let r2 = spec_encode_u64(e.mappings.len() as u64) + r3;
    let r1 = spec_encode_bool(e.has_symbols) + r2;
    assert(spec_encode_entry(e) =~= spec_encode_str(e.wasm_hash) + r1);
    lemma_take_encode_str(e.wasm_hash, r1);
    lemma_take_encode_bool(e.has_symbols, r2);
    lemma_take_encode_u64(e.mappings.len() as u64, r3);
    lemma_take_encode_mappings(e.mappings, r4);
    lemma_take_encode_u64(e.created_at, Seq::empty());
    assert(r4 + Seq::<u8>::empty() =~= r4);
}

/// Spec-level image of a mapping list.
pub open spec fn spec_mappings_view(m: Seq<(u64, SourceLocation)>) -> Seq<
    (u64, SpecSourceLocation),
> {
    Seq::new(m.len(), |i: int| (m[i].0, m[i].1@))
}

// ---------------------------------------------------------------------------
// Executable encoder.
// ---------------------------------------------------------------------------
#[verifier::loop_isolation(false)]
fn push_u64(out: &mut Vec<u8>, v: u64)
    ensures
        final(out)@ == old(out)@ + spec_encode_u64(v),
{
    out.push(#[verifier::truncate] (v as u8));
    out.push(#[verifier::truncate] ((v >> 8) as u8));
    out.push(#[verifier::truncate] ((v >> 16) as u8));
    out.push(#[verifier::truncate] ((v >> 24) as u8));
    out.push(#[verifier::truncate] ((v >> 32) as u8));
    out.push(#[verifier::truncate] ((v >> 40) as u8));
    out.push(#[verifier::truncate] ((v >> 48) as u8));
    out.push(#[verifier::truncate] ((v >> 56) as u8));
    proof {
        assert(out@ =~= old(out)@ + spec_encode_u64(v));
    }
}

fn push_u32(out: &mut Vec<u8>, v: u32)
    ensures
        final(out)@ == old(out)@ + spec_encode_u32(v),
{
    out.push(#[verifier::truncate] (v as u8));
    out.push(#[verifier::truncate] ((v >> 8) as u8));
    out.push(#[verifier::truncate] ((v >> 16) as u8));
    out.push(#[verifier::truncate] ((v >> 24) as u8));
    proof {
        assert(out@ =~= old(out)@ + spec_encode_u32(v));
    }
}

fn push_bool(out: &mut Vec<u8>, b: bool)
    ensures
        final(out)@ == old(out)@ + spec_encode_bool(b),
{
    out.push(if b {
        1
    } else {
        0
    });
    proof {
        assert(out@ =~= old(out)@ + spec_encode_bool(b));
    }
}

fn push_str(out: &mut Vec<u8>, s: &str)
    ensures
        final(out)@ == old(out)@ + spec_encode_str(s@),
        vstd::utf8::encode_utf8(s@).len() <= u64::MAX,
{
    let bytes = s.as_bytes();
    let n = bytes.len();
    push_u64(out, n as u64);
    let mut bv = vstd::slice::slice_to_vec(bytes);
    out.append(&mut bv);
    proof {
        assert(out@ =~= old(out)@ + spec_encode_str(s@));
    }
}

fn push_opt_u32(out: &mut Vec<u8>, o: Option<u32>)
    ensures
        final(out)@ == old(out)@ + spec_encode_opt_u32(o),
{
    match o {
        None => {
            out.push(0);
            push_u32(out, 0);
        },
        Some(v) => {
            out.push(1);
            push_u32(out, v);
        },
    }
    proof {
        assert(out@ =~= old(out)@ + spec_encode_opt_u32(o));
    }
}

fn push_opt_str(out: &mut Vec<u8>, o: &Option<String>)
    ensures
        final(out)@ == old(out)@ + spec_encode_opt_str(
            match o {
                Some(s) => Some(s@),
                None => None,
            },
        ),
        o matches Some(s) ==> vstd::utf8::encode_utf8(s@).len() <= u64::MAX,
{
    match o {
        None => {
            out.push(0);
        },
        Some(s) => {
            out.push(1);
            push_str(out, s.as_str());
        },
    }
    proof {
        assert(out@ =~= old(out)@ + spec_encode_opt_str(
            match o {
                Some(s) => Some(s@),
                None => None,
            },
        ));
    }
}

fn push_loc(out: &mut Vec<u8>, l: &SourceLocation)
    ensures
        final(out)@ == old(out)@ + spec_encode_loc(l@),
        spec_loc_wf(l@),
{
    push_str(out, l.file.as_str());
    push_u32(out, l.line);
    push_u32(out, l.column);
    push_opt_u32(out, l.column_end);
    push_opt_str(out, &l.github_link);
    proof {
        assert(out@ =~= old(out)@ + spec_encode_loc(l@));
    }
}

/// Serializes an entry to its binary cache form. Every entry held in an
/// executable value fits the format's length fields, so its encoding decodes
/// back to it (see [`lemma_decode_encode_entry`]).
#[verifier::loop_isolation(false)]
pub fn encode_entry(entry: &SourceMapCacheEntry) -> (r: Vec<u8>)
    ensures
        r@ == spec_encode_entry(entry@),
        spec_entry_wf(entry@),
{
    let mut out: Vec<u8> = Vec::new();
    push_str(&mut out, entry.wasm_hash.as_str());
    push_bool(&mut out, entry.has_symbols);
    push_u64(&mut out, entry.mappings.len() as u64);
    let ghost head = out@;
    let mut i: usize = 0;
    while i < entry.mappings.len()
        invariant
            i <= entry.mappings.len(),
            out@ == head + spec_encode_mappings(entry@.mappings.take(i as int)),
            forall|t: int| 0 <= t < i ==> spec_loc_wf(#[trigger] entry@.mappings[t].1),
        decreases entry.mappings.len() - i,
    {
        let ghost before = out@;
        push_u64(&mut out, entry.mappings[i].0);
        push_loc(&mut out, &entry.mappings[i].1);
        proof {
            let ms = entry@.mappings;
            assert(out@ =~= before + spec_encode_pair(ms[i as int]));
            lemma_enc_mappings_snoc(ms.take(i as int), ms[i as int]);
            assert(ms.take(i + 1) =~= ms.take(i as int).push(ms[i as int]));
            assert(out@ =~= head + spec_encode_mappings(ms.take(i + 1)));
        }
        i = i + 1;
    }
    proof {
        assert(entry@.mappings.take(entry.mappings.len() as int) =~= entry@.mappings);
    }
    push_u64(&mut out, entry.created_at);
    proof {
        assert(out@ =~= spec_encode_entry(entry@));
    }
    out
}

// ---------------------------------------------------------------------------
// Executable decoder.
// ---------------------------------------------------------------------------
fn take_u64(data: &[u8], pos: usize) -> (r: Option<(u64, usize)>)
    requires
        pos <= data@.len(),
    ensures
        match r {
            None => spec_take_u64(data@.skip(pos as int)) is None,
            Some((v, p2)) => pos <= p2 <= data@.len() && spec_take_u64(data@.skip(pos as int))
                == Some((v, data@.skip(p2 as int))),
        },
{
    let len = data.len();
    if len - pos >= 8 {
        let v = (data[pos] as u64) | ((data[pos + 1] as u64) << 8) | ((data[pos + 2] as u64) << 16)
            | ((data[pos + 3] as u64) << 24) | ((data[pos + 4] as u64) << 32) | ((data[pos
            + 5] as u64) << 40) | ((data[pos + 6] as u64) << 48) | ((data[pos + 7] as u64) << 56);
        proof {
            assert(data@.skip(pos as int).skip(8) =~= data@.skip(pos as int + 8));
        }
        Some((v, pos + 8))
    } else {
        None
    }
}

fn take_u32(data: &[u8], pos: usize) -> (r: Option<(u32, usize)>)
    requires
        pos <= data@.len(),
    ensures
        match r {
            None => spec_take_u32(data@.skip(pos as int)) is None,
            Some((v, p2)) => pos <= p2 <= data@.len() && spec_take_u32(data@.skip(pos as int))
                == Some((v, data@.skip(p2 as int))),
        },
{
    let len = data.len();
    if len - pos >= 4 {
        let v = (data[pos] as u32) | ((data[pos + 1] as u32) << 8) | ((data[pos + 2] as u32) << 16)
            | ((data[pos + 3] as u32) << 24);
        proof {
            assert(data@.skip(pos as int).skip(4) =~= data@.skip(pos as int + 4));
        }
        Some((v, pos + 4))
    } else {
        None
    }
}

fn take_bool(data: &[u8], pos: usize) -> (r: Option<(bool, usize)>)
    requires
        pos <= data@.len(),
    ensures
        match r {
            None => spec_take_bool(data@.skip(pos as int)) is None,
            Some((v, p2)) => pos <= p2 <= data@.len() && spec_take_bool(data@.skip(pos as int))
                == Some((v, data@.skip(p2 as int))),
        },
{
    let len = data.len();
    if len - pos >= 1 {
        proof {
            assert(data@.skip(pos as int).skip(1) =~= data@.skip(pos as int + 1));
        }
        if data[pos] == 1 {
            Some((true, pos + 1))
        } else if data[pos] == 0 {
            Some((false, pos + 1))
        } else {
            None
        }
    } else {
        None
    }
}

fn take_str(data: &[u8], pos: usize) -> (r: Option<(String, usize)>)
    requires
        pos <= data@.len(),
    ensures
        match r {
            None => spec_take_str(data@.skip(pos as int)) is None,
            Some((s, p2)) => pos <= p2 <= data@.len() && spec_take_str(data@.skip(pos as int))
                == Some((s@, data@.skip(p2 as int))),
        },
{
    let (n, p1) = match take_u64(data, pos) {
        None => return None,
        Some(v) => v,
    };
    let len = data.len();
    if n > (len - p1) as u64 {
        return None;
    }
    let nn = n as usize;
    let bytes = vstd::slice::slice_subrange(data, p1, p1 + nn);
    proof {
        assert(bytes@ =~= data@.skip(p1 as int).take(n as int));
    }
    match crate::byte_readers::bytes_to_string(bytes) {
        None => None,
        Some(s) => {
            proof {
                assert(data@.skip(p1 as int).skip(n as int) =~= data@.skip((p1 + nn) as int));
            }
            Some((s, p1 + nn))
        },
    }
}

fn take_opt_u32(data: &[u8], pos: usize) -> (r: Option<(Option<u32>, usize)>)
    requires
        pos <= data@.len(),
    ensures
        match r {
            None => spec_take_opt_u32(data@.skip(pos as int)) is None,
            Some((v, p2)) => pos <= p2 <= data@.len() && spec_take_opt_u32(data@.skip(pos as int))
                == Some((v, data@.skip(p2 as int))),
        },
{
    let len = data.len();
    if len - pos < 1 {
        return None;
    }
    let tag = data[pos];
    proof {
        assert(data@.skip(pos as int).skip(1) =~= data@.skip(pos as int + 1));
    }
    match take_u32(data, pos + 1) {
        None => None,
        Some((v, p2)) => {
            if tag == 0 {
                Some((None, p2))
            } else if tag == 1 {
                Some((Some(v), p2))
            } else {
                None
            }
        },
    }
}

fn take_opt_str(data: &[u8], pos: usize) -> (r: Option<(Option<String>, usize)>)
    requires
        pos <= data@.len(),
    ensures
        match r {
            None => spec_take_opt_str(data@.skip(pos as int)) is None,
            Some((v, p2)) => pos <= p2 <= data@.len() && spec_take_opt_str(data@.skip(pos as int))
                == Some(
                (
                    match v {
                        Some(s) => Some(s@),
                        None => None,
                    },
                    data@.skip(p2 as int),
                ),
            ),
        },
{
    let len = data.len();
    if len - pos < 1 {
        return None;
    }
    let tag = data[pos];
    proof {
        assert(data@.skip(pos as int).skip(1) =~= data@.skip(pos as int + 1));
    }
    if tag == 0 {
        Some((None, pos + 1))
    } else if tag == 1 {
        match take_str(data, pos + 1) {
            None => None,
            Some((s, p2)) => Some((Some(s), p2)),
        }
    } else {
        None
    }
}

fn take_loc(data: &[u8], pos: usize) -> (r: Option<(SourceLocation, usize)>)
    requires
        pos <= data@.len(),
    ensures
        match r {
            None => spec_take_loc(data@.skip(pos as int)) is None,
            Some((l, p2)) => pos <= p2 <= data@.len() && spec_take_loc(data@.skip(pos as int))
                == Some((l@, data@.skip(p2 as int))),
        },
{
    let (file, p1) = match take_str(data, pos) {
        None => return None,
        Some(v) => v,
    };
    let (line, p2) = match take_u32(data, p1) {
        None => return None,
        Some(v) => v,
    };
    let (column, p3) = match take_u32(data, p2) {
        None => return None,
        Some(v) => v,
    };
    let (column_end, p4) = match take_opt_u32(data, p3) {
        None => return None,
        Some(v) => v,
    };
    let (github_link, p5) = match take_opt_str(data, p4) {
        None => return None,
        Some(v) => v,
    };
    Some((SourceLocation { file, line, column, column_end, github_link }, p5))
}

fn take_pair(data: &[u8], pos: usize) -> (r: Option<((u64, SourceLocation), usize)>)
    requires
        pos <= data@.len(),
    ensures
        match r {
            None => spec_take_pair(data@.skip(pos as int)) is None,
            Some((p, p2)) => pos <= p2 <= data@.len() && spec_take_pair(data@.skip(pos as int))
                == Some(((p.0, p.1@), data@.skip(p2 as int))),
        },
{
    let (k, p1) = match take_u64(data, pos) {
        None => return None,
        Some(v) => v,
    };
    let (l, p2) = match take_loc(data, p1) {
        None => return None,
        Some(v) => v,
    };
    Some(((k, l), p2))
}

/// Reads `count` mappings from `pos`.
#[verifier::loop_isolation(false)]
#[verifier::spinoff_prover]
#[verifier::rlimit(100)]
fn take_mappings(data: &[u8], pos: usize, count: u64) -> (r: Option<
    (Vec<(u64, SourceLocation)>, usize),
>)
    requires
        pos <= data@.len(),
    ensures
        match r {
            None => spec_take_mappings(data@.skip(pos as int), count as int) is None,
            Some((ms, p2)) => pos <= p2 <= data@.len() && spec_take_mappings(
                data@.skip(pos as int),
                count as int,
            ) == Some((spec_mappings_view(ms@), data@.skip(p2 as int))),
        },
{
    let mut mappings: Vec<(u64, SourceLocation)> = Vec::new();
    let mut cur = pos;
    let mut i: u64 = 0;
    while i < count
        invariant
            i <= count,
            pos <= cur <= data@.len(),
            spec_take_mappings(data@.skip(pos as int), count as int) == (match spec_take_mappings(
                data@.skip(cur as int),
                count - i,
            ) {
                None => None::<(Seq<(u64, SpecSourceLocation)>, Seq<u8>)>,
                Some((ps, rem)) => Some((spec_mappings_view(mappings@) + ps, rem)),
            }),
        decreases count - i,
    {
        let (pr, p_next) = match take_pair(data, cur) {
            None => return None,
            Some(v) => v,
        };
        let ghost before = spec_mappings_view(mappings@);
        let ghost prv = (pr.0, pr.1@);
        mappings.push(pr);
        proof {
            assert(spec_mappings_view(mappings@) =~= before.push(prv));
            if let Some((ps, rem)) = spec_take_mappings(data@.skip(p_next as int), count - (i + 1)) {
                assert(before.push(prv) + ps =~= before + (seq![prv] + ps));
            }
        }
        cur = p_next;
        i = i + 1;
    }
    proof {
        assert(spec_mappings_view(mappings@) + Seq::<(u64, SpecSourceLocation)>::empty()
            =~= spec_mappings_view(mappings@));
    }
    Some((mappings, cur))
}

/// Deserializes an entry from its binary cache form; `None` on anything
/// malformed.
#[verifier::spinoff_prover]
pub fn decode_entry(bytes: &[u8]) -> (r: Option<SourceMapCacheEntry>)
    ensures
        match spec_decode_entry(bytes@) {
            None => r is None,
            Some(ev) => r matches Some(e) && e@ == ev,
        },
{
    proof {
        assert(bytes@.skip(0) =~= bytes@);
    }
    let (wasm_hash, p1) = match take_str(bytes, 0) {
        None => return None,
        Some(v) => v,
    };
    let (has_symbols, p2) = match take_bool(bytes, p1) {
        None => return None,
        Some(v) => v,
    };
    let (count, p3) = match take_u64(bytes, p2) {
        None => return None,
        Some(v) => v,
    };
    let (mappings, p4) = match take_mappings(bytes, p3, count) {
        None => return None,
        Some(v) => v,
    };
    let (created_at, _p5) = match take_u64(bytes, p4) {
        None => return None,
        Some(v) => v,
    };
    let entry = SourceMapCacheEntry { wasm_hash, has_symbols, mappings, created_at };
    proof {
        assert(entry@.mappings =~= spec_mappings_view(entry.mappings@));
    }
    Some(entry)
}


impl SourceMapCache {
    /// Interprets a cache read. When `no_cache` is set the cache is bypassed
    /// and nothing is returned, whatever is stored; otherwise a missing file
    /// is a miss, and a present file yields its decoded entry, a corrupt one
    /// counting as a miss rather than an error.
    pub fn get(&self, no_cache: bool, cache_file: Option<&Vec<u8>>) -> (r: Option<
        SourceMapCacheEntry,
    >)
        ensures
            no_cache ==> r is None,
            !no_cache ==> match cache_file {
                None => r is None,
                Some(b) => match spec_decode_entry(b@) {
                    None => r is None,
                    Some(ev) => r matches Some(e) && e@ == ev,
                },
            },
    {
        if no_cache {
            return None;
        }
        match cache_file {
            None => None,
            Some(b) => decode_entry(b.as_slice()),
        }
    }

    /// Serializes `entry` for storage; what `store` writes behind the
    /// exclusive lock and the atomic rename.
    pub fn store_bytes(entry: &SourceMapCacheEntry) -> (r: Vec<u8>)
        ensures
            r@ == spec_encode_entry(entry@),
    {
        encode_entry(entry)
    }
}

// ---------------------------------------------------------------------------
// Inventory, clearing and size: the decisions behind list, clear and the
// cache-size report.
// ---------------------------------------------------------------------------
/// Whether a file name is a cache entry file: at least one character before a
/// `.bin` extension. Lock and staging files never match.
pub open spec fn spec_is_cache_file_name(name: Seq<char>) -> bool {
    name.len() >= 5 && name.skip(name.len() - 4) == ".bin"@
}

/// How many of the listed file names are cache entry files: what a clear
/// operation deletes and reports.
pub open spec fn spec_count_cache_files(names: Seq<Seq<char>>) -> nat
    decreases names.len(),
{
    if names.len() == 0 {
        0
    } else {
        spec_count_cache_files(names.drop_last()) + (if spec_is_cache_file_name(names.last()) {
            1nat
        } else {
            0nat
        })
    }
}

/// Saturating total of the listed file sizes.
pub open spec fn spec_total_size(sizes: Seq<u64>) -> u64
    decreases sizes.len(),
{
    if sizes.len() == 0 {
        0u64
    } else {
        spec_total_size(sizes.drop_last()).saturating_add(sizes.last())
    }
}

/// Whether `name` is a cache entry file, `{anything}.bin`.
pub fn is_cache_file(name: &str) -> (r: bool)
    ensures
        r == spec_is_cache_file_name(name@),
{
    proof {
        reveal_strlit(".bin");
    }
    let n = name.unicode_len();
    if n < 5 {
        return false;
    }
    let r = name.get_char(n - 4) == '.' && name.get_char(n - 3) == 'b' && name.get_char(n - 2)
        == 'i' && name.get_char(n - 1) == 'n';
    proof {
        if r {
            assert(name@.skip(name@.len() - 4) =~= ".bin"@);
        } else {
            assert(name@.skip(name@.len() - 4) != ".bin"@) by {
                if name@.skip(name@.len() - 4) == ".bin"@ {
                    assert(name@.skip(name@.len() - 4)[0] == name@[name@.len() - 4]);
                    assert(name@.skip(name@.len() - 4)[1] == name@[name@.len() - 3]);
                    assert(name@.skip(name@.len() - 4)[2] == name@[name@.len() - 2]);
                    assert(name@.skip(name@.len() - 4)[3] == name@[name@.len() - 1]);
                }
            }
        }
    }
    r
}

/// Counts the cache entry files among the listed names: how many files a
/// clear of that directory removes.
#[verifier::loop_isolation(false)]
pub fn count_cache_files(names: &Vec<String>) -> (r: usize)
    ensures
        r == spec_count_cache_files(names.deep_view()),
{
    let mut count: usize = 0;
    let mut i: usize = 0;
    while i < names.len()
        invariant
            i <= names.len(),
            count <= i,
            count == spec_count_cache_files(names.deep_view().take(i as int)),
        decreases names.len() - i,
    {
        let ghost dv = names.deep_view();
        proof {
            assert(dv.take(i + 1).drop_last() =~= dv.take(i as int));
            assert(dv.take(i + 1).last() == dv[i as int]);
        }
        if is_cache_file(names[i].as_str()) {
            count = count + 1;
        }
        i = i + 1;
    }
    proof {
        assert(names.deep_view().take(names@.len() as int) =~= names.deep_view());
    }
    count
}

/// Sums the listed file sizes, saturating at the largest representable total:
/// the cache-size report.
#[verifier::loop_isolation(false)]
pub fn total_cache_size(sizes: &Vec<u64>) -> (r: u64)
    ensures
        r == spec_total_size(sizes@),
{
    let mut total: u64 = 0;
    let mut i: usize = 0;
    while i < sizes.len()
        invariant
            i <= sizes.len(),
            total == spec_total_size(sizes@.take(i as int)),
        decreases sizes.len() - i,
    {
        proof {
            assert(sizes@.take(i + 1).drop_last() =~= sizes@.take(i as int));
            assert(sizes@.take(i + 1).last() == sizes@[i as int]);
        }
        total = total.saturating_add(sizes[i]);
        i = i + 1;
    }
    proof {
        assert(sizes@.take(sizes@.len() as int) =~= sizes@);
    }
    total
}

/// The lightweight inventory view of one cache file: its decoded metadata and
/// size, without keeping the mapping table.
pub fn entry_info(bytes: &[u8], file_size: u64) -> (r: Option<CachedEntryInfo>)
    ensures
        match spec_decode_entry(bytes@) {
            None => r is None,
            Some(ev) => r matches Some(info) && info.wasm_hash@ == ev.wasm_hash
                && info.has_symbols == ev.has_symbols && info.mappings_count == ev.mappings.len()
                && info.created_at == ev.created_at && info.file_size == file_size,
        },
{
    match decode_entry(bytes) {
        None => None,
        Some(e) => {
            let count = e.mappings.len() as u64;
            Some(
                CachedEntryInfo {
                    wasm_hash: e.wasm_hash,
                    has_symbols: e.has_symbols,
                    mappings_count: count,
                    created_at: e.created_at,
                    file_size,
                },
            )
        },
    }
}

// ---------------------------------------------------------------------------
// The laws of the cache, over a model of the directory: a map from file name
// to file content. A store inserts `{hash}.bin` wholesale (the temporary file
// and the atomic rename ensure a reader never sees anything else); a read
// looks that name up; a clear drops every cache entry file.
// ---------------------------------------------------------------------------
/// Effect of storing `bytes` for `hash` on a directory.
pub open spec fn spec_store_effect(
    dir: Map<Seq<char>, Seq<u8>>,
    hash: Seq<char>,
    bytes: Seq<u8>,
) -> Map<Seq<char>, Seq<u8>> {
    dir.insert(spec_cache_file_name(hash), bytes)
}

/// The cache file a read for `hash` sees in a directory.
pub open spec fn spec_file_of(dir: Map<Seq<char>, Seq<u8>>, hash: Seq<char>) -> Option<Seq<u8>> {
    if dir.dom().contains(spec_cache_file_name(hash)) {
        Some(dir[spec_cache_file_name(hash)])
    } else {
        None
    }
}

/// Effect of clearing a directory: every cache entry file is gone, everything
/// else (locks, staging leftovers) stays.
pub open spec fn spec_clear_effect(dir: Map<Seq<char>, Seq<u8>>) -> Map<Seq<char>, Seq<u8>> {
    Map::new(
        |k: Seq<char>| dir.dom().contains(k) && !spec_is_cache_file_name(k),
        |k: Seq<char>| dir[k],
    )
}

/// Distinct hashes use distinct cache files.
pub proof fn lemma_cache_file_name_injective(h1: Seq<char>, h2: Seq<char>)
    ensures
        spec_cache_file_name(h1) == spec_cache_file_name(h2) ==> h1 == h2,
{
    if spec_cache_file_name(h1) == spec_cache_file_name(h2) {
        assert((h1 + ".bin"@).len() == h1.len() + ".bin"@.len());
        assert((h2 + ".bin"@).len() == h2.len() + ".bin"@.len());
        assert(h1.len() == h2.len());
        assert forall|i: int| 0 <= i < h1.len() implies h1[i] == h2[i] by {
            assert((h1 + ".bin"@)[i] == h1[i]);
            assert((h2 + ".bin"@)[i] == h2[i]);
        }
        assert(h1 =~= h2);
    }
}

/// A non-empty hash's cache file counts as a cache entry file, so a clear
/// removes it.
pub proof fn lemma_cache_file_name_is_cache_file(h: Seq<char>)
    requires
        h.len() >= 1,
    ensures
        spec_is_cache_file_name(spec_cache_file_name(h)),
{
    reveal_strlit(".bin");
    let name = spec_cache_file_name(h);
    assert(name.skip(name.len() - 4) =~= ".bin"@);
}

/// The hash function is deterministic: the key, and so the cache file, is
/// pinned by the module bytes alone. (That distinct bytes give distinct keys
/// rests on SHA-256's collision resistance and is assumed, not stated.)
pub proof fn lemma_hash_deterministic(a: Seq<u8>, b: Seq<u8>)
    requires
        a == b,
    ensures
        spec_hex_of(sha256_of(a)) == spec_hex_of(sha256_of(b)),
{
}

/// Round trip: after storing an entry's encoding under its own hash, a read
/// for that hash sees exactly that encoding, and decoding it yields an entry
/// with identical hash, symbol flag and mapping contents.
pub proof fn lemma_store_get_round_trip(dir: Map<Seq<char>, Seq<u8>>, e: SpecCacheEntry)
    requires
        spec_entry_wf(e),
    ensures
        spec_file_of(spec_store_effect(dir, e.wasm_hash, spec_encode_entry(e)), e.wasm_hash)
            == Some(spec_encode_entry(e)),
        spec_decode_entry(spec_encode_entry(e)) == Some(e),
{
    lemma_decode_encode_entry(e);
}

/// Idempotence: storing the same entry twice leaves the directory exactly as
/// one store does — no duplicate file, no corruption, and an inventory
/// listing of the directory is unchanged.
pub proof fn lemma_store_idempotent(dir: Map<Seq<char>, Seq<u8>>, hash: Seq<char>, bytes: Seq<u8>)
    ensures
        spec_store_effect(spec_store_effect(dir, hash, bytes), hash, bytes) == spec_store_effect(
            dir,
            hash,
            bytes,
        ),
{
    assert(spec_store_effect(spec_store_effect(dir, hash, bytes), hash, bytes)
        =~= spec_store_effect(dir, hash, bytes));
}

/// Independent writers: stores for two different hashes never interfere, and
/// both entries are retrievable afterwards, whichever order the stores land
/// in.
pub proof fn lemma_independent_stores(
    dir: Map<Seq<char>, Seq<u8>>,
    h1: Seq<char>,
    b1: Seq<u8>,
    h2: Seq<char>,
    b2: Seq<u8>,
)
    requires
        h1 != h2,
    ensures
        spec_file_of(spec_store_effect(spec_store_effect(dir, h1, b1), h2, b2), h1) == Some(b1),
        spec_file_of(spec_store_effect(spec_store_effect(dir, h1, b1), h2, b2), h2) == Some(b2),
{
    lemma_cache_file_name_injective(h1, h2);
}

/// After a clear, a read for any hash sees no cache file.
pub proof fn lemma_clear_removes_entries(dir: Map<Seq<char>, Seq<u8>>, h: Seq<char>)
    requires
        h.len() >= 1,
    ensures
        spec_file_of(spec_clear_effect(dir), h) == None::<Seq<u8>>,
{
    lemma_cache_file_name_is_cache_file(h);
}

/// Storing entries for distinct non-empty hashes into a directory with no
/// cache files leaves exactly as many cache files as entries stored: what a
/// subsequent clear removes and counts.
pub proof fn lemma_distinct_stores_count(names: Seq<Seq<char>>, hashes: Seq<Seq<char>>)
    requires
        forall|i: int| 0 <= i < names.len() ==> !spec_is_cache_file_name(#[trigger] names[i]),
        forall|i: int| 0 <= i < hashes.len() ==> (#[trigger] hashes[i]).len() >= 1,
    ensures
        spec_count_cache_files(names) == 0,
        spec_count_cache_files(
            names + hashes.map_values(|h: Seq<char>| spec_cache_file_name(h)),
        ) == hashes.len(),
{
    lemma_count_non_cache(names);
    lemma_count_cache_names(names, hashes);
}

/// Listing only non-cache files counts zero.
proof fn lemma_count_non_cache(names: Seq<Seq<char>>)
    requires
        forall|i: int| 0 <= i < names.len() ==> !spec_is_cache_file_name(#[trigger] names[i]),
    ensures
        spec_count_cache_files(names) == 0,
    decreases names.len(),
{
    if names.len() > 0 {
        lemma_count_non_cache(names.drop_last());
    }
}

/// Appending one cache file for each hash counts one per hash.
proof fn lemma_count_cache_names(names: Seq<Seq<char>>, hashes: Seq<Seq<char>>)
    requires
        forall|i: int| 0 <= i < names.len() ==> !spec_is_cache_file_name(#[trigger] names[i]),
        forall|i: int| 0 <= i < hashes.len() ==> (#[trigger] hashes[i]).len() >= 1,
    ensures
        spec_count_cache_files(names + hashes.map_values(|h: Seq<char>| spec_cache_file_name(h)))
            == hashes.len(),
    decreases hashes.len(),
{
    let files = hashes.map_values(|h: Seq<char>| spec_cache_file_name(h));
    if hashes.len() == 0 {
        assert(names + files =~= names);
        lemma_count_non_cache(names);
    } else {
        let front = hashes.drop_last();
        let front_files = front.map_values(|h: Seq<char>| spec_cache_file_name(h));
        assert((names + files).drop_last() =~= names + front_files);
        assert((names + files).last() == spec_cache_file_name(hashes.last()));
        lemma_cache_file_name_is_cache_file(hashes.last());
        lemma_count_cache_names(names, front);
    }
}

} // verus!
