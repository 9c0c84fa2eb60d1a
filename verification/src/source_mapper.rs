//! The source location resolver: inspects a WASM module's debug sections,
//! computes its content hash, and maps execution addresses back to source
//! locations, consulting a previously cached mapping table when the caller
//! supplies one.

use object::Object;
use object::ObjectSection;
use vstd::prelude::*;

use crate::line_program::parse_debug_line;
use crate::line_program::spec_parse_debug_line;
use crate::source_map_cache::spec_hex_of;
use crate::source_map_cache::spec_mappings_view;
use crate::source_map_cache::sha256_of;
use crate::source_map_cache::SourceMapCache;
use crate::source_map_cache::SourceMapCacheEntry;

verus! {

/// Spec-level image of a [`SourceLocation`].
pub ghost struct SpecSourceLocation {
    pub file: Seq<char>,
    pub line: u32,
    pub column: u32,
    pub column_end: Option<u32>,
    pub github_link: Option<Seq<char>>,
}

/// A resolved source position. `line` is 1-based and clamped to 0 on
/// underflow; a `column` of 0 means "unknown"; `column_end` is reserved for
/// ranges; `github_link` is an optional repository browse link supplied by an
/// external collaborator, never by the decoder.
#[derive(Debug)]
pub struct SourceLocation {
    pub file: String,
    pub line: u32,
    pub column: u32,
    pub column_end: Option<u32>,
    pub github_link: Option<String>,
}

impl View for SourceLocation {
    type V = SpecSourceLocation;

    open spec fn view(&self) -> SpecSourceLocation {
        SpecSourceLocation {
            file: self.file@,
            line: self.line,
            column: self.column,
            column_end: self.column_end,
            github_link: match self.github_link {
                Some(ref s) => Some(s@),
                None => None,
            },
        }
    }
}

impl Clone for SourceLocation {
    /// Clones the location, preserving its value.
    fn clone(&self) -> (r: Self)
        ensures
            r@ == self@,
    {
        SourceLocation {
            file: self.file.clone(),
            line: self.line,
            column: self.column,
            column_end: self.column_end,
            github_link: match &self.github_link {
                Some(s) => Some(s.clone()),
                None => None,
            },
        }
    }
}

/// Whether a module carries both `.debug_info` and `.debug_line` custom
/// sections — a function of the module bytes alone.
pub uninterp spec fn has_debug_sections(wasm: Seq<u8>) -> bool;

/// The raw contents of a module's `.debug_line` custom section — a function
/// of the module bytes alone.
pub uninterp spec fn debug_line_bytes_of(wasm: Seq<u8>) -> Seq<u8>;

/// Relies on object::File::parse and Object::section_by_name: whether the
/// module has both `.debug_info` and `.debug_line` sections.
#[verifier::external_body]
fn check_debug_symbols(wasm_bytes: &[u8]) -> (r: bool)
    ensures
        r == has_debug_sections(wasm_bytes@),
{
    if let Ok(obj) = object::File::parse(wasm_bytes) {
        obj.section_by_name(".debug_info").is_some() && obj.section_by_name(
            ".debug_line",
        ).is_some()
    } else {
        false
    }
}

/// Relies on object::File::parse and ObjectSection::data: the raw bytes of
/// the `.debug_line` section, when the module parses and carries one.
#[verifier::external_body]
fn extract_debug_line(wasm_bytes: &[u8]) -> (r: Option<Vec<u8>>)
    ensures
        r matches Some(d) ==> d@ == debug_line_bytes_of(wasm_bytes@),
{
    let obj = match object::File::parse(wasm_bytes) {
        Ok(o) => o,
        Err(_) => return None,
    };
    let section = obj.section_by_name(".debug_line")?;
    section.data().ok().map(|d| d.to_vec())
}

/// Spec-level image of a [`SourceMapper`].
pub ghost struct SpecMapper {
    pub debug_line: Option<Seq<u8>>,
    pub has_symbols: bool,
    pub wasm_hash: Seq<char>,
    pub cached: Option<Seq<(u64, SpecSourceLocation)>>,
}

/// The first cached location bound to `off`, if any.
pub open spec fn spec_find_mapping(ms: Seq<(u64, SpecSourceLocation)>, off: u64) -> Option<
    SpecSourceLocation,
>
    decreases ms.len(),
{
    if ms.len() == 0 {
        None
    } else if ms[0].0 == off {
        Some(ms[0].1)
    } else {
        spec_find_mapping(ms.skip(1), off)
    }
}

/// What a lookup on a mapper returns: nothing when the module lacked debug
/// symbols; otherwise the cached mapping when one is loaded and bound to the
/// offset, and failing that a fresh decode of the `.debug_line` section.
pub open spec fn spec_map_offset(m: SpecMapper, off: u64) -> Option<SpecSourceLocation> {
    if !m.has_symbols {
        None
    } else {
        let cached_hit = match m.cached {
            Some(ms) => spec_find_mapping(ms, off),
            None => None,
        };
        match cached_hit {
            Some(l) => Some(l),
            None => match m.debug_line {
                Some(d) => spec_parse_debug_line(d, off),
                None => None,
            },
        }
    }
}

/// A module without debug symbols resolves nothing: every lookup is `None`.
pub proof fn lemma_no_symbols_no_location(m: SpecMapper, off: u64)
    requires
        !m.has_symbols,
    ensures
        spec_map_offset(m, off) is None,
{
}

/// Resolves raw execution addresses inside one WASM module to source
/// locations. Construction inspects the module once: the symbol presence
/// flag, the module hash, the `.debug_line` bytes, and — when the caller
/// hands in a previously cached entry whose symbol flag matches the freshly
/// computed one — the cached mapping table.
pub struct SourceMapper {
    debug_line_data: Option<Vec<u8>>,
    has_symbols: bool,
    wasm_hash: String,
    cached_mappings: Option<Vec<(u64, SourceLocation)>>,
}

impl View for SourceMapper {
    type V = SpecMapper;

    closed spec fn view(&self) -> SpecMapper {
        SpecMapper {
            debug_line: match self.debug_line_data {
                Some(ref d) => Some(d@),
                None => None,
            },
            has_symbols: self.has_symbols,
            wasm_hash: self.wasm_hash@,
            cached: match self.cached_mappings {
                Some(ref v) => Some(spec_mappings_view(v@)),
                None => None,
            },
        }
    }
}

/// The first location bound to `off` in a mapping list, if any.
fn find_mapping<'a>(ms: &'a Vec<(u64, SourceLocation)>, off: u64) -> (r: Option<
    &'a SourceLocation,
>)
    ensures
        match spec_find_mapping(spec_mappings_view(ms@), off) {
            None => r is None,
            Some(l) => r matches Some(loc) && loc@ == l,
        },
{
    let mut i: usize = 0;
    proof {
        assert(spec_mappings_view(ms@).skip(0) =~= spec_mappings_view(ms@));
    }
    loop
        invariant
            i <= ms@.len(),
            spec_find_mapping(spec_mappings_view(ms@), off) == spec_find_mapping(
                spec_mappings_view(ms@).skip(i as int),
                off,
            ),
        decreases ms@.len() - i,
    {
        if i >= ms.len() {
            return None;
        }
        if ms[i].0 == off {
            proof {
                assert(spec_mappings_view(ms@).skip(i as int)[0] == (ms@[i as int].0, ms@[i as int].1@));
            }
            return Some(&ms[i].1);
        }
        proof {
            assert(spec_mappings_view(ms@).skip(i as int).skip(1) =~= spec_mappings_view(
                ms@,
            ).skip(i + 1));
            assert(spec_mappings_view(ms@).skip(i as int)[0] == (ms@[i as int].0, ms@[i as int].1@));
        }
        i = i + 1;
    }
}

impl SourceMapper {
    /// Creates a mapper for `wasm_bytes`, consulting `cached`: an entry a
    /// cache read for this module's hash returned, if any. The cached mapping
    /// table is trusted only when its symbol flag matches the one freshly
    /// computed from the bytes.
    pub fn new(wasm_bytes: Vec<u8>, cached: Option<SourceMapCacheEntry>) -> (r: SourceMapper)
        ensures
            r@.has_symbols == has_debug_sections(wasm_bytes@),
            r@.wasm_hash == spec_hex_of(sha256_of(wasm_bytes@)),
            r@.debug_line matches Some(d) ==> d == debug_line_bytes_of(wasm_bytes@)
                && r@.has_symbols,
            !r@.has_symbols ==> r@.debug_line is None,
            match cached {
                Some(e) => if e.has_symbols == has_debug_sections(wasm_bytes@) {
                    r@.cached == Some(e@.mappings)
                } else {
                    r@.cached is None
                },
                None => r@.cached is None,
            },
    {
        let has_symbols = check_debug_symbols(wasm_bytes.as_slice());
        let wasm_hash = SourceMapCache::compute_wasm_hash(wasm_bytes.as_slice());
        let debug_line_data = if has_symbols {
            extract_debug_line(wasm_bytes.as_slice())
        } else {
            None
        };
        let cached_mappings = match cached {
            Some(e) => {
                if e.has_symbols == has_symbols {
                    Some(e.mappings)
                } else {
                    None
                }
            },
            None => None,
        };
        SourceMapper { debug_line_data, has_symbols, wasm_hash, cached_mappings }
    }

    /// Creates a mapper that never consults a cache.
    pub fn new_without_cache(wasm_bytes: Vec<u8>) -> (r: SourceMapper)
        ensures
            r@.has_symbols == has_debug_sections(wasm_bytes@),
            r@.wasm_hash == spec_hex_of(sha256_of(wasm_bytes@)),
            r@.debug_line matches Some(d) ==> d == debug_line_bytes_of(wasm_bytes@)
                && r@.has_symbols,
            !r@.has_symbols ==> r@.debug_line is None,
            r@.cached is None,
    {
        SourceMapper::new(wasm_bytes, None)
    }

    /// Maps an execution address to a source location: the cached table
    /// first, then a fresh decode of the `.debug_line` section; nothing when
    /// the module has no debug symbols.
    pub fn map_wasm_offset_to_source(&self, wasm_offset: u64) -> (r: Option<SourceLocation>)
        ensures
            match spec_map_offset(self@, wasm_offset) {
                None => r is None,
                Some(l) => r matches Some(loc) && loc@ == l,
            },
            !self@.has_symbols ==> r is None,
    {
        if !self.has_symbols {
            return None;
        }
        if let Some(cached) = &self.cached_mappings {
            if let Some(loc) = find_mapping(cached, wasm_offset) {
                return Some(loc.clone());
            }
        }
        match &self.debug_line_data {
            Some(d) => parse_debug_line(d.as_slice(), wasm_offset),
            None => None,
        }
    }

    /// Whether the module carries both debug sections.
    pub fn has_debug_symbols(&self) -> (r: bool)
        ensures
            r == self@.has_symbols,
    {
        self.has_symbols
    }

    /// The module's content hash, the key under which its mappings cache.
    pub fn get_wasm_hash(&self) -> (r: &str)
        ensures
            r@ == self@.wasm_hash,
    {
        self.wasm_hash.as_str()
    }
}

} // verus!
