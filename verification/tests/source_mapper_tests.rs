//! Tests for the resolver facade, the byte readers and the line-program
//! decoder on a hand-assembled DWARF v4 section.

use simulator::byte_readers::read_cstr;
use simulator::byte_readers::read_i8;
use simulator::byte_readers::read_sleb128;
use simulator::byte_readers::read_u16_le;
use simulator::byte_readers::read_u32_le;
use simulator::byte_readers::read_u8;
use simulator::byte_readers::read_uleb128;
use simulator::line_program::parse_debug_line;
use simulator::line_program::parse_header;
use simulator::line_program::step;
use simulator::line_program::LineRegisters;
use simulator::line_program::StepResult;
use simulator::source_map_cache::SourceMapCache;
use simulator::source_map_cache::SourceMapCacheEntry;
use simulator::source_mapper::SourceLocation;
use simulator::source_mapper::SourceMapper;

#[test]
fn test_source_mapper_without_symbols() {
    let wasm_bytes = vec![0x00, 0x61, 0x73, 0x6d, 0x01, 0x00, 0x00, 0x00];
    let mapper = SourceMapper::new_without_cache(wasm_bytes);

    assert!(!mapper.has_debug_symbols());
    assert!(mapper.map_wasm_offset_to_source(0x1234).is_none());
}

#[test]
fn test_source_mapper_with_mock_symbols() {
    // Minimal WASM header only -- no debug sections
    let wasm_bytes = vec![0x00, 0x61, 0x73, 0x6d, 0x01, 0x00, 0x00, 0x00];
    let mapper = SourceMapper::new_without_cache(wasm_bytes);

    assert!(!mapper.has_debug_symbols());
}

#[test]
fn test_uleb128_decode() {
    // 300 = 0xAC 0x02 in unsigned LEB128
    let data = [0xAC, 0x02];
    let (val, n) = read_uleb128(&data, 0).unwrap();
    assert_eq!(val, 300);
    assert_eq!(n, 2);
}

#[test]
fn test_sleb128_decode_negative() {
    // -1 = 0x7F in signed LEB128
    let data = [0x7F];
    let (val, n) = read_sleb128(&data, 0).unwrap();
    assert_eq!(val, -1);
    assert_eq!(n, 1);
}

#[test]
fn test_wasm_hash() {
    let wasm_bytes = vec![0x00, 0x61, 0x73, 0x6d];
    let hash = SourceMapCache::compute_wasm_hash(&wasm_bytes);
    assert_eq!(hash.len(), 64);
}

#[test]
fn fixed_width_readers_are_bounds_checked() {
    let data = [0x01, 0x02, 0x03, 0x04];
    assert_eq!(read_u8(&data, 0), Some(0x01));
    assert_eq!(read_u8(&data, 4), None);
    assert_eq!(read_i8(&[0xff], 0), Some(-1));
    assert_eq!(read_u16_le(&data, 0), Some(0x0201));
    assert_eq!(read_u16_le(&data, 3), None);
    assert_eq!(read_u32_le(&data, 0), Some(0x04030201));
    assert_eq!(read_u32_le(&data, 1), None);
}

#[test]
fn uleb128_guards_against_shift_overflow() {
    // Ten continuation groups would shift past 64 bits.
    let data = [0x80u8; 11];
    assert!(read_uleb128(&data, 0).is_none());
    assert!(read_sleb128(&data, 0).is_none());
    // A truncated encoding fails rather than wrapping.
    assert!(read_uleb128(&[0x80], 0).is_none());
}

#[test]
fn sleb128_sign_extends_only_the_final_group() {
    // 0xC0 0x00: low group with sign bit set, but a second group follows and
    // clears it, so the value is 64, not negative.
    let (val, n) = read_sleb128(&[0xC0, 0x00], 0).unwrap();
    assert_eq!(val, 64);
    assert_eq!(n, 2);
    // -300 encodes as 0xD4 0x7D.
    let (val, n) = read_sleb128(&[0xD4, 0x7D], 0).unwrap();
    assert_eq!(val, -300);
    assert_eq!(n, 2);
}

#[test]
fn cstr_reader_returns_string_and_consumed_length() {
    let data = b"dir\0rest";
    let (s, n) = read_cstr(data, 0).unwrap();
    assert_eq!(s, "dir");
    assert_eq!(n, 4);
    assert!(read_cstr(b"no terminator", 0).is_none());
}

/// A DWARF32 v4 line-number program with one sequence that maps address
/// `0x1000` to `src/test.rs` line 42, assembled byte by byte.
fn v4_debug_line_section() -> Vec<u8> {
    let mut header_rest: Vec<u8> = vec![
        0x01, // minimum_instruction_length
        0x01, // maximum_ops_per_instruction
        0x01, // default_is_stmt
        0xfb, // line_base = -5
        0x0e, // line_range = 14
        0x0d, // opcode_base = 13
        // standard_opcode_lengths, 12 entries
        0x00, 0x01, 0x01, 0x01, 0x01, 0x00, 0x00, 0x00, 0x01, 0x00, 0x00, 0x01,
    ];
    header_rest.push(0x00); // empty include_directories
    header_rest.extend_from_slice(b"src/test.rs\0"); // file name
    header_rest.push(0x00); // directory index 0
    header_rest.push(0x00); // mtime, discarded
    header_rest.push(0x00); // length, discarded
    header_rest.push(0x00); // end of file_names

    let program: Vec<u8> = vec![
        0x00, 0x05, 0x02, 0x00, 0x10, 0x00, 0x00, // DW_LNE_set_address 0x1000
        0x03, 0x29, // DW_LNS_advance_line +41
        0x01, // DW_LNS_copy: emit row 0x1000 -> line 42
        0x00, 0x01, 0x01, // DW_LNE_end_sequence
    ];

    let header_length = header_rest.len() as u32;
    let unit_length = (2 + 4 + header_rest.len() + program.len()) as u32;

    let mut section = Vec::new();
    section.extend_from_slice(&unit_length.to_le_bytes());
    section.extend_from_slice(&4u16.to_le_bytes()); // version
    section.extend_from_slice(&header_length.to_le_bytes());
    section.extend_from_slice(&header_rest);
    section.extend_from_slice(&program);
    section
}

#[test]
fn decoder_resolves_the_encoded_address() {
    let section = v4_debug_line_section();
    let loc = parse_debug_line(&section, 0x1000).unwrap();
    assert_eq!(loc.file, "src/test.rs");
    assert_eq!(loc.line, 42);
    assert_eq!(loc.column, 0); // unknown
    assert!(loc.column_end.is_none());
    assert!(loc.github_link.is_none());
}

#[test]
fn decoder_returns_nothing_for_an_absent_address() {
    let section = v4_debug_line_section();
    assert!(parse_debug_line(&section, 0x2000).is_none());
}

#[test]
fn decoder_rejects_structural_inconsistencies() {
    let section = v4_debug_line_section();

    // 64-bit DWARF marker.
    let mut marked = section.clone();
    marked[0] = 0xff;
    marked[1] = 0xff;
    marked[2] = 0xff;
    marked[3] = 0xff;
    assert!(parse_debug_line(&marked, 0x1000).is_none());

    // Unsupported version.
    let mut bad_version = section.clone();
    bad_version[4] = 6;
    assert!(parse_debug_line(&bad_version, 0x1000).is_none());

    // Zero minimum_instruction_length.
    let mut zero_min = section.clone();
    zero_min[10] = 0;
    assert!(parse_debug_line(&zero_min, 0x1000).is_none());

    // Truncated data.
    assert!(parse_debug_line(&section[..20], 0x1000).is_none());
    assert!(parse_debug_line(&[], 0x1000).is_none());
}

#[test]
fn decoder_joins_non_empty_directories() {
    // Same program, but the file lives in directory 1 ("src"), so the path
    // is joined as "src/name.rs".
    let mut header_rest: Vec<u8> = vec![
        0x01, 0x01, 0x01, 0xfb, 0x0e, 0x0d, 0x00, 0x01, 0x01, 0x01, 0x01, 0x00, 0x00, 0x00, 0x01,
        0x00, 0x00, 0x01,
    ];
    header_rest.extend_from_slice(b"src\0"); // include directory 1
    header_rest.push(0x00); // end of include_directories
    header_rest.extend_from_slice(b"name.rs\0");
    header_rest.push(0x01); // directory index 1
    header_rest.push(0x00);
    header_rest.push(0x00);
    header_rest.push(0x00); // end of file_names
    let program: Vec<u8> = vec![
        0x00, 0x05, 0x02, 0x00, 0x10, 0x00, 0x00, 0x03, 0x29, 0x01, 0x00, 0x01, 0x01,
    ];
    let header_length = header_rest.len() as u32;
    let unit_length = (2 + 4 + header_rest.len() + program.len()) as u32;
    let mut section = Vec::new();
    section.extend_from_slice(&unit_length.to_le_bytes());
    section.extend_from_slice(&4u16.to_le_bytes());
    section.extend_from_slice(&header_length.to_le_bytes());
    section.extend_from_slice(&header_rest);
    section.extend_from_slice(&program);

    let loc = parse_debug_line(&section, 0x1000).unwrap();
    assert_eq!(loc.file, "src/name.rs");
    assert_eq!(loc.line, 42);
}

#[test]
fn cached_mappings_are_used_when_symbol_flags_agree() {
    // A module without symbols must not trust a cached entry claiming
    // symbols: the flags disagree, so the table is dropped and every lookup
    // still returns nothing.
    let wasm_bytes = vec![0x00, 0x61, 0x73, 0x6d, 0x01, 0x00, 0x00, 0x00];
    let entry = SourceMapCacheEntry {
        wasm_hash: SourceMapCache::compute_wasm_hash(&wasm_bytes),
        has_symbols: true,
        mappings: vec![(
            0x1234,
            SourceLocation {
                file: "stale.rs".to_string(),
                line: 1,
                column: 0,
                column_end: None,
                github_link: None,
            },
        )],
        created_at: 0,
    };
    let mapper = SourceMapper::new(wasm_bytes, Some(entry));
    assert!(!mapper.has_debug_symbols());
    assert!(mapper.map_wasm_offset_to_source(0x1234).is_none());
}

#[test]
fn wasm_hash_is_exposed_by_the_mapper() {
    let wasm_bytes = vec![0x00, 0x61, 0x73, 0x6d];
    let mapper = SourceMapper::new_without_cache(wasm_bytes.clone());
    assert_eq!(mapper.get_wasm_hash(), SourceMapCache::compute_wasm_hash(&wasm_bytes));
}

#[test]
fn state_machine_steps_one_opcode_at_a_time() {
    let section = v4_debug_line_section();
    let hdr = parse_header(&section).unwrap();
    let mut pos = hdr.program_start as usize;
    let regs = LineRegisters::initial();
    assert_eq!(regs.address, 0);
    assert_eq!(regs.file, 1);
    assert_eq!(regs.line, 1);
    assert_eq!(regs.column, 0);

    // Set-address loads the address register without emitting a row.
    let regs = match step(&section, &hdr, pos, regs) {
        StepResult::Next { pos: p, regs: r } => {
            assert_eq!(r.address, 0x1000);
            assert_eq!(r.line, 1);
            pos = p;
            r
        }
        _ => panic!("set-address must be a plain transition"),
    };

    // Advance-line moves the line register by the signed delta.
    let regs = match step(&section, &hdr, pos, regs) {
        StepResult::Next { pos: p, regs: r } => {
            assert_eq!(r.line, 42);
            pos = p;
            r
        }
        _ => panic!("advance-line must be a plain transition"),
    };

    // Copy emits a row with the current registers.
    match step(&section, &hdr, pos, regs) {
        StepResult::Row { regs: r, .. } => {
            assert_eq!(r.address, 0x1000);
            assert_eq!(r.line, 42);
            assert_eq!(r.file, 1);
        }
        _ => panic!("copy must emit a row"),
    }

    // A truncated stream is malformed.
    assert!(matches!(
        step(&section[..hdr.program_start as usize + 1], &hdr, pos, regs),
        StepResult::Malformed
    ));
}
