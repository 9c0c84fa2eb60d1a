//! Decoder for one DWARF32 line-number-program compilation unit (versions 2
//! to 5, little-endian). The unit header and the directory and file tables
//! are parsed once, then the opcode stream is replayed as a finite state
//! machine until a row matching the target address is emitted.
//!
//! The whole decode is specified by [`spec_parse_debug_line`], a functional
//! interpreter of the same opcode stream; [`parse_debug_line`] returns exactly
//! its result. Any structural inconsistency — truncated data, the 64-bit
//! DWARF marker, an unsupported version, a zero divisor field — yields `None`
//! rather than a panic.

use vstd::prelude::*;

use crate::byte_readers::spec_first_nul;
use crate::byte_readers::spec_read_cstr;
use crate::byte_readers::spec_read_i8;
use crate::byte_readers::spec_read_sleb128;
use crate::byte_readers::spec_read_u16_le;
use crate::byte_readers::spec_read_u32_le;
use crate::byte_readers::spec_read_u8;
use crate::byte_readers::spec_read_uleb128;
use crate::byte_readers::sleb_from;
use crate::byte_readers::uleb_from;
use crate::byte_readers::read_cstr;
use crate::byte_readers::read_i8;
use crate::byte_readers::read_sleb128;
use crate::byte_readers::read_u16_le;
use crate::byte_readers::read_u32_le;
use crate::byte_readers::read_u8;
use crate::byte_readers::read_uleb128;
use crate::source_mapper::SourceLocation;
use crate::source_mapper::SpecSourceLocation;

verus! {

/// The decoder state registers. They start at the values given by
/// [`initial_registers`] and are reset to them by every end-sequence opcode.
#[derive(Debug, Clone, Copy, PartialEq, Eq, Structural)]
pub struct LineRegisters {
    pub address: u64,
    pub file: u64,
    pub line: i64,
    pub column: u64,
}

/// Register values at the start of every sequence.
pub open spec fn initial_registers() -> LineRegisters {
    LineRegisters { address: 0, file: 1, line: 1, column: 0 }
}

/// Spec-level image of a parsed unit header.
pub ghost struct SpecHeader {
    /// End of the unit: 4 + unit_length.
    pub unit_end: int,
    /// Start of the opcode stream: 10 + header_length, authoritative
    /// regardless of how many bytes the tables actually occupy.
    pub program_start: int,
    /// Start of the include-directory table, right after the
    /// standard-opcode-lengths array.
    pub tables_start: int,
    pub min_inst_len: u8,
    pub max_ops: u8,
    pub line_base: i8,
    pub line_range: u8,
    pub opcode_base: u8,
    pub std_lengths: Seq<u8>,
}

/// The divisor fields a parsed header is guaranteed to have rejected as zero.
pub open spec fn header_wf(hdr: SpecHeader) -> bool {
    hdr.min_inst_len != 0 && hdr.max_ops != 0 && hdr.line_range != 0
}

/// Parses the unit header: unit_length (the 64-bit DWARF marker
/// `0xffffffff` is unsupported), version 2 to 5, header_length, the encoding
/// parameters, and the standard-opcode operand counts.
pub open spec fn spec_parse_header(data: Seq<u8>) -> Option<SpecHeader> {
    match spec_read_u32_le(data, 0) {
        None => None,
        Some(unit_length) => if unit_length == 0xffffffffu32 {
            None
        } else {
            let unit_end = 4 + unit_length as int;
            if unit_end > data.len() {
                None
            } else {
                match spec_read_u16_le(data, 4) {
                    None => None,
                    Some(version) => if version < 2 || version > 5 {
                        None
                    } else {
                        match spec_read_u32_le(data, 6) {
                            None => None,
                            Some(header_length) => spec_parse_header_rest(
                                data,
                                4 + unit_length as int,
                                10 + header_length as int,
                                version,
                            ),
                        }
                    },
                }
            }
        },
    }
}

/// The header fields after `header_length`: minimum_instruction_length,
/// maximum_ops_per_instruction (version 4 and later only), default_is_stmt
/// (discarded), line_base, line_range, opcode_base and the operand counts.
pub open spec fn spec_parse_header_rest(
    data: Seq<u8>,
    unit_end: int,
    program_start: int,
    version: u16,
) -> Option<SpecHeader> {
    match spec_read_u8(data, 10) {
        None => None,
        Some(min_inst_len) => {
            let max_ops_read = if version >= 4 {
                spec_read_u8(data, 11)
            } else {
                Some(1u8)
            };
            let after: int = if version >= 4 {
                12
            } else {
                11
            };
            match max_ops_read {
                None => None,
                Some(max_ops) => if min_inst_len == 0 || max_ops == 0 {
                    None
                } else {
                    match spec_read_u8(data, after) {
                        None => None,
                        Some(_default_is_stmt) => match spec_read_i8(data, after + 1) {
                            None => None,
                            Some(line_base) => match spec_read_u8(data, after + 2) {
                                None => None,
                                Some(line_range) => if line_range == 0 {
                                    None
                                } else {
                                    match spec_read_u8(data, after + 3) {
                                        None => None,
                                        Some(opcode_base) => {
                                            let count: int = if opcode_base >= 1 {
                                                opcode_base - 1
                                            } else {
                                                0
                                            };
                                            let lengths_start = after + 4;
                                            if lengths_start + count > data.len() {
                                                None
                                            } else {
                                                Some(
                                                    SpecHeader {
                                                        unit_end,
                                                        program_start,
                                                        tables_start: lengths_start + count,
                                                        min_inst_len,
                                                        max_ops,
                                                        line_base,
                                                        line_range,
                                                        opcode_base,
                                                        std_lengths: data.subrange(
                                                            lengths_start,
                                                            lengths_start + count,
                                                        ),
                                                    },
                                                )
                                            }
                                        },
                                    }
                                },
                            },
                        },
                    }
                },
            }
        },
    }
}

/// The include-directory table: null-terminated strings up to an empty
/// string, appended to `acc` (index 0 stands for the compilation directory).
/// Yields the table and the position after the terminator.
pub open spec fn spec_parse_dirs(data: Seq<u8>, pos: int, acc: Seq<Seq<char>>) -> Option<
    (Seq<Seq<char>>, int),
>
    decreases data.len() - pos,
    via spec_parse_dirs_decreases
{
    if pos < 0 || pos >= data.len() {
        None
    } else if data[pos] == 0 {
        Some((acc, pos + 1))
    } else {
        match spec_read_cstr(data, pos) {
            None => None,
            Some((s, n)) => spec_parse_dirs(data, pos + n, acc.push(s)),
        }
    }
}

#[via_fn]
proof fn spec_parse_dirs_decreases(data: Seq<u8>, pos: int, acc: Seq<Seq<char>>) {
    if 0 <= pos < data.len() && data[pos] != 0 {
        lemma_read_cstr_bounds(data, pos);
    }
}

/// The file-name table: entries of name, directory index, modification time
/// (discarded) and length (discarded), up to a zero byte, appended to `acc`
/// (index 0 is an unused placeholder).
pub open spec fn spec_parse_files(data: Seq<u8>, pos: int, acc: Seq<(Seq<char>, u64)>) -> Option<
    Seq<(Seq<char>, u64)>,
>
    decreases data.len() - pos,
    via spec_parse_files_decreases
{
    if pos < 0 || pos >= data.len() {
        None
    } else if data[pos] == 0 {
        Some(acc)
    } else {
        match spec_read_cstr(data, pos) {
            None => None,
            Some((name, n1)) => match spec_read_uleb128(data, pos + n1) {
                None => None,
                Some((dir_idx, n2)) => match spec_read_uleb128(data, pos + n1 + n2) {
                    None => None,
                    Some((_mtime, n3)) => match spec_read_uleb128(data, pos + n1 + n2 + n3) {
                        None => None,
                        Some((_file_len, n4)) => spec_parse_files(
                            data,
                            pos + n1 + n2 + n3 + n4,
                            acc.push((name, dir_idx)),
                        ),
                    },
                },
            },
        }
    }
}

#[via_fn]
proof fn spec_parse_files_decreases(data: Seq<u8>, pos: int, acc: Seq<(Seq<char>, u64)>) {
    if 0 <= pos < data.len() && data[pos] != 0 {
        lemma_read_cstr_bounds(data, pos);
        if let Some((name, n1)) = spec_read_cstr(data, pos) {
            lemma_uleb_bounds(data, pos + n1, 0, 0);
            if let Some((d, n2)) = spec_read_uleb128(data, pos + n1) {
                lemma_uleb_bounds(data, pos + n1 + n2, 0, 0);
                if let Some((m, n3)) = spec_read_uleb128(data, pos + n1 + n2) {
                    lemma_uleb_bounds(data, pos + n1 + n2 + n3, 0, 0);
                }
            }
        }
    }
}

/// A first NUL at or after `pos` lies between `pos` and the end of `data`.
pub proof fn lemma_first_nul_bounds(data: Seq<u8>, pos: int)
    ensures
        spec_first_nul(data, pos) matches Some(k) ==> pos <= k < data.len(),
    decreases data.len() - pos,
{
    if 0 <= pos < data.len() && data[pos] != 0 {
        lemma_first_nul_bounds(data, pos + 1);
    }
}

/// A decoded C string occupies at least its terminator and stays in `data`.
pub proof fn lemma_read_cstr_bounds(data: Seq<u8>, pos: int)
    ensures
        spec_read_cstr(data, pos) matches Some((s, n)) ==> 1 <= n && pos + n <= data.len(),
{
    lemma_first_nul_bounds(data, pos);
}

/// A decoded unsigned LEB128 value occupies between 1 byte and the rest of
/// `data`.
pub proof fn lemma_uleb_bounds(data: Seq<u8>, pos: int, shift: u32, acc: u64)
    ensures
        uleb_from(data, pos, shift, acc) matches Some((v, n)) ==> 1 <= n && pos + n <= data.len(),
    decreases 64 - shift,
{
    if 0 <= pos < data.len() && shift <= 63 {
        let byte = data[pos];
        if byte & 0x80 != 0 && shift + 7 < 64 {
            lemma_uleb_bounds(data, pos + 1, (shift + 7) as u32, acc | (((byte & 0x7f) as u64) << shift));
        }
    }
}

/// A decoded signed LEB128 value occupies between 1 byte and the rest of
/// `data`.
pub proof fn lemma_sleb_bounds(data: Seq<u8>, pos: int, shift: u32, acc: i64)
    ensures
        sleb_from(data, pos, shift, acc) matches Some((v, n)) ==> 1 <= n && pos + n <= data.len(),
    decreases 64 - shift,
{
    if 0 <= pos < data.len() && shift <= 63 {
        let byte = data[pos];
        if byte & 0x80 != 0 && shift + 7 < 64 {
            lemma_sleb_bounds(data, pos + 1, (shift + 7) as u32, acc | (((byte & 0x7f) as i64) << shift));
        }
    }
}

/// Skips `count` unsigned LEB128 values, yielding the position after them.
pub open spec fn spec_skip_ulebs(data: Seq<u8>, pos: int, count: int) -> Option<int>
    decreases count,
{
    if count <= 0 {
        Some(pos)
    } else {
        match spec_read_uleb128(data, pos) {
            None => None,
            Some((v, n)) => spec_skip_ulebs(data, pos + n, count - 1),
        }
    }
}

/// Outcome of replaying one opcode: a malformed stream, a plain transition,
/// or a transition that also emits a row with the new register values.
pub ghost enum SpecStep {
    Fail,
    Go { pos: int, regs: LineRegisters },
    Emit { pos: int, regs: LineRegisters },
}

/// Replays the single opcode at `pos`: extended opcodes (end-sequence,
/// set-address on a 4-byte address, unknown ones skipped by their declared
/// length), the six known standard opcodes, unknown standard opcodes skipped
/// by their declared operand counts, and special opcodes, which advance both
/// address and line and emit a row. Address and line arithmetic wraps.
pub open spec fn spec_step(data: Seq<u8>, hdr: SpecHeader, pos: int, regs: LineRegisters) -> SpecStep {
    match spec_read_u8(data, pos) {
        None => SpecStep::Fail,
        Some(opcode) => {
            let p1 = pos + 1;
            if opcode == 0 {
                spec_step_extended(data, p1, regs)
            } else if opcode < hdr.opcode_base {
                spec_step_standard(data, hdr, p1, opcode, regs)
            } else {
                let adjusted = (opcode - hdr.opcode_base) as u8;
                let op_adv = adjusted as int / hdr.line_range as int;
                let line_delta = hdr.line_base as int + (adjusted as int % hdr.line_range as int);
                let addr_inc = (op_adv * hdr.min_inst_len as int) / hdr.max_ops as int;
                SpecStep::Emit {
                    pos: p1,
                    regs: LineRegisters {
                        address: vstd::wrapping::u64_specs::wrapping_add(
                            regs.address,
                            addr_inc as u64,
                        ),
                        file: regs.file,
                        line: vstd::wrapping::i64_specs::wrapping_add(regs.line, line_delta as i64),
                        column: regs.column,
                    },
                }
            }
        },
    }
}

/// An extended opcode: a length prefix, a sub-opcode, and `length` operand
/// bytes that are always skipped wholesale.
pub open spec fn spec_step_extended(data: Seq<u8>, p1: int, regs: LineRegisters) -> SpecStep {
    match spec_read_uleb128(data, p1) {
        None => SpecStep::Fail,
        Some((ext_len, n)) => {
            let p2 = p1 + n;
            let ext_end = p2 + ext_len as int;
            if ext_end > data.len() {
                SpecStep::Fail
            } else {
                match spec_read_u8(data, p2) {
                    None => SpecStep::Fail,
                    Some(ext_op) => if ext_op == 1 {
                        SpecStep::Go { pos: ext_end, regs: initial_registers() }
                    } else if ext_op == 2 {
                        if p2 + 1 + 4 > ext_end {
                            SpecStep::Fail
                        } else {
                            match spec_read_u32_le(data, p2 + 1) {
                                None => SpecStep::Fail,
                                Some(addr) => SpecStep::Go {
                                    pos: ext_end,
                                    regs: LineRegisters {
                                        address: addr as u64,
                                        file: regs.file,
                                        line: regs.line,
                                        column: regs.column,
                                    },
                                },
                            }
                        }
                    } else {
                        SpecStep::Go { pos: ext_end, regs }
                    },
                }
            }
        },
    }
}

/// A standard opcode below `opcode_base`: copy emits a row, advance-pc and
/// advance-line update their register, set-file and set-column load theirs,
/// negate-stmt is a no-op here, and anything else is skipped by consuming its
/// declared operand count.
pub open spec fn spec_step_standard(
    data: Seq<u8>,
    hdr: SpecHeader,
    p1: int,
    opcode: u8,
    regs: LineRegisters,
) -> SpecStep {
    if opcode == 1 {
        SpecStep::Emit { pos: p1, regs }
    } else if opcode == 2 {
        match spec_read_uleb128(data, p1) {
            None => SpecStep::Fail,
            Some((adv, n)) => SpecStep::Go {
                pos: p1 + n,
                regs: LineRegisters {
                    address: vstd::wrapping::u64_specs::wrapping_add(
                        regs.address,
                        vstd::wrapping::u64_specs::wrapping_mul(adv, hdr.min_inst_len as u64)
                            / (hdr.max_ops as u64),
                    ),
                    file: regs.file,
                    line: regs.line,
                    column: regs.column,
                },
            },
        }
    } else if opcode == 3 {
        match spec_read_sleb128(data, p1) {
            None => SpecStep::Fail,
            Some((delta, n)) => SpecStep::Go {
                pos: p1 + n,
                regs: LineRegisters {
                    address: regs.address,
                    file: regs.file,
                    line: vstd::wrapping::i64_specs::wrapping_add(regs.line, delta),
                    column: regs.column,
                },
            },
        }
    } else if opcode == 4 {
        match spec_read_uleb128(data, p1) {
            None => SpecStep::Fail,
            Some((f, n)) => SpecStep::Go {
                pos: p1 + n,
                regs: LineRegisters {
                    address: regs.address,
                    file: f,
                    line: regs.line,
                    column: regs.column,
                },
            },
        }
    } else if opcode == 5 {
        match spec_read_uleb128(data, p1) {
            None => SpecStep::Fail,
            Some((c, n)) => SpecStep::Go {
                pos: p1 + n,
                regs: LineRegisters {
                    address: regs.address,
                    file: regs.file,
                    line: regs.line,
                    column: c,
                },
            },
        }
    } else if opcode == 6 {
        SpecStep::Go { pos: p1, regs }
    } else {
        let count: u8 = if 1 <= opcode && opcode - 1 < hdr.std_lengths.len() {
            hdr.std_lengths[opcode - 1]
        } else {
            0
        };
        match spec_skip_ulebs(data, p1, count as int) {
            None => SpecStep::Fail,
            Some(p2) => SpecStep::Go { pos: p2, regs },
        }
    }
}

/// Builds the emitted row: the file entry at the file register, joined with
/// its directory as `directory/name` when the directory is non-empty; the
/// line clamped at 0; a zero column kept as "unknown".
pub open spec fn spec_build_location(
    files: Seq<(Seq<char>, u64)>,
    dirs: Seq<Seq<char>>,
    file_idx: u64,
    line: i64,
    column: u64,
) -> Option<SpecSourceLocation> {
    if file_idx < files.len() {
        let name = files[file_idx as int].0;
        let dir_idx = files[file_idx as int].1;
        let dir: Seq<char> = if dir_idx < dirs.len() {
            dirs[dir_idx as int]
        } else {
            Seq::<char>::empty()
        };
        let full = if dir.len() == 0 {
            name
        } else {
            dir + seq!['/'] + name
        };
        Some(
            SpecSourceLocation {
                file: full,
                line: (if line < 0 {
                    0i64
                } else {
                    line
                }) as u32,
                column: if column > 0 {
                    column as u32
                } else {
                    0u32
                },
                column_end: None,
                github_link: None,
            },
        )
    } else {
        None
    }
}

/// Loop measure for the opcode replay: bytes left before the unit end.
pub open spec fn run_measure(unit_end: int, pos: int) -> nat {
    if pos < unit_end {
        (unit_end - pos) as nat
    } else {
        0
    }
}

/// Every successful step moves the cursor strictly forward.
pub proof fn lemma_step_advances(data: Seq<u8>, hdr: SpecHeader, pos: int, regs: LineRegisters)
    ensures
        spec_step(data, hdr, pos, regs) matches SpecStep::Go { pos: p2, .. } ==> p2 > pos,
        spec_step(data, hdr, pos, regs) matches SpecStep::Emit { pos: p2, .. } ==> p2 > pos,
{
    if let Some(opcode) = spec_read_u8(data, pos) {
        let p1 = pos + 1;
        if opcode == 0 {
            lemma_uleb_bounds(data, p1, 0, 0);
        } else if opcode < hdr.opcode_base {
            if opcode == 2 || opcode == 4 || opcode == 5 {
                lemma_uleb_bounds(data, p1, 0, 0);
            } else if opcode == 3 {
                lemma_sleb_bounds(data, p1, 0, 0);
            } else if opcode > 6 {
                let count: u8 = if 1 <= opcode && opcode - 1 < hdr.std_lengths.len() {
                    hdr.std_lengths[opcode - 1]
                } else {
                    0
                };
                lemma_skip_ulebs_bounds_weak(data, p1, count as int);
            }
        }
    }
}

/// Skipping operands never moves the cursor backwards.
proof fn lemma_skip_ulebs_bounds_weak(data: Seq<u8>, pos: int, count: int)
    ensures
        spec_skip_ulebs(data, pos, count) matches Some(p) ==> pos <= p,
    decreases count,
{
    if count > 0 {
        lemma_uleb_bounds(data, pos, 0, 0);
        if let Some((v, n)) = spec_read_uleb128(data, pos) {
            lemma_skip_ulebs_bounds_weak(data, pos + n, count - 1);
        }
    }
}

/// Replays the opcode stream from `pos` until the unit end. The first emitted
/// row whose address equals `target` resolves through the tables; reaching
/// the unit end without one, or any malformed opcode, yields `None`.
pub open spec fn spec_run(
    data: Seq<u8>,
    hdr: SpecHeader,
    dirs: Seq<Seq<char>>,
    files: Seq<(Seq<char>, u64)>,
    target: u64,
    pos: int,
    regs: LineRegisters,
) -> Option<SpecSourceLocation>
    decreases run_measure(hdr.unit_end, pos),
    via spec_run_decreases
{
    if pos >= hdr.unit_end {
        None
    } else {
        match spec_step(data, hdr, pos, regs) {
            SpecStep::Fail => None,
            SpecStep::Go { pos: p2, regs: r2 } => spec_run(data, hdr, dirs, files, target, p2, r2),
            SpecStep::Emit { pos: p2, regs: r2 } => {
                if r2.address == target {
                    spec_build_location(files, dirs, r2.file, r2.line, r2.column)
                } else {
                    spec_run(data, hdr, dirs, files, target, p2, r2)
                }
            },
        }
    }
}

#[via_fn]
proof fn spec_run_decreases(
    data: Seq<u8>,
    hdr: SpecHeader,
    dirs: Seq<Seq<char>>,
    files: Seq<(Seq<char>, u64)>,
    target: u64,
    pos: int,
    regs: LineRegisters,
) {
    lemma_step_advances(data, hdr, pos, regs);
}

/// The whole decode: header, directory table, file table, then the replay
/// from `program_start` with fresh registers.
pub open spec fn spec_parse_debug_line(data: Seq<u8>, target: u64) -> Option<SpecSourceLocation> {
    match spec_parse_header(data) {
        None => None,
        Some(hdr) => match spec_parse_dirs(data, hdr.tables_start, seq![Seq::<char>::empty()]) {
            None => None,
            Some((dirs, after_dirs)) => match spec_parse_files(
                data,
                after_dirs,
                seq![(Seq::<char>::empty(), 0u64)],
            ) {
                None => None,
                Some(files) => spec_run(
                    data,
                    hdr,
                    dirs,
                    files,
                    target,
                    hdr.program_start,
                    initial_registers(),
                ),
            },
        },
    }
}

impl LineRegisters {
    /// Fresh registers, as at the start of a sequence.
    pub fn initial() -> (r: LineRegisters)
        ensures
            r == initial_registers(),
    {
        LineRegisters { address: 0, file: 1, line: 1, column: 0 }
    }
}

/// Parsed unit header, executable form. `program_start` is kept as `u64`
/// because `header_length` may point far past the data.
pub struct LineProgramHeader {
    pub unit_end: usize,
    pub program_start: u64,
    pub tables_start: usize,
    pub min_inst_len: u8,
    pub max_ops: u8,
    pub line_base: i8,
    pub line_range: u8,
    pub opcode_base: u8,
    pub std_lengths: Vec<u8>,
}

impl View for LineProgramHeader {
    type V = SpecHeader;

    open spec fn view(&self) -> SpecHeader {
        SpecHeader {
            unit_end: self.unit_end as int,
            program_start: self.program_start as int,
            tables_start: self.tables_start as int,
            min_inst_len: self.min_inst_len,
            max_ops: self.max_ops,
            line_base: self.line_base,
            line_range: self.line_range,
            opcode_base: self.opcode_base,
            std_lengths: self.std_lengths@,
        }
    }
}

/// Parses the compilation-unit header, rejecting 64-bit DWARF, versions
/// outside 2 to 5 and zero divisor fields.
pub fn parse_header(data: &[u8]) -> (r: Option<LineProgramHeader>)
    ensures
        match r {
            None => spec_parse_header(data@) is None,
            Some(h) => spec_parse_header(data@) == Some(h@) && header_wf(h@) && h.unit_end
                <= data@.len() && h.tables_start <= data@.len(),
        },
{
    let len = data.len();
    let unit_length = match read_u32_le(data, 0) {
        None => return None,
        Some(v) => v,
    };
    if unit_length == 0xffff_ffff {
        return None;
    }
    assert(len >= 4);
    if unit_length as usize > len - 4 {
        return None;
    }
    let unit_end: usize = 4 + unit_length as usize;
    let version = match read_u16_le(data, 4) {
        None => return None,
        Some(v) => v,
    };
    if version < 2 || version > 5 {
        return None;
    }
    let header_length = match read_u32_le(data, 6) {
        None => return None,
        Some(v) => v,
    };
    let program_start: u64 = 10 + header_length as u64;
    let min_inst_len = match read_u8(data, 10) {
        None => return None,
        Some(v) => v,
    };
    let (max_ops, after): (u8, usize) = if version >= 4 {
        match read_u8(data, 11) {
            None => return None,
            Some(v) => (v, 12),
        }
    } else {
        (1, 11)
    };
    if min_inst_len == 0 || max_ops == 0 {
        return None;
    }
    let _default_is_stmt = match read_u8(data, after) {
        None => return None,
        Some(v) => v,
    };
    let line_base = match read_i8(data, after + 1) {
        None => return None,
        Some(v) => v,
    };
    let line_range = match read_u8(data, after + 2) {
        None => return None,
        Some(v) => v,
    };
    if line_range == 0 {
        return None;
    }
    let opcode_base = match read_u8(data, after + 3) {
        None => return None,
        Some(v) => v,
    };
    let count: usize = if opcode_base >= 1 {
        (opcode_base - 1) as usize
    } else {
        0
    };
    let lengths_start = after + 4;
    if count > len || lengths_start > len - count {
        return None;
    }
    let std_lengths = vstd::slice::slice_to_vec(
        vstd::slice::slice_subrange(data, lengths_start, lengths_start + count),
    );
    Some(
        LineProgramHeader {
            unit_end,
            program_start,
            tables_start: lengths_start + count,
            min_inst_len,
            max_ops,
            line_base,
            line_range,
            opcode_base,
            std_lengths,
        },
    )
}

/// Parses the include-directory table, yielding the directories (index 0 is
/// the implicit compilation directory) and the position after the terminator.
fn parse_dirs(data: &[u8], start: usize) -> (r: Option<(Vec<String>, usize)>)
    ensures
        match r {
            None => spec_parse_dirs(data@, start as int, seq![Seq::<char>::empty()]) is None,
            Some((dirs, after)) => spec_parse_dirs(data@, start as int, seq![Seq::<char>::empty()])
                == Some((dirs.deep_view(), after as int)) && after <= data@.len(),
        },
{
    let len = data.len();
    let mut dirs: Vec<String> = Vec::new();
    dirs.push(String::new());
    proof {
        assert(dirs.deep_view() =~= seq![Seq::<char>::empty()]);
    }
    let mut pos = start;
    loop
        invariant
            pos <= usize::MAX,
            len == data@.len(),
            spec_parse_dirs(data@, start as int, seq![Seq::<char>::empty()]) == spec_parse_dirs(
                data@,
                pos as int,
                dirs.deep_view(),
            ),
        decreases data@.len() - pos,
    {
        if pos >= len {
            return None;
        }
        if data[pos] == 0 {
            return Some((dirs, pos + 1));
        }
        match read_cstr(data, pos) {
            None => return None,
            Some((s, n)) => {
                proof {
                    lemma_read_cstr_bounds(data@, pos as int);
                }
                let ghost old_dv = dirs.deep_view();
                let ghost sv = s@;
                dirs.push(s);
                pos = pos + n;
                proof {
                    assert(dirs.deep_view() =~= old_dv.push(sv));
                }
            },
        }
    }
}

/// Parses the file-name table, yielding `(name, directory_index)` entries
/// (index 0 is an unused placeholder).
fn parse_files(data: &[u8], start: usize) -> (r: Option<Vec<(String, u64)>>)
    ensures
        match r {
            None => spec_parse_files(
                data@,
                start as int,
                seq![(Seq::<char>::empty(), 0u64)],
            ) is None,
            Some(files) => spec_parse_files(data@, start as int, seq![(Seq::<char>::empty(), 0u64)])
                == Some(files.deep_view()),
        },
{
    let len = data.len();
    let mut files: Vec<(String, u64)> = Vec::new();
    files.push((String::new(), 0));
    proof {
        assert(files.deep_view() =~= seq![(Seq::<char>::empty(), 0u64)]);
    }
    let mut pos = start;
    loop
        invariant
            pos <= usize::MAX,
            len == data@.len(),
            spec_parse_files(data@, start as int, seq![(Seq::<char>::empty(), 0u64)])
                == spec_parse_files(data@, pos as int, files.deep_view()),
        decreases data@.len() - pos,
    {
        if pos >= len {
            return None;
        }
        if data[pos] == 0 {
            return Some(files);
        }
        let (name, n1) = match read_cstr(data, pos) {
            None => return None,
            Some(v) => v,
        };
        proof {
            lemma_read_cstr_bounds(data@, pos as int);
        }
        let (dir_idx, n2) = match read_uleb128(data, pos + n1) {
            None => return None,
            Some(v) => v,
        };
        proof {
            lemma_uleb_bounds(data@, pos + n1, 0, 0);
        }
        let (_mtime, n3) = match read_uleb128(data, pos + n1 + n2) {
            None => return None,
            Some(v) => v,
        };
        proof {
            lemma_uleb_bounds(data@, pos + n1 + n2, 0, 0);
        }
        let (_file_len, n4) = match read_uleb128(data, pos + n1 + n2 + n3) {
            None => return None,
            Some(v) => v,
        };
        proof {
            lemma_uleb_bounds(data@, pos + n1 + n2 + n3, 0, 0);
        }
        let ghost old_fv = files.deep_view();
        let ghost nv = name@;
        files.push((name, dir_idx));
        pos = pos + n1 + n2 + n3 + n4;
        proof {
            assert(files.deep_view() =~= old_fv.push((nv, dir_idx)));
        }
    }
}

/// Outcome of replaying one opcode, executable form of [`SpecStep`].
pub enum StepResult {
    /// The stream is malformed at the cursor; the whole decode fails.
    Malformed,
    /// A plain transition: new cursor and registers.
    Next { pos: usize, regs: LineRegisters },
    /// A transition that also emitted a row with the new register values.
    Row { pos: usize, regs: LineRegisters },
}

/// Replays the single opcode at `pos`, as a pure step of the state machine.
#[verifier::loop_isolation(false)]
pub fn step(data: &[u8], hdr: &LineProgramHeader, pos: usize, regs: LineRegisters) -> (r:
    StepResult)
    requires
        header_wf(hdr@),
    ensures
        match r {
            StepResult::Malformed => spec_step(data@, hdr@, pos as int, regs) is Fail,
            StepResult::Next { pos: p2, regs: r2 } => spec_step(data@, hdr@, pos as int, regs)
                == (SpecStep::Go { pos: p2 as int, regs: r2 }),
            StepResult::Row { pos: p2, regs: r2 } => spec_step(data@, hdr@, pos as int, regs)
                == (SpecStep::Emit { pos: p2 as int, regs: r2 }),
        },
{
    let len = data.len();
    let opcode = match read_u8(data, pos) {
        None => return StepResult::Malformed,
        Some(v) => v,
    };
    let p1 = pos + 1;
    if opcode == 0 {
        // Extended opcode, length-prefixed.
        let (ext_len, n) = match read_uleb128(data, p1) {
            None => return StepResult::Malformed,
            Some(v) => v,
        };
        proof {
            lemma_uleb_bounds(data@, p1 as int, 0, 0);
        }
        let p2 = p1 + n;
        if ext_len > (len - p2) as u64 {
            return StepResult::Malformed;
        }
        let ext_end = p2 + ext_len as usize;
        let ext_op = match read_u8(data, p2) {
            None => return StepResult::Malformed,
            Some(v) => v,
        };
        if ext_op == 1 {
            // End of sequence: reset the registers.
            StepResult::Next { pos: ext_end, regs: LineRegisters::initial() }
        } else if ext_op == 2 {
            // Set address (4-byte address, 32-bit target assumed).
            if ext_end - p2 < 5 {
                return StepResult::Malformed;
            }
            let addr = match read_u32_le(data, p2 + 1) {
                None => return StepResult::Malformed,
                Some(v) => v,
            };
            StepResult::Next {
                pos: ext_end,
                regs: LineRegisters {
                    address: addr as u64,
                    file: regs.file,
                    line: regs.line,
                    column: regs.column,
                },
            }
        } else {
            // Unknown extended opcode: skip its declared length.
            StepResult::Next { pos: ext_end, regs }
        }
    } else if opcode < hdr.opcode_base {
        if opcode == 1 {
            // Copy: emit a row with the current registers.
            StepResult::Row { pos: p1, regs }
        } else if opcode == 2 {
            // Advance the address register.
            let (adv, n) = match read_uleb128(data, p1) {
                None => return StepResult::Malformed,
                Some(v) => v,
            };
            proof {
                lemma_uleb_bounds(data@, p1 as int, 0, 0);
            }
            let inc = adv.wrapping_mul(hdr.min_inst_len as u64) / (hdr.max_ops as u64);
            StepResult::Next {
                pos: p1 + n,
                regs: LineRegisters {
                    address: regs.address.wrapping_add(inc),
                    file: regs.file,
                    line: regs.line,
                    column: regs.column,
                },
            }
        } else if opcode == 3 {
            // Advance the line register by a signed, wrapping delta.
            let (delta, n) = match read_sleb128(data, p1) {
                None => return StepResult::Malformed,
                Some(v) => v,
            };
            proof {
                lemma_sleb_bounds(data@, p1 as int, 0, 0);
            }
            StepResult::Next {
                pos: p1 + n,
                regs: LineRegisters {
                    address: regs.address,
                    file: regs.file,
                    line: regs.line.wrapping_add(delta),
                    column: regs.column,
                },
            }
        } else if opcode == 4 {
            // Set the file register.
            let (f, n) = match read_uleb128(data, p1) {
                None => return StepResult::Malformed,
                Some(v) => v,
            };
            proof {
                lemma_uleb_bounds(data@, p1 as int, 0, 0);
            }
            StepResult::Next {
                pos: p1 + n,
                regs: LineRegisters {
                    address: regs.address,
                    file: f,
                    line: regs.line,
                    column: regs.column,
                },
            }
        } else if opcode == 5 {
            // Set the column register.
            let (c, n) = match read_uleb128(data, p1) {
                None => return StepResult::Malformed,
                Some(v) => v,
            };
            proof {
                lemma_uleb_bounds(data@, p1 as int, 0, 0);
            }
            StepResult::Next {
                pos: p1 + n,
                regs: LineRegisters {
                    address: regs.address,
                    file: regs.file,
                    line: regs.line,
                    column: c,
                },
            }
        } else if opcode == 6 {
            // Negate-stmt: irrelevant to address-to-location mapping.
            StepResult::Next { pos: p1, regs }
        } else {
            // Unknown standard opcode: consume its declared operand count.
            let num: u8 = if ((opcode - 1) as usize) < hdr.std_lengths.len() {
                hdr.std_lengths[(opcode - 1) as usize]
            } else {
                0
            };
            let mut p = p1;
            let mut i: u8 = 0;
            while i < num
                invariant
                    i <= num,
                    p1 <= p <= data@.len(),
                    len == data@.len(),
                    spec_skip_ulebs(data@, p1 as int, num as int) == spec_skip_ulebs(
                        data@,
                        p as int,
                        (num - i) as int,
                    ),
                decreases num - i,
            {
                match read_uleb128(data, p) {
                    None => {
                        proof {
                            assert(spec_skip_ulebs(data@, p as int, (num - i) as int) is None);
                        }
                        return StepResult::Malformed;
                    },
                    Some((_operand, n)) => {
                        proof {
                            lemma_uleb_bounds(data@, p as int, 0, 0);
                        }
                        p = p + n;
                        i = i + 1;
                    },
                }
            }
            StepResult::Next { pos: p, regs }
        }
    } else {
        // Special opcode: advance address and line together, emit a row.
        let adjusted = opcode - hdr.opcode_base;
        let op_adv = adjusted / hdr.line_range;
        let line_delta: i64 = hdr.line_base as i64 + (adjusted % hdr.line_range) as i64;
        proof {
            assert((op_adv as int) * (hdr.min_inst_len as int) <= 255 * 255) by (nonlinear_arith)
                requires
                    op_adv <= 255,
                    hdr.min_inst_len <= 255,
            ;
        }
        let inc = (op_adv as u64) * (hdr.min_inst_len as u64) / (hdr.max_ops as u64);
        StepResult::Row {
            pos: p1,
            regs: LineRegisters {
                address: regs.address.wrapping_add(inc),
                file: regs.file,
                line: regs.line.wrapping_add(line_delta),
                column: regs.column,
            },
        }
    }
}

/// Builds the location for an emitted row: the file entry at `file_idx`
/// joined with its directory, the line clamped at 0, a zero column meaning
/// "unknown".
pub fn build_location(
    file_names: &Vec<(String, u64)>,
    include_dirs: &Vec<String>,
    file_idx: u64,
    line: i64,
    column: u64,
) -> (r: Option<SourceLocation>)
    ensures
        match r {
            None => spec_build_location(
                file_names.deep_view(),
                include_dirs.deep_view(),
                file_idx,
                line,
                column,
            ) is None,
            Some(loc) => spec_build_location(
                file_names.deep_view(),
                include_dirs.deep_view(),
                file_idx,
                line,
                column,
            ) == Some(loc@),
        },
{
    if file_idx >= file_names.len() as u64 {
        return None;
    }
    let idx = file_idx as usize;
    let name: &String = &file_names[idx].0;
    let dir_idx: u64 = file_names[idx].1;
    let empty = String::new();
    let dir: &String = if dir_idx < include_dirs.len() as u64 {
        &include_dirs[dir_idx as usize]
    } else {
        &empty
    };
    let full_path: String = if dir.as_str().is_empty() {
        name.clone()
    } else {
        let mut s = dir.clone();
        s.append("/");
        s.append(name.as_str());
        proof {
            reveal_strlit("/");
            assert("/"@ =~= seq!['/']);
        }
        s
    };
    let line_clamped: i64 = if line < 0 {
        0
    } else {
        line
    };
    Some(
        SourceLocation {
            file: full_path,
            line: #[verifier::truncate] (line_clamped as u32),
            column: if column > 0 {
                #[verifier::truncate] (column as u32)
            } else {
                0
            },
            column_end: None,
            github_link: None,
        },
    )
}

/// Decodes a DWARF32 `.debug_line` section and returns the source location
/// for `target_addr`: exactly [`spec_parse_debug_line`]. `None` on any parse
/// error or when the address is never reached.
pub fn parse_debug_line(data: &[u8], target_addr: u64) -> (r: Option<SourceLocation>)
    ensures
        match r {
            None => spec_parse_debug_line(data@, target_addr) is None,
            Some(loc) => spec_parse_debug_line(data@, target_addr) == Some(loc@),
        },
{
    let hdr = match parse_header(data) {
        None => return None,
        Some(h) => h,
    };
    let (dirs, after_dirs) = match parse_dirs(data, hdr.tables_start) {
        None => return None,
        Some(v) => v,
    };
    let files = match parse_files(data, after_dirs) {
        None => return None,
        Some(v) => v,
    };
    // Seek to the program start; past the unit end nothing can match.
    if hdr.program_start >= hdr.unit_end as u64 {
        return None;
    }
    let mut pos: usize = hdr.program_start as usize;
    let mut regs = LineRegisters::initial();
    loop
        invariant
            header_wf(hdr@),
            hdr.unit_end <= data@.len(),
            spec_run(
                data@,
                hdr@,
                dirs.deep_view(),
                files.deep_view(),
                target_addr,
                pos as int,
                regs,
            ) == spec_parse_debug_line(data@, target_addr),
        decreases run_measure(hdr@.unit_end, pos as int),
    {
        if pos >= hdr.unit_end {
            return None;
        }
        match step(data, &hdr, pos, regs) {
            StepResult::Malformed => return None,
            StepResult::Next { pos: p2, regs: r2 } => {
                proof {
                    lemma_step_advances(data@, hdr@, pos as int, regs);
                }
                pos = p2;
                regs = r2;
            },
            StepResult::Row { pos: p2, regs: r2 } => {
                if r2.address == target_addr {
                    return build_location(&files, &dirs, r2.file, r2.line, r2.column);
                }
                proof {
                    lemma_step_advances(data@, hdr@, pos as int, regs);
                }
                pos = p2;
                regs = r2;
            },
        }
    }
}

} // verus!
