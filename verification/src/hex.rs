//! Intel HEX parsing for the Teensy 4.1: a line-oriented,
//! checksum-framed text format with segmented address arithmetic.
//!
//! The parser turns the raw bytes of a HEX file into a sparse firmware
//! image over the flash region, together with the set of 1 KiB blocks
//! that must be transmitted.  Its behaviour is pinned to a
//! specification-level interpreter (`spec_parse`) over the same bytes.

use vstd::prelude::*;

use crate::strutil;
use crate::teensy41;

verus! {

// ---------------------------------------------------------------------
// Bytes: hex digits, whitespace, checksums.
// ---------------------------------------------------------------------

/// Is `b` the ASCII code of a hex digit?
pub open spec fn is_hex_digit_byte(b: u8) -> bool {
    (0x30 <= b && b <= 0x39) || (0x61 <= b && b <= 0x66) || (0x41 <= b && b <= 0x46)
}

/// The value of a hex digit byte.
pub open spec fn hex_val(b: u8) -> u8 {
    if 0x30 <= b && b <= 0x39 {
        (b - 0x30) as u8
    } else if 0x61 <= b && b <= 0x66 {
        (b - 0x61 + 10) as u8
    } else {
        (b - 0x41 + 10) as u8
    }
}

/// The value of one hex digit, or `None` if `c` is not a hex digit.
pub fn from_hex_digit(c: u8) -> (r: Option<u8>)
    ensures
        r == if is_hex_digit_byte(c) {
            Some(hex_val(c))
        } else {
            None::<u8>
        },
{
    if c >= 0x30 && c <= 0x39 {
        Some(c - 0x30)
    } else if c >= 0x61 && c <= 0x66 {
        Some(c - 0x61 + 10)
    } else if c >= 0x41 && c <= 0x46 {
        Some(c - 0x41 + 10)
    } else {
        None
    }
}

/// Is `b` an ASCII whitespace byte?
pub open spec fn is_space_byte(b: u8) -> bool {
    b == 9 || b == 10 || b == 11 || b == 12 || b == 13 || b == 32
}

/// `s` without leading whitespace.
pub open spec fn trim_front(s: Seq<u8>) -> Seq<u8>
    decreases s.len(),
{
    if s.len() > 0 && is_space_byte(s[0]) {
        trim_front(s.skip(1))
    } else {
        s
    }
}

/// `s` without trailing whitespace.
pub open spec fn trim_back(s: Seq<u8>) -> Seq<u8>
    decreases s.len(),
{
    if s.len() > 0 && is_space_byte(s.last()) {
        trim_back(s.drop_last())
    } else {
        s
    }
}

/// `s` without leading and trailing whitespace.
pub open spec fn trim_spaces(s: Seq<u8>) -> Seq<u8> {
    trim_back(trim_front(s))
}

/// The sum of the bytes of `s`, unbounded.
pub open spec fn sum_bytes(s: Seq<u8>) -> int
    decreases s.len(),
{
    if s.len() == 0 {
        0
    } else {
        sum_bytes(s.drop_last()) + s.last()
    }
}

/// The Intel HEX checksum: the two's complement of the byte sum.
pub open spec fn ihex_checksum_spec(s: Seq<u8>) -> u8 {
    ((256 - sum_bytes(s) % 256) % 256) as u8
}

/// The byte sum is not negative.
proof fn lemma_sum_bytes_nonneg(s: Seq<u8>)
    ensures
        sum_bytes(s) >= 0,
    decreases s.len(),
{
    if s.len() > 0 {
        lemma_sum_bytes_nonneg(s.drop_last());
    }
}

/// Computes the Intel HEX checksum of `bytes`.
pub fn checksum_ihex(bytes: &[u8]) -> (r: u8)
    ensures
        r == ihex_checksum_spec(bytes@),
{
    let n = bytes.len();
    let mut acc: u32 = 0;
    let mut i: usize = 0;
    while i < n
        invariant
            0 <= i <= n,
            n == bytes@.len(),
            acc == sum_bytes(bytes@.take(i as int)) % 256,
        decreases n - i,
    {
        proof {
            lemma_sum_bytes_nonneg(bytes@.take(i as int));
            assert(bytes@.take(i + 1).drop_last() =~= bytes@.take(i as int));
            assert(bytes@.take(i + 1).last() == bytes@[i as int]);
        }
        acc = (acc + bytes[i] as u32) % 256;
        i = i + 1;
    }
    proof {
        assert(bytes@.take(n as int) =~= bytes@);
        lemma_sum_bytes_nonneg(bytes@);
    }
    ((256 - acc) % 256) as u8
}

// ---------------------------------------------------------------------
// Line classification.
// ---------------------------------------------------------------------

/// The bytes decoded from an even-length run of hex digits, two digits
/// per byte.
pub open spec fn decoded_hex(s: Seq<u8>) -> Seq<u8> {
    Seq::new(s.len() / 2, |i: int| ((hex_val(s[2 * i]) as int) * 16 + hex_val(s[2 * i + 1]) as int) as u8)
}

/// Is every byte of `s` a hex digit?
pub open spec fn all_hex(s: Seq<u8>) -> bool {
    forall|i: int| 0 <= i < s.len() ==> is_hex_digit_byte(#[trigger] s[i])
}

/// The outcome of reading one line of a HEX file.
pub enum LineClass {
    /// Whitespace only: skipped.
    Blank,
    /// Bytes that are not text: the line is not well-formed UTF-8.
    NotText,
    /// A malformed line, with the message reported for it.
    Invalid { msg: Seq<char> },
    /// A well-formed line whose checksum byte is wrong.
    BadChecksum,
    /// A record, checksum verified.
    Rec { offset: u16, rec_type: u8, payload: Seq<u8> },
}

/// Message for a line that does not begin with `:`.
pub open spec fn msg_no_colon() -> Seq<char> {
    "missing ':' prefix"@
}

/// Message for an odd number of hex digits.
pub open spec fn msg_odd_digits() -> Seq<char> {
    "odd number of hex digits"@
}

/// Message for a byte that is not a hex digit.
pub open spec fn msg_bad_digit() -> Seq<char> {
    "invalid hex digit"@
}

/// Message for a record of fewer than five bytes.
pub open spec fn msg_too_short() -> Seq<char> {
    "record too short"@
}

/// Message for a record whose length field disagrees with the line.
pub open spec fn msg_bad_length(len: int, got: int) -> Seq<char> {
    "bad length (expected "@ + strutil::u64_chars((2 * (5 + len)) as u64)
        + " bytes after ':', got "@ + strutil::u64_chars((2 * got) as u64) + ")"@
}

/// Classifies the decoded bytes of a record line: length field,
/// checksum, then the record's parts.
pub open spec fn classify_bytes(bytes: Seq<u8>) -> LineClass {
    if bytes.len() < 5 {
        LineClass::Invalid { msg: msg_too_short() }
    } else {
        let len = bytes[0] as int;
        if bytes.len() != 5 + len {
            LineClass::Invalid { msg: msg_bad_length(len, bytes.len() as int) }
        } else if bytes[4 + len] != ihex_checksum_spec(bytes.take(4 + len)) {
            LineClass::BadChecksum
        } else {
            LineClass::Rec {
                offset: ((bytes[1] as int) * 256 + bytes[2] as int) as u16,
                rec_type: bytes[3],
                payload: bytes.subrange(4, 4 + len),
            }
        }
    }
}

/// Checksum enforcement: a framed record whose checksum byte is not
/// the two's complement of the sum of the other bytes is rejected as
/// a checksum failure, whatever its record type.
pub proof fn lemma_checksum_enforced(bytes: Seq<u8>)
    requires
        bytes.len() >= 5,
        bytes.len() == 5 + bytes[0],
        bytes.last() != ihex_checksum_spec(bytes.drop_last()),
    ensures
        classify_bytes(bytes) is BadChecksum,
{
    assert(bytes.take(4 + bytes[0] as int) =~= bytes.drop_last());
}

/// Classifies one raw line of the file.
pub open spec fn classify_line(line: Seq<u8>) -> LineClass {
    if !vstd::utf8::valid_utf8(line) {
        LineClass::NotText
    } else {
        let t = trim_spaces(line);
        if t.len() == 0 {
            LineClass::Blank
        } else if t[0] != 0x3A {
            LineClass::Invalid { msg: msg_no_colon() }
        } else {
            let digits = t.skip(1);
            if digits.len() % 2 != 0 {
                LineClass::Invalid { msg: msg_odd_digits() }
            } else if !all_hex(digits) {
                LineClass::Invalid { msg: msg_bad_digit() }
            } else {
                classify_bytes(decoded_hex(digits))
            }
        }
    }
}

// ---------------------------------------------------------------------
// The parse model.
// ---------------------------------------------------------------------

/// The parser state: the extended address and the image built so far.
pub struct HexModel {
    /// Extended address from the last type 2 or 4 record.
    pub ext_addr: u32,
    /// The image bytes, `0xFF` where never written.
    pub data: Seq<u8>,
    /// Which image bytes a data record has written.
    pub mask: Seq<bool>,
    /// Total payload bytes of all data records, saturating.
    pub byte_count: usize,
}

/// What a failing line reports, without its line number.
pub enum HexErrKind {
    NotText,
    Invalid { msg: Seq<char> },
    BadChecksum,
    Overflow,
    OutOfRange { addr: u32 },
}

/// A parse failure: a line number (1-based) and what went wrong there.
pub struct HexErrModel {
    pub line: int,
    pub kind: HexErrKind,
}

/// The state before any record.
pub open spec fn init_model() -> HexModel {
    HexModel {
        ext_addr: 0,
        data: Seq::new(teensy41::CODE_SIZE as nat, |i: int| 0xFFu8),
        mask: Seq::new(teensy41::CODE_SIZE as nat, |i: int| false),
        byte_count: 0,
    }
}

/// `a + b`, saturating at `usize::MAX`.
pub open spec fn sat_add_usize(a: usize, b: usize) -> usize {
    if a + b > usize::MAX {
        usize::MAX
    } else {
        (a + b) as usize
    }
}

/// `data` with `payload` written at `base`.
pub open spec fn write_span(data: Seq<u8>, base: int, payload: Seq<u8>) -> Seq<u8> {
    Seq::new(
        data.len(),
        |j: int|
            if base <= j < base + payload.len() {
                payload[j - base]
            } else {
                data[j]
            },
    )
}

/// `mask` with `len` bits set from `base`.
pub open spec fn mask_span(mask: Seq<bool>, base: int, len: int) -> Seq<bool> {
    Seq::new(
        mask.len(),
        |j: int|
            if base <= j < base + len {
                true
            } else {
                mask[j]
            },
    )
}

/// Applies one record (other than EOF) to the state.
///
/// A data record places its payload at `ext_addr + offset`; a byte past
/// the flash region fails with the first offending address, and an
/// address that does not fit 32 bits fails as overflow.  An extended
/// segment record shifts its operand by 4 bits, an extended linear
/// record by 16, normalizing addresses in the FlexSPI window to
/// zero-based.  Every other record type is ignored.
pub open spec fn apply_record(m: HexModel, offset: u16, rec_type: u8, payload: Seq<u8>) -> Result<
    HexModel,
    HexErrKind,
> {
    if rec_type == 0 {
        let base = m.ext_addr as int + offset as int;
        if payload.len() == 0 {
            Ok(m)
        } else if base > u32::MAX {
            Err(HexErrKind::Overflow)
        } else if base + payload.len() > teensy41::CODE_SIZE {
            Err(
                HexErrKind::OutOfRange {
                    addr: (if base >= teensy41::CODE_SIZE {
                        base
                    } else {
                        teensy41::CODE_SIZE as int
                    }) as u32,
                },
            )
        } else {
            Ok(
                HexModel {
                    ext_addr: m.ext_addr,
                    data: write_span(m.data, base, payload),
                    mask: mask_span(m.mask, base, payload.len() as int),
                    byte_count: sat_add_usize(m.byte_count, payload.len() as usize),
                },
            )
        }
    } else if rec_type == 2 {
        if payload.len() == 2 {
            Ok(
                HexModel {
                    ext_addr: (((payload[0] as int) * 256 + payload[1] as int) * 16) as u32,
                    ..m
                },
            )
        } else {
            Ok(m)
        }
    } else if rec_type == 4 {
        if payload.len() == 2 {
            let hi = ((payload[0] as int) * 256 + payload[1] as int) * 65536;
            let mapped = if teensy41::FLEXSPI_BASE <= hi < teensy41::FLEXSPI_BASE
                + teensy41::CODE_SIZE {
                hi - teensy41::FLEXSPI_BASE
            } else {
                hi
            };
            Ok(HexModel { ext_addr: mapped as u32, ..m })
        } else {
            Ok(m)
        }
    } else {
        Ok(m)
    }
}

/// Address mapping: an extended linear address inside the FlexSPI
/// window is normalized to zero-based; one outside the window is
/// passed through unchanged.
pub proof fn lemma_flexspi_mapping(m: HexModel, offset: u16, p: Seq<u8>)
    requires
        p.len() == 2,
    ensures
        ({
            let hi = ((p[0] as int) * 256 + p[1] as int) * 65536;
            let mapped = if teensy41::FLEXSPI_BASE <= hi < teensy41::FLEXSPI_BASE
                + teensy41::CODE_SIZE {
                hi - teensy41::FLEXSPI_BASE
            } else {
                hi
            };
            apply_record(m, offset, 4u8, p) == Ok::<HexModel, HexErrKind>(
                HexModel { ext_addr: mapped as u32, ..m },
            )
        }),
{
}

/// Runs the parser over `lines` from line index `i` in state `m`.
pub open spec fn run_lines(lines: Seq<Seq<u8>>, i: nat, m: HexModel) -> Result<
    HexModel,
    HexErrModel,
>
    decreases lines.len() - i,
{
    if i >= lines.len() {
        Ok(m)
    } else {
        match classify_line(lines[i as int]) {
            LineClass::Blank => run_lines(lines, i + 1, m),
            LineClass::NotText => Err(HexErrModel { line: i + 1 as int, kind: HexErrKind::NotText }),
            LineClass::Invalid { msg } => Err(
                HexErrModel { line: i + 1 as int, kind: HexErrKind::Invalid { msg } },
            ),
            LineClass::BadChecksum => Err(
                HexErrModel { line: i + 1 as int, kind: HexErrKind::BadChecksum },
            ),
            LineClass::Rec { offset, rec_type, payload } => {
                if rec_type == 1 {
                    Ok(m)
                } else {
                    match apply_record(m, offset, rec_type, payload) {
                        Ok(m2) => run_lines(lines, i + 1, m2),
                        Err(k) => Err(HexErrModel { line: i + 1 as int, kind: k }),
                    }
                }
            },
        }
    }
}

/// The parse of a whole file, from its raw bytes.
pub open spec fn spec_parse(content: Seq<u8>) -> Result<HexModel, HexErrModel> {
    run_lines(strutil::split_seq(content, 10u8), 0, init_model())
}

// ---------------------------------------------------------------------
// The write-set.
// ---------------------------------------------------------------------

/// Does block `b` hold no byte that a record set to something other
/// than `0xFF`?
pub open spec fn block_blank(data: Seq<u8>, mask: Seq<bool>, b: int) -> bool {
    forall|j: int|
        b * teensy41::BLOCK_SIZE <= j < (b + 1) * teensy41::BLOCK_SIZE ==> !(#[trigger] mask[j]
            && data[j] != 0xFF)
}

/// The start addresses of the blocks to transmit among the first `n`
/// blocks: block 0 always, and every block that is not blank.
pub open spec fn blocks_upto(data: Seq<u8>, mask: Seq<bool>, n: int) -> Seq<usize>
    decreases n,
{
    if n <= 0 {
        Seq::empty()
    } else {
        let pre = blocks_upto(data, mask, n - 1);
        if n - 1 == 0 || !block_blank(data, mask, n - 1) {
            pre.push(((n - 1) * teensy41::BLOCK_SIZE) as usize)
        } else {
            pre
        }
    }
}

/// The start addresses of all blocks to transmit.
pub open spec fn spec_blocks(data: Seq<u8>, mask: Seq<bool>) -> Seq<usize> {
    blocks_upto(data, mask, teensy41::NUM_BLOCKS as int)
}

/// Block `b`'s start address fits every machine bound in play.
proof fn lemma_block_addr_bounds(b: int)
    requires
        0 <= b <= teensy41::NUM_BLOCKS,
    ensures
        0 <= b * teensy41::BLOCK_SIZE <= teensy41::CODE_SIZE,
        b < teensy41::NUM_BLOCKS ==> (b + 1) * teensy41::BLOCK_SIZE <= teensy41::CODE_SIZE,
{
    assert(0 <= b * teensy41::BLOCK_SIZE <= teensy41::CODE_SIZE && (b < teensy41::NUM_BLOCKS ==> (
    b + 1) * teensy41::BLOCK_SIZE <= teensy41::CODE_SIZE)) by (nonlinear_arith)
        requires
            0 <= b <= teensy41::NUM_BLOCKS,
            teensy41::NUM_BLOCKS * teensy41::BLOCK_SIZE == teensy41::CODE_SIZE,
            teensy41::BLOCK_SIZE > 0,
    ;
}

/// Every listed start address is below `n * BLOCK_SIZE`.
proof fn lemma_blocks_upto_bound(data: Seq<u8>, mask: Seq<bool>, n: int)
    requires
        0 <= n <= teensy41::NUM_BLOCKS,
    ensures
        forall|i: int|
            0 <= i < blocks_upto(data, mask, n).len() ==> (#[trigger] blocks_upto(data, mask, n)[i])
                < n * teensy41::BLOCK_SIZE,
    decreases n,
{
    if n > 0 {
        lemma_blocks_upto_bound(data, mask, n - 1);
        lemma_block_addr_bounds(n - 1);
        lemma_block_addr_bounds(n);
        assert((n - 1) * teensy41::BLOCK_SIZE < n * teensy41::BLOCK_SIZE) by (nonlinear_arith)
            requires
                teensy41::BLOCK_SIZE > 0,
        ;
        let pre = blocks_upto(data, mask, n - 1);
        let s = blocks_upto(data, mask, n);
        if n - 1 == 0 || !block_blank(data, mask, n - 1) {
            let x = ((n - 1) * teensy41::BLOCK_SIZE) as usize;
            assert(x == (n - 1) * teensy41::BLOCK_SIZE);
            assert(s == pre.push(x));
            assert forall|i: int| 0 <= i < s.len() implies (#[trigger] s[i]) < n
                * teensy41::BLOCK_SIZE by {
                if i < pre.len() {
                    assert(s[i] == pre[i]);
                } else {
                    assert(s[i] == x);
                }
            }
        } else {
            assert(s == pre);
        }
    }
}

/// Membership in the write-set: block `b`'s start address is listed
/// exactly when `b` is block 0 or `b` is not blank.
pub proof fn lemma_blocks_membership(data: Seq<u8>, mask: Seq<bool>, n: int, b: int)
    requires
        0 <= b < n <= teensy41::NUM_BLOCKS,
    ensures
        blocks_upto(data, mask, n).contains((b * teensy41::BLOCK_SIZE) as usize) <==> (b == 0
            || !block_blank(data, mask, b)),
    decreases n,
{
    let s = blocks_upto(data, mask, n);
    let pre = blocks_upto(data, mask, n - 1);
    lemma_block_addr_bounds(b);
    lemma_block_addr_bounds(n - 1);
    let x = ((b * teensy41::BLOCK_SIZE) as usize);
    assert(x == b * teensy41::BLOCK_SIZE);
    let y = (((n - 1) * teensy41::BLOCK_SIZE) as usize);
    assert(y == (n - 1) * teensy41::BLOCK_SIZE);
    if b < n - 1 {
        lemma_blocks_membership(data, mask, n - 1, b);
        assert(b * teensy41::BLOCK_SIZE < (n - 1) * teensy41::BLOCK_SIZE) by (nonlinear_arith)
            requires
                b < n - 1,
                teensy41::BLOCK_SIZE > 0,
        ;
        assert(x != y);
        if n - 1 == 0 || !block_blank(data, mask, n - 1) {
            assert(s == pre.push(y));
            if pre.contains(x) {
                let i = choose|i: int| 0 <= i < pre.len() && pre[i] == x;
                assert(s[i] == x);
                assert(s.contains(x));
            }
            if s.contains(x) {
                let i = choose|i: int| 0 <= i < s.len() && s[i] == x;
                if i < pre.len() {
                    assert(pre[i] == x);
                    assert(pre.contains(x));
                } else {
                    assert(s[i] == y);
                    assert(false);
                }
            }
        } else {
            assert(s == pre);
        }
    } else {
        assert(b == n - 1);
        if b == 0 || !block_blank(data, mask, b) {
            assert(s == pre.push(x));
            assert(s.last() == x);
            assert(s.contains(x));
        } else {
            assert(s == pre);
            if pre.contains(x) {
                lemma_blocks_upto_bound(data, mask, n - 1);
                let i = choose|i: int| 0 <= i < pre.len() && pre[i] == x;
                assert(pre[i] < (n - 1) * teensy41::BLOCK_SIZE);
                assert(false);
            }
        }
    }
}

/// Block 0 is always in the write-set.
pub proof fn lemma_blocks_contain_zero(data: Seq<u8>, mask: Seq<bool>)
    ensures
        spec_blocks(data, mask).contains(0usize),
{
    lemma_blocks_membership(data, mask, teensy41::NUM_BLOCKS as int, 0);
}

/// Sparse write-set correctness: a later block is in the write-set
/// exactly when some address inside it was written with a byte other
/// than `0xFF`.
pub proof fn lemma_blocks_sparse(data: Seq<u8>, mask: Seq<bool>, b: int)
    requires
        1 <= b < teensy41::NUM_BLOCKS,
    ensures
        spec_blocks(data, mask).contains((b * teensy41::BLOCK_SIZE) as usize) <==> exists|j: int|
            b * teensy41::BLOCK_SIZE <= j < (b + 1) * teensy41::BLOCK_SIZE && (#[trigger] mask[j])
                && data[j] != 0xFF,
{
    lemma_blocks_membership(data, mask, teensy41::NUM_BLOCKS as int, b);
}

// ---------------------------------------------------------------------
// The executable image.
// ---------------------------------------------------------------------

/// A parsed firmware image.
#[derive(Debug)]
pub struct FirmwareImage {
    /// The flash image: `CODE_SIZE` bytes, `0xFF` where never written.
    pub data: Vec<u8>,
    /// Total payload bytes of all data records.
    pub byte_count: usize,
    /// Number of blocks in the flash region.
    pub num_blocks: usize,
    /// Start addresses of the blocks to transmit, ascending.
    pub blocks_to_write: Vec<usize>,
}

/// Why a HEX file was rejected.
#[derive(Debug)]
pub enum HexError {
    /// Reading the file failed before parsing.
    Io { message: String },
    /// A line held bytes that are not ASCII text.
    NotText { line_no: usize },
    /// A malformed line.
    InvalidLine { line_no: usize, msg: String },
    /// A line whose checksum byte is wrong.
    InvalidChecksum { line_no: usize },
    /// A data byte's address does not fit 32 bits.
    AddressOverflow { line_no: usize },
    /// A data byte's address lies outside the flash region.
    AddressOutOfRange { line_no: usize, addr: u32 },
}

/// Does the executable error `e` carry what the model error `m` says?
pub open spec fn err_matches(e: HexError, m: HexErrModel) -> bool {
    match e {
        HexError::Io { .. } => false,
        HexError::NotText { line_no } => m.kind is NotText && line_no == m.line,
        HexError::InvalidLine { line_no, msg } => line_no == m.line && match m.kind {
            HexErrKind::Invalid { msg: sm } => msg@ == sm,
            _ => false,
        },
        HexError::InvalidChecksum { line_no } => m.kind is BadChecksum && line_no == m.line,
        HexError::AddressOverflow { line_no } => m.kind is Overflow && line_no == m.line,
        HexError::AddressOutOfRange { line_no, addr } => line_no == m.line && match m.kind {
            HexErrKind::OutOfRange { addr: sa } => addr == sa,
            _ => false,
        },
    }
}

/// Does image `img` present the parsed model `m`?
pub open spec fn image_matches(img: FirmwareImage, m: HexModel) -> bool {
    &&& img.data@ == m.data
    &&& img.byte_count == m.byte_count
    &&& img.num_blocks == teensy41::NUM_BLOCKS
    &&& img.blocks_to_write@ == spec_blocks(m.data, m.mask)
}

// ---------------------------------------------------------------------
// Executable parsing helpers.
// ---------------------------------------------------------------------

/// A vector of `len` copies of `val`.
fn filled_vec_u8(len: usize, val: u8) -> (r: Vec<u8>)
    ensures
        r@ == Seq::new(len as nat, |i: int| val),
{
    let mut r: Vec<u8> = Vec::new();
    let mut i: usize = 0;
    while i < len
        invariant
            0 <= i <= len,
            r@ =~= Seq::new(i as nat, |j: int| val),
        decreases len - i,
    {
        r.push(val);
        assert(r@ =~= Seq::new((i + 1) as nat, |j: int| val));
        i = i + 1;
    }
    assert(r@ =~= Seq::new(len as nat, |i: int| val));
    r
}

/// A vector of `len` copies of `false`.
fn filled_vec_bool(len: usize) -> (r: Vec<bool>)
    ensures
        r@ == Seq::new(len as nat, |i: int| false),
{
    let mut r: Vec<bool> = Vec::new();
    let mut i: usize = 0;
    while i < len
        invariant
            0 <= i <= len,
            r@ =~= Seq::new(i as nat, |j: int| false),
        decreases len - i,
    {
        r.push(false);
        assert(r@ =~= Seq::new((i + 1) as nat, |j: int| false));
        i = i + 1;
    }
    assert(r@ =~= Seq::new(len as nat, |i: int| false));
    r
}

/// Splits `content` at every newline byte./// Splits `content` at every newline byte.
fn split_lines(content: &Vec<u8>) -> (r: Vec<Vec<u8>>)
    ensures
        r@.len() == strutil::split_seq(content@, 10u8).len(),
        forall|i: int|
            0 <= i < r@.len() ==> (#[trigger] r@[i])@ == strutil::split_seq(content@, 10u8)[i],
{
    let n = content.len();
    let mut out: Vec<Vec<u8>> = Vec::new();
    let mut cur: Vec<u8> = Vec::new();
    let mut i: usize = 0;
    proof {
        assert(content@.take(0) =~= Seq::<u8>::empty());
    }
    while i < n
        invariant
            0 <= i <= n,
            n == content@.len(),
            out@.len() + 1 == strutil::split_seq(content@.take(i as int), 10u8).len(),
            forall|k: int|
                0 <= k < out@.len() ==> (#[trigger] out@[k])@ == strutil::split_seq(
                    content@.take(i as int),
                    10u8,
                )[k],
            cur@ == strutil::split_seq(content@.take(i as int), 10u8).last(),
        decreases n - i,
    {
        let b = content[i];
        proof {
            assert(content@.take(i + 1).drop_last() =~= content@.take(i as int));
            assert(content@.take(i + 1) =~= content@.take(i as int).push(content@[i as int]));
            strutil::lemma_split_seq_push(content@.take(i as int), 10u8, content@[i as int]);
        }
        if b == 10 {
            out.push(cur);
            cur = Vec::new();
        } else {
            cur.push(b);
        }
        i = i + 1;
    }
    proof {
        assert(content@.take(n as int) =~= content@);
        strutil::lemma_split_seq_len(content@, 10u8);
    }
    out.push(cur);
    proof {
        let ss = strutil::split_seq(content@, 10u8);
        assert forall|i: int| 0 <= i < out@.len() implies (#[trigger] out@[i])@ == ss[i] by {
            if i == out@.len() - 1 {
                assert(out@[i]@ == ss.last());
            }
        }
    }
    out
}

/// The outcome of reading one line, executable form.
enum LineParse {
    Blank,
    NotText,
    Invalid(String),
    BadChecksum,
    Rec { offset: u16, rec_type: u8, payload: Vec<u8> },
}

/// Does the executable outcome `r` present the classification `c`?
spec fn line_parse_matches(r: LineParse, c: LineClass) -> bool {
    match r {
        LineParse::Blank => c is Blank,
        LineParse::NotText => c is NotText,
        LineParse::Invalid(msg) => match c {
            LineClass::Invalid { msg: sm } => msg@ == sm,
            _ => false,
        },
        LineParse::BadChecksum => c is BadChecksum,
        LineParse::Rec { offset, rec_type, payload } => match c {
            LineClass::Rec { offset: so, rec_type: st, payload: sp } => offset == so && rec_type
                == st && payload@ == sp,
            _ => false,
        },
    }
}

/// Bounds of `trim_front` as an index.
proof fn lemma_trim_front_skip(s: Seq<u8>, i: int)
    requires
        0 <= i <= s.len(),
        forall|k: int| 0 <= k < i ==> is_space_byte(#[trigger] s[k]),
        i < s.len() ==> !is_space_byte(s[i]),
    ensures
        trim_front(s) == s.skip(i),
    decreases i,
{
    if i == 0 {
        assert(s.skip(0) =~= s);
    } else {
        assert(is_space_byte(s[0]));
        lemma_trim_front_skip(s.skip(1), i - 1);
        assert(s.skip(1).skip(i - 1) =~= s.skip(i));
    }
}

/// Bounds of `trim_back` as an index.
proof fn lemma_trim_back_take(s: Seq<u8>, i: int)
    requires
        0 <= i <= s.len(),
        forall|k: int| i <= k < s.len() ==> is_space_byte(#[trigger] s[k]),
        i > 0 ==> !is_space_byte(s[i - 1]),
    ensures
        trim_back(s) == s.take(i),
    decreases s.len() - i,
{
    if i == s.len() {
        assert(s.take(i) =~= s);
        if s.len() > 0 {
            assert(!is_space_byte(s.last()));
        }
    } else {
        assert(is_space_byte(s.last()));
        assert(s.drop_last() =~= s.take(s.len() - 1));
        lemma_trim_back_take(s.take(s.len() - 1), i);
        assert(s.take(s.len() - 1).take(i) =~= s.take(i));
    }
}

/// Is `line` well-formed UTF-8?
///
/// Relies on `str::from_utf8`: it accepts exactly the byte sequences
/// that are well-formed UTF-8, the same sequences `vstd::utf8`
/// describes (and requires for `from_utf8_unchecked`).
#[verifier::external_body]
fn is_valid_utf8(line: &Vec<u8>) -> (r: bool)
    ensures
        r == vstd::utf8::valid_utf8(line@),
{
    core::str::from_utf8(line.as_slice()).is_ok()
}

/// The bounds of `line` without surrounding whitespace.
fn trim_bounds(line: &Vec<u8>) -> (r: (usize, usize))
    ensures
        r.0 <= r.1 <= line@.len(),
        trim_spaces(line@) == line@.subrange(r.0 as int, r.1 as int),
{
    let n = line.len();
    let mut start: usize = 0;
    loop
        invariant
            0 <= start <= n,
            n == line@.len(),
            forall|k: int| 0 <= k < start ==> is_space_byte(#[trigger] line@[k]),
        ensures
            0 <= start <= n,
            n == line@.len(),
            forall|k: int| 0 <= k < start ==> is_space_byte(#[trigger] line@[k]),
            start < n ==> !is_space_byte(line@[start as int]),
        decreases n - start,
    {
        if start >= n {
            break;
        }
        let b = line[start];
        if !(b == 9 || b == 10 || b == 11 || b == 12 || b == 13 || b == 32) {
            break;
        }
        start = start + 1;
    }
    proof {
        lemma_trim_front_skip(line@, start as int);
    }
    let mut end: usize = n;
    loop
        invariant
            start <= end <= n,
            n == line@.len(),
            forall|k: int| end <= k < n ==> is_space_byte(#[trigger] line@[k]),
        ensures
            start <= end <= n,
            forall|k: int| end <= k < n ==> is_space_byte(#[trigger] line@[k]),
            end > start ==> !is_space_byte(line@[end - 1]),
        decreases end,
    {
        if end <= start {
            break;
        }
        let b = line[end - 1];
        if !(b == 9 || b == 10 || b == 11 || b == 12 || b == 13 || b == 32) {
            break;
        }
        end = end - 1;
    }
    proof {
        let f = line@.skip(start as int);
        assert forall|k: int| (end - start) <= k < f.len() implies is_space_byte(
            #[trigger] f[k],
        ) by {
            assert(f[k] == line@[k + start]);
        }
        if end > start {
            assert(f[end - start - 1] == line@[end - 1]);
        }
        lemma_trim_back_take(f, end - start);
        assert(f.take(end - start) =~= line@.subrange(start as int, end as int));
    }
    (start, end)
}

/// Decodes an even-length run of hex digit bytes, two per output byte.
fn decode_hex_bytes(digits: &Vec<u8>) -> (r: Result<Vec<u8>, String>)
    ensures
        match r {
            Ok(v) => digits@.len() % 2 == 0 && all_hex(digits@) && v@ == decoded_hex(digits@),
            Err(e) => (digits@.len() % 2 != 0 && e@ == msg_odd_digits()) || (digits@.len() % 2 == 0
                && !all_hex(digits@) && e@ == msg_bad_digit()),
        },
{
    let dn = digits.len();
    if dn % 2 != 0 {
        return Err("odd number of hex digits".to_owned());
    }
    let mut bytes: Vec<u8> = Vec::new();
    let mut j: usize = 0;
    while j < dn
        invariant
            0 <= j <= dn,
            j % 2 == 0,
            dn % 2 == 0,
            dn == digits@.len(),
            all_hex(digits@.take(j as int)),
            bytes@ =~= decoded_hex(digits@.take(j as int)),
        decreases dn - j,
    {
        let hi = digits[j];
        let lo = digits[j + 1];
        let hv = match from_hex_digit(hi) {
            Some(v) => v,
            None => {
                assert(!all_hex(digits@)) by {
                    assert(!is_hex_digit_byte(digits@[j as int]));
                }
                return Err("invalid hex digit".to_owned());
            },
        };
        let lv = match from_hex_digit(lo) {
            Some(v) => v,
            None => {
                assert(!all_hex(digits@)) by {
                    assert(!is_hex_digit_byte(digits@[j as int + 1]));
                }
                return Err("invalid hex digit".to_owned());
            },
        };
        let b: u8 = hv * 16 + lv;
        bytes.push(b);
        proof {
            assert(all_hex(digits@.take(j + 2))) by {
                assert(forall|k: int|
                    0 <= k < j + 2 ==> digits@.take(j + 2)[k] == #[trigger] digits@[k]);
            }
            assert(bytes@ =~= decoded_hex(digits@.take(j + 2))) by {
                assert(decoded_hex(digits@.take(j + 2)).len() == (j + 2) / 2);
                assert(forall|k: int|
                    0 <= k < j / 2 ==> #[trigger] decoded_hex(digits@.take(j + 2))[k]
                        == decoded_hex(digits@.take(j as int))[k]);
                assert(decoded_hex(digits@.take(j + 2))[j as int / 2] == b);
            }
        }
        j = j + 2;
    }
    proof {
        assert(digits@.take(dn as int) =~= digits@);
    }
    Ok(bytes)
}

/// The checksum of the first `m` bytes of `bytes`.
fn checksum_prefix(bytes: &Vec<u8>, m: usize) -> (r: u8)
    requires
        m <= bytes@.len(),
    ensures
        r == ihex_checksum_spec(bytes@.take(m as int)),
{
    let mut acc: u32 = 0;
    let mut i: usize = 0;
    while i < m
        invariant
            0 <= i <= m <= bytes@.len(),
            acc == sum_bytes(bytes@.take(i as int)) % 256,
        decreases m - i,
    {
        proof {
            lemma_sum_bytes_nonneg(bytes@.take(i as int));
            assert(bytes@.take(i + 1).drop_last() =~= bytes@.take(i as int));
            assert(bytes@.take(i + 1).last() == bytes@[i as int]);
        }
        acc = (acc + bytes[i] as u32) % 256;
        i = i + 1;
    }
    proof {
        lemma_sum_bytes_nonneg(bytes@.take(m as int));
    }
    ((256 - acc) % 256) as u8
}

/// Frames the decoded record bytes: length field, checksum, then the
/// record's parts.
fn record_from_bytes(bytes: Vec<u8>) -> (r: LineParse)
    requires
        bytes@.len() * 2 <= usize::MAX,
    ensures
        line_parse_matches(r, classify_bytes(bytes@)),
{
    if bytes.len() < 5 {
        return LineParse::Invalid("record too short".to_owned());
    }
    let len = bytes[0] as usize;
    if bytes.len() != 5 + len {
        let mut msg = "bad length (expected ".to_owned();
        msg.append(strutil::u64_to_string((2 * (5 + len)) as u64).as_str());
        msg.append(" bytes after ':', got ");
        msg.append(strutil::u64_to_string((2 * bytes.len()) as u64).as_str());
        msg.append(")");
        assert(msg@ =~= msg_bad_length(len as int, bytes@.len() as int));
        return LineParse::Invalid(msg);
    }
    let cs = checksum_prefix(&bytes, 4 + len);
    if bytes[4 + len] != cs {
        return LineParse::BadChecksum;
    }
    let offset: u16 = (bytes[1] as u16) * 256 + (bytes[2] as u16);
    let rec_type = bytes[3];
    let mut payload: Vec<u8> = Vec::new();
    let mut k: usize = 0;
    while k < len
        invariant
            0 <= k <= len,
            4 + len < bytes@.len(),
            bytes@.len() * 2 <= usize::MAX,
            payload@ =~= bytes@.subrange(4, 4 + k as int),
        decreases len - k,
    {
        payload.push(bytes[4 + k]);
        assert(payload@ =~= bytes@.subrange(4, 4 + (k + 1)));
        k = k + 1;
    }
    LineParse::Rec { offset, rec_type, payload }
}

/// Reads one line: trims it, checks its framing, decodes its bytes,
/// and verifies its checksum.
fn parse_line(line: &Vec<u8>) -> (r: LineParse)
    ensures
        line_parse_matches(r, classify_line(line@)),
{
    if !is_valid_utf8(line) {
        return LineParse::NotText;
    }
    let bounds = trim_bounds(line);
    let start = bounds.0;
    let end = bounds.1;
    let ghost t = trim_spaces(line@);
    if end == start {
        assert(t.len() == 0);
        return LineParse::Blank;
    }
    assert(t[0] == line@[start as int]);
    if line[start] != 0x3A {
        return LineParse::Invalid("missing ':' prefix".to_owned());
    }
    let mut digits: Vec<u8> = Vec::new();
    let mut j: usize = start + 1;
    while j < end
        invariant
            start + 1 <= j <= end <= line@.len(),
            digits@ =~= line@.subrange(start as int + 1, j as int),
        decreases end - j,
    {
        digits.push(line[j]);
        assert(digits@ =~= line@.subrange(start as int + 1, j + 1));
        j = j + 1;
    }
    assert(digits@ =~= t.skip(1)) by {
        assert(t == line@.subrange(start as int, end as int));
        assert(t.skip(1) =~= line@.subrange(start as int + 1, end as int));
    }
    let dn = digits.len();
    match decode_hex_bytes(&digits) {
        Err(msg) => LineParse::Invalid(msg),
        Ok(bytes) => {
            assert(bytes@.len() * 2 <= usize::MAX) by {
                assert(bytes@.len() == dn / 2);
            }
            record_from_bytes(bytes)
        },
    }
}

/// A data record's failure, executable form.
enum DataFailure {
    Overflow,
    OutOfRange(u32),
}

/// Applies one data record to the image arrays, mirroring
/// `apply_record` for record type 0.
fn apply_data_exec(
    data: &mut Vec<u8>,
    mask: &mut Vec<bool>,
    byte_count: &mut usize,
    ext_addr: u32,
    offset: u16,
    payload: &Vec<u8>,
) -> (r: Result<(), DataFailure>)
    requires
        old(data)@.len() == teensy41::CODE_SIZE,
        old(mask)@.len() == teensy41::CODE_SIZE,
    ensures
        ({
            let cur = HexModel {
                ext_addr,
                data: old(data)@,
                mask: old(mask)@,
                byte_count: *old(byte_count),
            };
            match apply_record(cur, offset, 0u8, payload@) {
                Ok(m2) => r is Ok && final(data)@ == m2.data && final(mask)@ == m2.mask
                    && *final(byte_count) == m2.byte_count,
                Err(k) => r is Err && final(data)@ == old(data)@ && final(mask)@ == old(mask)@
                    && *final(byte_count) == *old(byte_count) && match (r->Err_0, k) {
                    (DataFailure::Overflow, HexErrKind::Overflow) => true,
                    (DataFailure::OutOfRange(a), HexErrKind::OutOfRange { addr }) => a == addr,
                    _ => false,
                },
            }
        }),
{
    let ghost cur = HexModel {
        ext_addr,
        data: data@,
        mask: mask@,
        byte_count: *byte_count,
    };
    let plen = payload.len();
    if plen == 0 {
        assert(apply_record(cur, offset, 0u8, payload@) == Ok::<HexModel, HexErrKind>(cur));
        return Ok(());
    }
    let base64: u64 = ext_addr as u64 + offset as u64;
    if base64 > u32::MAX as u64 {
        return Err(DataFailure::Overflow);
    }
    let code = teensy41::CODE_SIZE as u64;
    if plen as u64 > code || base64 > code - plen as u64 {
        let addr: u32 = if base64 >= teensy41::CODE_SIZE as u64 {
            base64 as u32
        } else {
            teensy41::CODE_SIZE as u32
        };
        return Err(DataFailure::OutOfRange(addr));
    }
    let base = base64 as usize;
    let mut k: usize = 0;
    while k < plen
        invariant
            0 <= k <= plen,
            plen == payload@.len(),
            base + plen <= teensy41::CODE_SIZE,
            data@.len() == teensy41::CODE_SIZE,
            mask@.len() == teensy41::CODE_SIZE,
            data@ =~= write_span(cur.data, base as int, payload@.take(k as int)),
            mask@ =~= mask_span(cur.mask, base as int, k as int),
            cur.data == old(data)@,
            cur.mask == old(mask)@,
        decreases plen - k,
    {
        let v = payload[k];
        data.set(base + k, v);
        mask.set(base + k, true);
        proof {
            assert(data@ =~= write_span(cur.data, base as int, payload@.take(k + 1)));
            assert(mask@ =~= mask_span(cur.mask, base as int, k + 1));
        }
        k = k + 1;
    }
    proof {
        assert(payload@.take(plen as int) =~= payload@);
    }
    if *byte_count > usize::MAX - plen {
        *byte_count = usize::MAX;
    } else {
        *byte_count = *byte_count + plen;
    }
    Ok(())
}

/// The extended address after a type 2 or type 4 record.
fn ext_update(ext_addr: u32, rec_type: u8, payload: &Vec<u8>) -> (r: u32)
    requires
        rec_type == 2 || rec_type == 4,
    ensures
        ({
            let m = HexModel {
                ext_addr,
                data: Seq::empty(),
                mask: Seq::empty(),
                byte_count: 0,
            };
            apply_record(m, 0u16, rec_type, payload@) == Ok::<HexModel, HexErrKind>(
                HexModel { ext_addr: r, ..m },
            )
        }),
{
    if payload.len() != 2 {
        return ext_addr;
    }
    let hi16: u32 = (payload[0] as u32) * 256 + (payload[1] as u32);
    if rec_type == 2 {
        hi16 * 16
    } else {
        let v: u32 = hi16 * 65536;
        if v >= teensy41::FLEXSPI_BASE && v < teensy41::FLEXSPI_BASE + teensy41::CODE_SIZE as u32 {
            v - teensy41::FLEXSPI_BASE
        } else {
            v
        }
    }
}

impl FirmwareImage {
    /// Parses the raw bytes of an Intel HEX file into a Teensy 4.1
    /// firmware image, as `spec_parse` interprets them, and derives
    /// the write-set: block 0 always, then every block holding a byte
    /// written with a value other than `0xFF`.
    #[verifier::rlimit(60)]
    pub fn parse_teensy41(content: &Vec<u8>) -> (r: Result<FirmwareImage, HexError>)
        ensures
            match spec_parse(content@) {
                Ok(m) => r is Ok && image_matches(r->Ok_0, m),
                Err(em) => r is Err && err_matches(r->Err_0, em),
            },
            r is Ok ==> r->Ok_0.blocks_to_write@.contains(0usize),
            r is Ok ==> forall|b: int|
                1 <= b < teensy41::NUM_BLOCKS ==> (#[trigger] r->Ok_0.blocks_to_write@.contains(
                    (b * teensy41::BLOCK_SIZE) as usize,
                ) <==> exists|j: int|
                    b * teensy41::BLOCK_SIZE <= j < (b + 1) * teensy41::BLOCK_SIZE && (
                    #[trigger] spec_parse(content@)->Ok_0.mask[j])
                        && spec_parse(content@)->Ok_0.data[j] != 0xFF),
    {
        let lines = split_lines(content);
        let ghost ls = strutil::split_seq(content@, 10u8);
        let mut data = filled_vec_u8(teensy41::CODE_SIZE, 0xFF);
        let mut mask = filled_vec_bool(teensy41::CODE_SIZE);
        let mut byte_count: usize = 0;
        let mut ext_addr: u32 = 0;

        let n = lines.len();
        let mut i: usize = 0;
        loop
            invariant
                0 <= i <= n,
                n == ls.len(),
                ls == strutil::split_seq(content@, 10u8),
                lines@.len() == ls.len(),
                forall|k: int| 0 <= k < n ==> (#[trigger] lines@[k])@ == ls[k],
                data@.len() == teensy41::CODE_SIZE,
                mask@.len() == teensy41::CODE_SIZE,
                run_lines(ls, 0, init_model()) == run_lines(
                    ls,
                    i as nat,
                    HexModel { ext_addr, data: data@, mask: mask@, byte_count },
                ),
            ensures
                ls == strutil::split_seq(content@, 10u8),
                data@.len() == teensy41::CODE_SIZE,
                mask@.len() == teensy41::CODE_SIZE,
                run_lines(ls, 0, init_model()) == Ok::<HexModel, HexErrModel>(
                    HexModel { ext_addr, data: data@, mask: mask@, byte_count },
                ),
            decreases n - i,
        {
            if i >= n {
                break;
            }
            let ghost cur = HexModel { ext_addr, data: data@, mask: mask@, byte_count };
            assert(run_lines(ls, i as nat, cur) == match classify_line(ls[i as int]) {
                LineClass::Blank => run_lines(ls, i as nat + 1, cur),
                LineClass::NotText => Err(
                    HexErrModel { line: i + 1 as int, kind: HexErrKind::NotText },
                ),
                LineClass::Invalid { msg } => Err(
                    HexErrModel { line: i + 1 as int, kind: HexErrKind::Invalid { msg } },
                ),
                LineClass::BadChecksum => Err(
                    HexErrModel { line: i + 1 as int, kind: HexErrKind::BadChecksum },
                ),
                LineClass::Rec { offset, rec_type, payload } => {
                    if rec_type == 1 {
                        Ok(cur)
                    } else {
                        match apply_record(cur, offset, rec_type, payload) {
                            Ok(m2) => run_lines(ls, i as nat + 1, m2),
                            Err(k) => Err(HexErrModel { line: i + 1 as int, kind: k }),
                        }
                    }
                },
            });
            let line_no = i + 1;
            match parse_line(&lines[i]) {
                LineParse::Blank => {
                    i = i + 1;
                },
                LineParse::NotText => {
                    return Err(HexError::NotText { line_no });
                },
                LineParse::Invalid(msg) => {
                    return Err(HexError::InvalidLine { line_no, msg });
                },
                LineParse::BadChecksum => {
                    return Err(HexError::InvalidChecksum { line_no });
                },
                LineParse::Rec { offset, rec_type, payload } => {
                    if rec_type == 1 {
                        break;
                    } else if rec_type == 0 {
                        match apply_data_exec(
                            &mut data,
                            &mut mask,
                            &mut byte_count,
                            ext_addr,
                            offset,
                            &payload,
                        ) {
                            Ok(()) => {},
                            Err(DataFailure::Overflow) => {
                                return Err(HexError::AddressOverflow { line_no });
                            },
                            Err(DataFailure::OutOfRange(addr)) => {
                                return Err(HexError::AddressOutOfRange { line_no, addr });
                            },
                        }
                        i = i + 1;
                    } else if rec_type == 2 || rec_type == 4 {
                        let ghost e = HexModel {
                            ext_addr,
                            data: Seq::empty(),
                            mask: Seq::empty(),
                            byte_count: 0,
                        };
                        ext_addr = ext_update(ext_addr, rec_type, &payload);
                        proof {
                            assert(apply_record(cur, offset, rec_type, payload@)
                                == Ok::<HexModel, HexErrKind>(
                                HexModel { ext_addr, data: data@, mask: mask@, byte_count },
                            ));
                        }
                        i = i + 1;
                    } else {
                        assert(apply_record(cur, offset, rec_type, payload@)
                            == Ok::<HexModel, HexErrKind>(cur));
                        i = i + 1;
                    }
                },
            }
        }
        let ghost m = HexModel { ext_addr, data: data@, mask: mask@, byte_count };
        assert(spec_parse(content@) == Ok::<HexModel, HexErrModel>(m));

        // Derive the write-set.
        let mut blocks_to_write: Vec<usize> = Vec::new();
        let mut b: usize = 0;
        while b < teensy41::NUM_BLOCKS
            invariant
                0 <= b <= teensy41::NUM_BLOCKS,
                data@.len() == teensy41::CODE_SIZE,
                mask@.len() == teensy41::CODE_SIZE,
                data@ == m.data,
                mask@ == m.mask,
                blocks_to_write@ =~= blocks_upto(data@, mask@, b as int),
            decreases teensy41::NUM_BLOCKS - b,
        {
            proof {
                lemma_block_addr_bounds(b as int);
            }
            let start = b * teensy41::BLOCK_SIZE;
            if b == 0 {
                blocks_to_write.push(start);
            } else if !is_block_blank_at(&data, &mask, start) {
                assert(!block_blank(data@, mask@, b as int)) by {
                    assert(start / teensy41::BLOCK_SIZE == b) by (nonlinear_arith)
                        requires
                            start == b * teensy41::BLOCK_SIZE,
                            teensy41::BLOCK_SIZE > 0,
                    ;
                }
                blocks_to_write.push(start);
            } else {
                assert(block_blank(data@, mask@, b as int)) by {
                    assert(start / teensy41::BLOCK_SIZE == b) by (nonlinear_arith)
                        requires
                            start == b * teensy41::BLOCK_SIZE,
                            teensy41::BLOCK_SIZE > 0,
                    ;
                }
            }
            proof {
                assert(blocks_to_write@ =~= blocks_upto(data@, mask@, b + 1));
            }
            b = b + 1;
        }
        let img = FirmwareImage {
            data,
            byte_count,
            num_blocks: teensy41::NUM_BLOCKS,
            blocks_to_write,
        };
        proof {
            lemma_blocks_contain_zero(m.data, m.mask);
            assert forall|b: int| 1 <= b < teensy41::NUM_BLOCKS implies (
            #[trigger] img.blocks_to_write@.contains((b * teensy41::BLOCK_SIZE) as usize) <==> exists|j: int|
                b * teensy41::BLOCK_SIZE <= j < (b + 1) * teensy41::BLOCK_SIZE && (#[trigger] m.mask[j])
                    && m.data[j] != 0xFF) by {
                lemma_blocks_sparse(m.data, m.mask, b);
            }
        }
        Ok(img)
    }
}

/// Is the block starting at `start` free of bytes written with a value
/// other than `0xFF`?
fn is_block_blank_at(data: &Vec<u8>, mask: &Vec<bool>, start: usize) -> (r: bool)
    requires
        data@.len() == mask@.len(),
        start + teensy41::BLOCK_SIZE <= data@.len(),
        start % teensy41::BLOCK_SIZE == 0,
    ensures
        r == block_blank(data@, mask@, (start / teensy41::BLOCK_SIZE) as int),
{
    let ghost b = (start / teensy41::BLOCK_SIZE) as int;
    proof {
        assert(b * teensy41::BLOCK_SIZE == start) by (nonlinear_arith)
            requires
                start % teensy41::BLOCK_SIZE == 0,
                b == start / teensy41::BLOCK_SIZE,
                teensy41::BLOCK_SIZE > 0,
        ;
    }
    let dn = data.len();
    let end = start + teensy41::BLOCK_SIZE;
    let mut j: usize = start;
    while j < end
        invariant
            start <= j <= end,
            end == start + teensy41::BLOCK_SIZE,
            end <= dn,
            dn == data@.len(),
            data@.len() == mask@.len(),
            b * teensy41::BLOCK_SIZE == start,
            (b + 1) * teensy41::BLOCK_SIZE == end,
            forall|k: int| start <= k < j ==> !(#[trigger] mask@[k] && data@[k] != 0xFF),
        decreases end - j,
    {
        if mask[j] && data[j] != 0xFF {
            return false;
        }
        j = j + 1;
    }
    true
}


impl HexError {
    /// The error as text.
    pub open spec fn spec_message(&self) -> Seq<char> {
        match self {
            HexError::Io { message } => "io: "@ + message@,
            HexError::NotText { line_no } => "input is not a text Intel HEX file (invalid UTF-8 at line "@
                + strutil::u64_chars(*line_no as u64) + "); did you pass a .elf?"@,
            HexError::InvalidLine { line_no, msg } => "invalid hex line "@ + strutil::u64_chars(
                *line_no as u64,
            ) + ": "@ + msg@,
            HexError::InvalidChecksum { line_no } => "invalid checksum at line "@
                + strutil::u64_chars(*line_no as u64),
            HexError::AddressOverflow { line_no } => "address overflow at line "@
                + strutil::u64_chars(*line_no as u64),
            HexError::AddressOutOfRange { line_no, addr } => "address out of Teensy 4.1 range at line "@
                + strutil::u64_chars(*line_no as u64) + ": 0x"@ + strutil::u64_hex_chars(
                *addr as u64,
                8,
            ),
        }
    }

    /// Renders the error as text.
    pub fn message(&self) -> (r: String)
        ensures
            r@ == self.spec_message(),
    {
        match self {
            HexError::Io { message } => {
                let mut s = "io: ".to_owned();
                s.append(message.as_str());
                s
            },
            HexError::NotText { line_no } => {
                let mut s = "input is not a text Intel HEX file (invalid UTF-8 at line ".to_owned();
                s.append(strutil::usize_to_string(*line_no).as_str());
                s.append("); did you pass a .elf?");
                s
            },
            HexError::InvalidLine { line_no, msg } => {
                let mut s = "invalid hex line ".to_owned();
                s.append(strutil::usize_to_string(*line_no).as_str());
                s.append(": ");
                s.append(msg.as_str());
                s
            },
            HexError::InvalidChecksum { line_no } => {
                let mut s = "invalid checksum at line ".to_owned();
                s.append(strutil::usize_to_string(*line_no).as_str());
                s
            },
            HexError::AddressOverflow { line_no } => {
                let mut s = "address overflow at line ".to_owned();
                s.append(strutil::usize_to_string(*line_no).as_str());
                s
            },
            HexError::AddressOutOfRange { line_no, addr } => {
                let mut s = "address out of Teensy 4.1 range at line ".to_owned();
                s.append(strutil::usize_to_string(*line_no).as_str());
                s.append(": 0x");
                s.append(strutil::u64_to_hex_string(*addr as u64, 8).as_str());
                s
            },
        }
    }
}


} // verus!
