//! A1-style cell references: parsing them into zero-based coordinates,
//! writing them back, and shifting the references inside a formula.

use vstd::prelude::*;
use vstd::utf8::{decode_utf8, valid_utf8};
use vstd::string::StringSliceAdditionalSpecFns;
use crate::error::{Unexpected, XlsxError};
use crate::numbers::{decimal_value, is_digit, all_digits};
use crate::text::utf8_str;

verus! {

/// The number of columns of a worksheet.
pub const MAX_COLUMNS: u32 = 16384;

pub open spec fn is_letter(b: u8) -> bool {
    (65 <= b <= 90) || (97 <= b <= 122)
}

/// A = 1, ..., Z = 26, in either case.
pub open spec fn letter_value(b: u8) -> nat {
    if 65 <= b <= 90 {
        (b - 64) as nat
    } else {
        (b - 96) as nat
    }
}

/// The column number written by a string of letters (A = 1, Z = 26, AA = 27, ...).
pub open spec fn letters_value(s: Seq<u8>) -> nat
    decreases s.len(),
{
    if s.len() == 0 {
        0
    } else {
        letters_value(s.drop_last()) * 26 + letter_value(s.last())
    }
}

/// The start of the run of digits that ends at index `j`.
pub open spec fn back_digits(s: Seq<u8>, j: int) -> int
    decreases j,
{
    if j <= 0 || j > s.len() {
        if j > s.len() { s.len() as int } else { 0 }
    } else if is_digit(s[j - 1]) {
        back_digits(s, j - 1)
    } else {
        j
    }
}

/// The start of the run of letters that ends at index `j`.
pub open spec fn back_letters(s: Seq<u8>, j: int) -> int
    decreases j,
{
    if j <= 0 || j > s.len() {
        if j > s.len() { s.len() as int } else { 0 }
    } else if is_letter(s[j - 1]) {
        back_letters(s, j - 1)
    } else {
        j
    }
}

/// A reference read from its last byte backwards: a run of digits (the row
/// number), then a run of letters (the column letters), and nothing before
/// them. The result is the one-based row number and column number (0 when
/// there are no letters). The first offending byte from the right decides the
/// error: a digit before the letters, any other byte, or letters with no row.
pub open spec fn spec_row_and_col(s: Seq<u8>) -> Result<(nat, nat), XlsxError> {
    let j = back_digits(s, s.len() as int);
    if j > 0 {
        let c = s[j - 1];
        let row = decimal_value(s.subrange(j, s.len() as int));
        if !is_letter(c) {
            Err(XlsxError::Alphanumeric(c))
        } else if row == 0 {
            Err(XlsxError::RangeWithoutRowComponent)
        } else {
            let k = back_letters(s, j);
            if k > 0 {
                let c2 = s[k - 1];
                if is_digit(c2) {
                    Err(XlsxError::NumericColumn(c2))
                } else {
                    Err(XlsxError::Alphanumeric(c2))
                }
            } else {
                Ok((row, letters_value(s.subrange(0, j))))
            }
        }
    } else {
        Ok((decimal_value(s), 0))
    }
}

/// The zero-based row and, when letters are present, the zero-based column of
/// a reference such as `B3` (row 2, column 1) or `7` (row 6, no column).
pub open spec fn spec_row_and_optional_column(s: Seq<u8>) -> Result<(u32, Option<u32>), XlsxError> {
    match spec_row_and_col(s) {
        Err(e) => Err(e),
        Ok((row, col)) => if row == 0 {
            Err(XlsxError::RangeWithoutRowComponent)
        } else if row > u32::MAX || col > u32::MAX {
            Err(XlsxError::CellOutOfRange)
        } else {
            Ok(((row - 1) as u32, if col == 0 { None } else { Some((col - 1) as u32) }))
        },
    }
}

pub open spec fn spec_get_row_column(s: Seq<u8>) -> Result<(u32, u32), XlsxError> {
    match spec_row_and_optional_column(s) {
        Err(e) => Err(e),
        Ok((row, None)) => Err(XlsxError::RangeWithoutColumnComponent),
        Ok((row, Some(col))) => Ok((row, col)),
    }
}

pub open spec fn spec_get_row(s: Seq<u8>) -> Result<u32, XlsxError> {
    match spec_row_and_optional_column(s) {
        Err(e) => Err(e),
        Ok((row, _)) => Ok(row),
    }
}

fn back_digits_exec(s: &[u8], j: usize) -> (r: usize)
    requires
        j <= s.len(),
    ensures
        r as int == back_digits(s@, j as int),
        r <= j,
{
    let mut k = j;
    while k > 0 && 48u8 <= s[k - 1] && s[k - 1] <= 57u8
        invariant
            k <= j <= s.len(),
            back_digits(s@, j as int) == back_digits(s@, k as int),
        decreases k,
    {
        k = k - 1;
    }
    k
}

fn back_letters_exec(s: &[u8], j: usize) -> (r: usize)
    requires
        j <= s.len(),
    ensures
        r as int == back_letters(s@, j as int),
        r <= j,
{
    let mut k = j;
    while k > 0 && ((65u8 <= s[k - 1] && s[k - 1] <= 90u8) || (97u8 <= s[k - 1] && s[k - 1] <= 122u8))
        invariant
            k <= j <= s.len(),
            back_letters(s@, j as int) == back_letters(s@, k as int),
        decreases k,
    {
        k = k - 1;
    }
    k
}

/// The least of a value and 2^32.
pub open spec fn cap32(v: nat) -> nat {
    if v > 0x1_0000_0000 { 0x1_0000_0000 } else { v }
}

/// The value of a digit string, capped at 2^32.
fn decimal_capped(s: &[u8], from: usize, to: usize) -> (r: u64)
    requires
        from <= to <= s.len(),
        all_digits(s@.subrange(from as int, to as int)),
    ensures
        r as nat == cap32(decimal_value(s@.subrange(from as int, to as int))),
{
    let mut acc: u64 = 0;
    let mut i = from;
    while i < to
        invariant
            from <= i <= to <= s.len(),
            all_digits(s@.subrange(from as int, to as int)),
            acc as nat == cap32(decimal_value(s@.subrange(from as int, i as int))),
        decreases to - i,
    {
        let ghost p = s@.subrange(from as int, i + 1);
        assert(p.drop_last() =~= s@.subrange(from as int, i as int));
        assert(p.last() == s@[i as int]);
        assert(is_digit(s@.subrange(from as int, to as int)[i - from]));
        let d = (s[i] - 48u8) as u64;
        if acc >= 0x1_0000_0000 {
            acc = 0x1_0000_0000;
        } else {
            let next = acc * 10 + d;
            acc = if next > 0x1_0000_0000 { 0x1_0000_0000 } else { next };
        }
        i = i + 1;
    }
    acc
}

/// The value of a letter string, capped at 2^32.
fn letters_capped(s: &[u8], to: usize) -> (r: u64)
    requires
        to <= s.len(),
        forall|i: int| 0 <= i < to ==> is_letter(#[trigger] s@[i]),
    ensures
        r as nat == cap32(letters_value(s@.subrange(0, to as int))),
{
    let mut acc: u64 = 0;
    let mut i: usize = 0;
    while i < to
        invariant
            i <= to <= s.len(),
            forall|i: int| 0 <= i < to ==> is_letter(#[trigger] s@[i]),
            acc as nat == cap32(letters_value(s@.subrange(0, i as int))),
        decreases to - i,
    {
        let ghost p = s@.subrange(0, i + 1);
        assert(p.drop_last() =~= s@.subrange(0, i as int));
        assert(p.last() == s@[i as int]);
        let b = s[i];
        let d: u64 = if 65u8 <= b && b <= 90u8 { (b - 64u8) as u64 } else { (b - 96u8) as u64 };
        if acc >= 0x1_0000_0000 {
            acc = 0x1_0000_0000;
        } else {
            let next = acc * 26 + d;
            acc = if next > 0x1_0000_0000 { 0x1_0000_0000 } else { next };
        }
        i = i + 1;
    }
    acc
}

proof fn lemma_back_digits_all_digits(s: Seq<u8>, j: int)
    requires
        0 <= j <= s.len(),
    ensures
        0 <= back_digits(s, j) <= j,
        all_digits(s.subrange(back_digits(s, j), j)),
        back_digits(s, j) > 0 ==> !is_digit(s[back_digits(s, j) - 1]),
    decreases j,
{
    if j > 0 && is_digit(s[j - 1]) {
        lemma_back_digits_all_digits(s, j - 1);
        let k = back_digits(s, j);
        assert forall|i: int| 0 <= i < s.subrange(k, j).len() implies is_digit(#[trigger] s.subrange(k, j)[i]) by {
            if k + i < j - 1 {
                assert(s.subrange(k, j)[i] == s.subrange(k, j - 1)[i]);
            }
        }
    }
}

proof fn lemma_back_letters_all_letters(s: Seq<u8>, j: int)
    requires
        0 <= j <= s.len(),
    ensures
        0 <= back_letters(s, j) <= j,
        forall|i: int| back_letters(s, j) <= i < j ==> is_letter(#[trigger] s[i]),
        back_letters(s, j) > 0 ==> !is_letter(s[back_letters(s, j) - 1]),
    decreases j,
{
    if j > 0 && is_letter(s[j - 1]) {
        lemma_back_letters_all_letters(s, j - 1);
    }
}

/// Parses a reference into its zero-based row and optional zero-based column.
pub fn get_row_and_optional_column(range: &[u8]) -> (r: Result<(u32, Option<u32>), XlsxError>)
    ensures
        r == spec_row_and_optional_column(range@),
{
    let len = range.len();
    let j = back_digits_exec(range, len);
    proof {
        lemma_back_digits_all_digits(range@, len as int);
        assert(range@.subrange(0, len as int) =~= range@);
    }
    if j > 0 {
        let c = range[j - 1];
        if !((65u8 <= c && c <= 90u8) || (97u8 <= c && c <= 122u8)) {
            return Err(XlsxError::Alphanumeric(c));
        }
        let row = decimal_capped(range, j, len);
        if row == 0 {
            return Err(XlsxError::RangeWithoutRowComponent);
        }
        let k = back_letters_exec(range, j);
        proof {
            lemma_back_letters_all_letters(range@, j as int);
        }
        if k > 0 {
            let c2 = range[k - 1];
            if 48u8 <= c2 && c2 <= 57u8 {
                return Err(XlsxError::NumericColumn(c2));
            } else {
                return Err(XlsxError::Alphanumeric(c2));
            }
        }
        let col = letters_capped(range, j);
        if row > 0xFFFF_FFFF || col > 0xFFFF_FFFF {
            return Err(XlsxError::CellOutOfRange);
        }
        proof {
            assert(col > 0);
        }
        Ok(((row - 1) as u32, Some((col - 1) as u32)))
    } else {
        let row = decimal_capped(range, 0, len);
        if row == 0 {
            return Err(XlsxError::RangeWithoutRowComponent);
        }
        if row > 0xFFFF_FFFF {
            return Err(XlsxError::CellOutOfRange);
        }
        Ok(((row - 1) as u32, None))
    }
}

/// Parses a reference that must hold a column, such as `B3`, into zero-based
/// (row, column).
pub fn get_row_column(range: &[u8]) -> (r: Result<(u32, u32), XlsxError>)
    ensures
        r == spec_get_row_column(range@),
{
    match get_row_and_optional_column(range) {
        Err(e) => Err(e),
        Ok((row, None)) => Err(XlsxError::RangeWithoutColumnComponent),
        Ok((row, Some(col))) => Ok((row, col)),
    }
}

/// Parses a row reference, such as `3` or `B3`, into its zero-based row.
pub fn get_row(range: &[u8]) -> (r: Result<u32, XlsxError>)
    ensures
        r == spec_get_row(range@),
{
    match get_row_and_optional_column(range) {
        Err(e) => Err(e),
        Ok((row, _)) => Ok(row),
    }
}

/// A rectangular range of cells, as zero-based (row, column) corners.
#[derive(Debug, Clone, Copy, PartialEq, Eq)]
pub struct Dimensions {
    pub start: (u32, u32),
    pub end: (u32, u32),
}

/// The index of the first `:` at or after `i`, or the length.
pub open spec fn next_colon(s: Seq<u8>, i: int) -> int
    decreases s.len() - i,
{
    if i < 0 || i >= s.len() {
        if i < 0 { 0 } else { i }
    } else if s[i] == 58u8 {
        i
    } else {
        next_colon(s, i + 1)
    }
}

pub proof fn lemma_next_colon_bounds(s: Seq<u8>, i: int)
    requires
        0 <= i <= s.len(),
    ensures
        i <= next_colon(s, i) <= s.len(),
        next_colon(s, i) < s.len() ==> s[next_colon(s, i)] == 58u8,
    decreases s.len() - i,
{
    if i < s.len() && s[i] != 58u8 {
        lemma_next_colon_bounds(s, i + 1);
    }
}

/// The range that `count` parts make, with `first` and `second` the first two.
pub open spec fn dimension_of_parts(count: nat, first: (u32, u32), second: (u32, u32)) -> Result<Dimensions, XlsxError> {
    if count == 1 {
        Ok(Dimensions { start: first, end: first })
    } else if count == 2 {
        Ok(Dimensions { start: first, end: second })
    } else {
        Err(XlsxError::DimensionCount(count as usize))
    }
}

/// Parses the `:`-separated parts from index `i` on, `count` parts having been
/// read already; the first part that is no cell reference decides the error.
pub open spec fn dimension_from(s: Seq<u8>, i: int, count: nat, first: (u32, u32), second: (u32, u32)) -> Result<Dimensions, XlsxError>
    decreases s.len() - i,
{
    if i < 0 || i > s.len() {
        Err(XlsxError::DimensionCount(0))
    } else {
        let j = next_colon(s, i);
        match spec_get_row_column(s.subrange(i, j)) {
            Err(e) => Err(e),
            Ok(p) => {
                let f = if count == 0 { p } else { first };
                let g = if count == 1 { p } else { second };
                if j >= s.len() {
                    dimension_of_parts(count + 1, f, g)
                } else {
                    proof {
                        lemma_next_colon_bounds(s, i);
                    }
                    dimension_from(s, j + 1, count + 1, f, g)
                }
            },
        }
    }
}

/// A range such as `A1:C10` (or a single cell `B2`).
pub open spec fn spec_get_dimension(s: Seq<u8>) -> Result<Dimensions, XlsxError> {
    dimension_from(s, 0, 0, (0, 0), (0, 0))
}

/// Parses a range reference.
pub fn get_dimension(dimension: &[u8]) -> (r: Result<Dimensions, XlsxError>)
    ensures
        r == spec_get_dimension(dimension@),
{
    let mut i: usize = 0;
    let mut count: usize = 0;
    let mut first: (u32, u32) = (0, 0);
    let mut second: (u32, u32) = (0, 0);
    loop
        invariant
            i <= dimension@.len(),
            count <= i,
            spec_get_dimension(dimension@) == dimension_from(dimension@, i as int, count as nat, first, second),
        decreases dimension@.len() - i,
    {
        let mut j = i;
        while j < dimension.len() && dimension[j] != 58u8
            invariant
                i <= j <= dimension@.len(),
                next_colon(dimension@, i as int) == next_colon(dimension@, j as int),
            decreases dimension@.len() - j,
        {
            j = j + 1;
        }
        let part = &dimension[i..j];
        match get_row_column(part) {
            Err(e) => {
                return Err(e);
            },
            Ok(p) => {
                if count == 0 {
                    first = p;
                }
                if count == 1 {
                    second = p;
                }
                count = count + 1;
                if j >= dimension.len() {
                    if count == 1 {
                        return Ok(Dimensions { start: first, end: first });
                    } else if count == 2 {
                        return Ok(Dimensions { start: first, end: second });
                    } else {
                        return Err(XlsxError::DimensionCount(count));
                    }
                }
                i = j + 1;
            },
        }
    }
}

/// The zero-based inclusive column range of a `col` element's one-based
/// `min`/`max` (`max` defaults to `min`).
pub open spec fn spec_worksheet_column_span(min: u32, max: Option<u32>) -> Result<(u32, u32), XlsxError> {
    let last = match max { Some(m) => m, None => min };
    if min == 0 || last < min || last > MAX_COLUMNS {
        Err(XlsxError::InvalidColumnSpan)
    } else {
        Ok(((min - 1) as u32, (last - 1) as u32))
    }
}

/// The zero-based columns that a `col` element spans.
pub fn worksheet_column_span(min: u32, max: Option<u32>) -> (r: Result<(u32, u32), XlsxError>)
    ensures
        r == spec_worksheet_column_span(min, max),
{
    let last = match max {
        Some(m) => m,
        None => min,
    };
    if min == 0 || last < min || last > MAX_COLUMNS {
        Err(XlsxError::InvalidColumnSpan)
    } else {
        Ok((min - 1, last - 1))
    }
}

/// The letters of the one-based column number `n` (1 = A, 27 = AA).
pub open spec fn column_letters(n: nat) -> Seq<u8>
    decreases n,
{
    if n == 0 {
        Seq::empty()
    } else {
        column_letters(((n - 1) as nat) / 26) + seq![(((n - 1) as nat) % 26 + 65) as u8]
    }
}

/// The decimal digits of `n`.
pub open spec fn decimal_digits(n: nat) -> Seq<u8>
    decreases n,
{
    if n < 10 {
        seq![(n + 48) as u8]
    } else {
        decimal_digits(n / 10) + seq![(n % 10 + 48) as u8]
    }
}

fn column_letters_exec(n: u32) -> (r: Vec<u8>)
    ensures
        r@ == column_letters(n as nat),
    decreases n,
{
    if n == 0 {
        Vec::new()
    } else {
        let mut v = column_letters_exec((n - 1) / 26);
        v.push(((n - 1) % 26 + 65) as u8);
        v
    }
}

fn decimal_digits_exec(n: u32) -> (r: Vec<u8>)
    ensures
        r@ == decimal_digits(n as nat),
    decreases n,
{
    if n < 10 {
        let mut v = Vec::new();
        v.push((n + 48) as u8);
        v
    } else {
        let mut v = decimal_digits_exec(n / 10);
        v.push((n % 10 + 48) as u8);
        v
    }
}

/// The name of the cell at zero-based (row, column): column letters, then the
/// one-based row number (computed in 32-bit wrapping arithmetic).
pub open spec fn spec_coordinate_to_name(row: u32, col: u32) -> Result<Seq<u8>, XlsxError> {
    if col >= MAX_COLUMNS {
        Err(XlsxError::Unexpected(Unexpected::ColumnNumberOverflow))
    } else {
        Ok(column_letters((col + 1) as nat) + decimal_digits(((row + 1) % 0x1_0000_0000) as nat))
    }
}

/// Writes the name of a cell, such as `B3` for (2, 1).
pub fn coordinate_to_name(row: u32, col: u32) -> (r: Result<Vec<u8>, XlsxError>)
    ensures
        match (r, spec_coordinate_to_name(row, col)) {
            (Ok(v), Ok(w)) => v@ == w,
            (Err(x), Err(y)) => x == y,
            _ => false,
        },
{
    if col >= MAX_COLUMNS {
        return Err(XlsxError::Unexpected(Unexpected::ColumnNumberOverflow));
    }
    let mut name = column_letters_exec(col + 1);
    let digits = decimal_digits_exec(row.wrapping_add(1));
    let ghost before = name@;
    let mut k: usize = 0;
    while k < digits.len()
        invariant
            k <= digits@.len(),
            name@ == before + digits@.subrange(0, k as int),
        decreases digits@.len() - k,
    {
        name.push(digits[k]);
        k = k + 1;
        assert(name@ =~= before + digits@.subrange(0, k as int));
    }
    assert(digits@.subrange(0, k as int) =~= digits@);
    Ok(name)
}

/// The state of the formula rewriter: the output so far, the pending run of
/// letters and digits, whether that run has reached its digits, and whether a
/// string literal is open.
pub struct RenameState {
    pub res: Seq<u8>,
    pub cell: Seq<u8>,
    pub is_cell_row: bool,
    pub in_quote: bool,
}

/// What a pending run becomes: the shifted name when it is a cell reference,
/// else the run itself.
pub open spec fn spec_flush_cell(cell: Seq<u8>, offset: (i64, i64)) -> Result<Seq<u8>, XlsxError> {
    match spec_get_row_column(cell) {
        Ok(pos) => spec_coordinate_to_name(
            ((pos.0 + offset.0) % 0x1_0000_0000) as u32,
            ((pos.1 + offset.1) % 0x1_0000_0000) as u32,
        ),
        Err(_) => Ok(cell),
    }
}

/// One byte of the formula through the rewriter.
#[verifier::opaque]
pub open spec fn rename_step(st: RenameState, c: u8, offset: (i64, i64)) -> Result<RenameState, XlsxError> {
    let in_quote = if c == 34u8 { !st.in_quote } else { st.in_quote };
    if in_quote {
        Ok(RenameState { res: st.res.push(c), in_quote, ..st })
    } else if is_letter(c) {
        if st.is_cell_row {
            Ok(RenameState { res: st.res + st.cell, cell: seq![c], is_cell_row: false, in_quote })
        } else {
            Ok(RenameState { cell: st.cell.push(c), in_quote, ..st })
        }
    } else if is_digit(c) {
        Ok(RenameState { cell: st.cell.push(c), is_cell_row: true, in_quote, ..st })
    } else {
        match spec_flush_cell(st.cell, offset) {
            Err(e) => Err(e),
            Ok(name) => Ok(RenameState { res: st.res + name + seq![c], cell: Seq::empty(), is_cell_row: false, in_quote }),
        }
    }
}

/// The rewriter's state after the first `n` bytes.
pub open spec fn rename_upto(s: Seq<u8>, n: int, offset: (i64, i64)) -> Result<RenameState, XlsxError>
    decreases n,
{
    if n <= 0 || n > s.len() {
        Ok(RenameState { res: Seq::empty(), cell: Seq::empty(), is_cell_row: false, in_quote: false })
    } else {
        match rename_upto(s, n - 1, offset) {
            Err(e) => Err(e),
            Ok(st) => rename_step(st, s[n - 1], offset),
        }
    }
}

/// The formula whose UTF-8 bytes are `s` with every cell reference outside
/// string literals moved by `offset` (rows, columns).
pub open spec fn spec_replace_cell_names(s: Seq<u8>, offset: (i64, i64)) -> Result<Seq<char>, XlsxError> {
    match rename_upto(s, s.len() as int, offset) {
        Err(e) => Err(e),
        Ok(st) => {
            let tail = if st.cell.len() > 0 { spec_flush_cell(st.cell, offset) } else { Ok(Seq::empty()) };
            match tail {
                Err(e) => Err(e),
                Ok(t) => if valid_utf8(st.res + t) {
                    Ok(decode_utf8(st.res + t))
                } else {
                    Err(XlsxError::Unexpected(Unexpected::CellNameEncoding))
                },
            }
        },
    }
}

proof fn lemma_rename_error_persists(s: Seq<u8>, k: int, n: int, offset: (i64, i64))
    requires
        0 <= k <= n <= s.len(),
        rename_upto(s, k, offset) is Err,
    ensures
        rename_upto(s, n, offset) == rename_upto(s, k, offset),
    decreases n - k,
{
    if n > k {
        lemma_rename_error_persists(s, k, n - 1, offset);
    }
}

fn push_all(dst: &mut Vec<u8>, src: &[u8])
    ensures
        final(dst)@ == old(dst)@ + src@,
{
    let mut k: usize = 0;
    while k < src.len()
        invariant
            k <= src@.len(),
            dst@ == old(dst)@ + src@.subrange(0, k as int),
        decreases src@.len() - k,
    {
        dst.push(src[k]);
        k = k + 1;
        assert(dst@ =~= old(dst)@ + src@.subrange(0, k as int));
    }
    assert(src@.subrange(0, k as int) =~= src@);
}

/// Moving a 32-bit coordinate by a 64-bit offset in wrapping arithmetic keeps
/// the sum modulo 2^32.
proof fn lemma_shift_mod(p: u32, o: i64, r: u32)
    requires
        r == ((p as u64).wrapping_add(o as u64)) as u32,
    ensures
        r as int == (p + o) % 0x1_0000_0000,
{
    assert(r == ((p as u64) + (o as u64)) as u32) by (bit_vector)
        requires r == ((p as u64).wrapping_add(o as u64)) as u32;
    assert(((p as u64) + (o as u64)) as u32 == (p as u32 + o as u32) as u32) by (bit_vector);
    assert((o as u32) as int == o % 0x1_0000_0000) by (bit_vector);
    assert(((p as u32 + o as u32) as u32) as int == (p + (o as u32)) % 0x1_0000_0000) by (bit_vector);
}

fn flush_cell(cell: &[u8], offset: (i64, i64)) -> (r: Result<Vec<u8>, XlsxError>)
    ensures
        match (r, spec_flush_cell(cell@, offset)) {
            (Ok(v), Ok(w)) => v@ == w,
            (Err(x), Err(y)) => x == y,
            _ => false,
        },
{
    match get_row_column(cell) {
        Ok(pos) => {
            let (p0, p1) = pos;
            let (o0, o1) = offset;
            let row = ((p0 as u64).wrapping_add(o0 as u64)) as u32;
            let col = ((p1 as u64).wrapping_add(o1 as u64)) as u32;
            proof {
                lemma_shift_mod(p0, o0, row);
                lemma_shift_mod(p1, o1, col);
            }
            coordinate_to_name(row, col)
        },
        Err(_) => Ok(vstd::slice::slice_to_vec(cell)),
    }
}

/// The rewriter's executable state.
struct Renamer {
    res: Vec<u8>,
    cell: Vec<u8>,
    is_cell_row: bool,
    in_quote: bool,
}

impl Renamer {
    spec fn state(&self) -> RenameState {
        RenameState { res: self.res@, cell: self.cell@, is_cell_row: self.is_cell_row, in_quote: self.in_quote }
    }

    fn step(&mut self, c: u8, offset: (i64, i64)) -> (r: Result<(), XlsxError>)
        ensures
            match rename_step(old(self).state(), c, offset) {
                Ok(st) => r is Ok && final(self).state() == st,
                Err(e) => r == Err::<(), XlsxError>(e),
            },
    {
        reveal(rename_step);
        if c == 34u8 {
            self.in_quote = !self.in_quote;
        }
        if self.in_quote {
            self.res.push(c);
            Ok(())
        } else if (65u8 <= c && c <= 90u8) || (97u8 <= c && c <= 122u8) {
            if self.is_cell_row {
                push_all(&mut self.res, self.cell.as_slice());
                let mut fresh = Vec::new();
                fresh.push(c);
                self.cell = fresh;
                self.is_cell_row = false;
                assert(self.cell@ =~= seq![c]);
            } else {
                self.cell.push(c);
            }
            Ok(())
        } else if 48u8 <= c && c <= 57u8 {
            self.is_cell_row = true;
            self.cell.push(c);
            Ok(())
        } else {
            match flush_cell(self.cell.as_slice(), offset) {
                Err(e) => Err(e),
                Ok(name) => {
                    push_all(&mut self.res, name.as_slice());
                    self.res.push(c);
                    self.cell = Vec::new();
                    self.is_cell_row = false;
                    assert(self.res@ =~= old(self).res@ + name@ + seq![c]);
                    Ok(())
                },
            }
        }
    }
}

/// Rewrites the cell references in a shared formula for a cell `offset`
/// (rows, columns) away from the formula's anchor cell. References inside
/// string literals are kept; a run of letters then digits that parses as a
/// cell reference is moved.
pub fn replace_cell_names(s: &str, offset: (i64, i64)) -> (r: Result<String, XlsxError>)
    ensures
        match (r, spec_replace_cell_names(s.spec_bytes(), offset)) {
            (Ok(v), Ok(w)) => v@ == w,
            (Err(x), Err(y)) => x == y,
            _ => false,
        },
{
    let bytes = s.as_bytes();
    let mut rn = Renamer { res: Vec::new(), cell: Vec::new(), is_cell_row: false, in_quote: false };
    let mut i: usize = 0;
    while i < bytes.len()
        invariant
            i <= bytes@.len(),
            bytes@ == s.spec_bytes(),
            rename_upto(bytes@, i as int, offset) == Ok::<RenameState, XlsxError>(rn.state()),
        decreases bytes@.len() - i,
    {
        let ghost before = rn.state();
        match rn.step(bytes[i], offset) {
            Err(e) => {
                proof {
                    assert(rename_upto(bytes@, i + 1, offset) == rename_step(before, bytes@[i as int], offset));
                    lemma_rename_error_persists(bytes@, i + 1, bytes@.len() as int, offset);
                }
                return Err(e);
            },
            Ok(()) => {},
        }
        i = i + 1;
    }
    assert(bytes@.len() == i);
    if rn.cell.len() > 0 {
        match flush_cell(rn.cell.as_slice(), offset) {
            Err(e) => {
                return Err(e);
            },
            Ok(name) => {
                push_all(&mut rn.res, name.as_slice());
            },
        }
    } else {
        assert(rn.res@ + Seq::<u8>::empty() =~= rn.res@);
    }
    match utf8_str(rn.res.as_slice()) {
        Some(text) => Ok(text.to_owned()),
        None => Err(XlsxError::Unexpected(Unexpected::CellNameEncoding)),
    }
}

} // verus!
