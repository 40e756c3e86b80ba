//! Cell names read back as the cells they name, and moving a reference in a
//! formula gives the name of the moved cell.

use vstd::prelude::*;
use crate::cell_ref::{
    back_digits, back_letters, column_letters, letter_value, decimal_digits, is_letter, letters_value, spec_coordinate_to_name,
    spec_flush_cell, spec_get_row_column, MAX_COLUMNS,
};
use crate::error::XlsxError;
use crate::numbers::{all_digits, decimal_value, is_digit};

verus! {

/// The A1-style name of the cell at zero-based (row, column): its column
/// letters, then its one-based row number.
pub open spec fn cell_name(row: nat, col: nat) -> Seq<u8> {
    column_letters(col + 1) + decimal_digits(row + 1)
}

proof fn lemma_decimal_digits(n: nat)
    ensures
        decimal_digits(n).len() >= 1,
        all_digits(decimal_digits(n)),
        decimal_value(decimal_digits(n)) == n,
    decreases n,
{
    if n >= 10 {
        lemma_decimal_digits(n / 10);
        let s = decimal_digits(n);
        let p = decimal_digits(n / 10);
        assert(s == p + seq![(n % 10 + 48) as u8]);
        assert(s.drop_last() =~= p);
        assert forall|i: int| 0 <= i < s.len() implies is_digit(#[trigger] s[i]) by {
            if i < p.len() {
                assert(s[i] == p[i]);
            }
        }
        assert((n / 10) * 10 + n % 10 == n);
        assert(s.last() == (n % 10 + 48) as u8);
        assert(s.last() - 48 == n % 10);
        assert(decimal_value(s) == decimal_value(p) * 10 + (s.last() - 48) as nat);
    } else {
        let s = decimal_digits(n);
        assert(s.drop_last() =~= Seq::<u8>::empty());
        assert(s.last() - 48 == n);
        assert(decimal_value(s) == decimal_value(s.drop_last()) * 10 + (s.last() - 48) as nat);
    }
}

proof fn lemma_column_letters(n: nat)
    requires
        n >= 1,
    ensures
        column_letters(n).len() >= 1,
        forall|i: int| 0 <= i < column_letters(n).len() ==> 65 <= #[trigger] column_letters(n)[i] <= 90,
        letters_value(column_letters(n)) == n,
    decreases n,
{
    let m = ((n - 1) as nat) / 26;
    let s = column_letters(n);
    let p = column_letters(m);
    assert(s == p + seq![(((n - 1) as nat) % 26 + 65) as u8]);
    assert(s.drop_last() =~= p);
    if m >= 1 {
        lemma_column_letters(m);
        assert forall|i: int| 0 <= i < s.len() implies 65 <= #[trigger] s[i] <= 90 by {
            if i < p.len() {
                assert(s[i] == p[i]);
            }
        }
    } else {
        assert(p =~= Seq::<u8>::empty());
    }
    assert(m * 26 + ((n - 1) as nat) % 26 == n - 1);
    assert(s.last() == (((n - 1) as nat) % 26 + 65) as u8);
    assert(letter_value(s.last()) == ((n - 1) as nat) % 26 + 1);
    assert(letters_value(s) == letters_value(p) * 26 + letter_value(s.last()));
}

proof fn lemma_back_digits_of_name(l: Seq<u8>, d: Seq<u8>, j: int)
    requires
        l.len() >= 1,
        !is_digit(l.last()),
        all_digits(d),
        l.len() <= j <= l.len() + d.len(),
    ensures
        back_digits(l + d, j) == l.len(),
    decreases j,
{
    let s = l + d;
    if j > l.len() {
        assert(s[j - 1] == d[j - 1 - l.len()]);
        lemma_back_digits_of_name(l, d, j - 1);
    } else {
        assert(s[j - 1] == l.last());
    }
}

proof fn lemma_back_letters_of_name(l: Seq<u8>, d: Seq<u8>, j: int)
    requires
        forall|i: int| 0 <= i < l.len() ==> is_letter(#[trigger] l[i]),
        0 <= j <= l.len(),
    ensures
        back_letters(l + d, j) == 0,
    decreases j,
{
    if j > 0 {
        assert((l + d)[j - 1] == l[j - 1]);
        lemma_back_letters_of_name(l, d, j - 1);
    }
}

/// A cell's name reads back as that cell: `get_row_column` of the name of
/// (row, column) gives (row, column), for every row below `u32::MAX` and
/// every column of a worksheet.
pub proof fn cell_names_read_back(row: u32, col: u32)
    requires
        row < u32::MAX,
        col < MAX_COLUMNS,
    ensures
        spec_get_row_column(cell_name(row as nat, col as nat)) == Ok::<(u32, u32), XlsxError>((row, col)),
{
    let l = column_letters((col + 1) as nat);
    let d = decimal_digits((row + 1) as nat);
    let s = l + d;
    lemma_column_letters((col + 1) as nat);
    lemma_decimal_digits((row + 1) as nat);
    assert(is_letter(l.last()));
    lemma_back_digits_of_name(l, d, s.len() as int);
    assert forall|i: int| 0 <= i < l.len() implies is_letter(#[trigger] l[i]) by {
        assert(65 <= l[i] <= 90);
    }
    lemma_back_letters_of_name(l, d, l.len() as int);
    assert(s.subrange(l.len() as int, s.len() as int) =~= d);
    assert(s.subrange(0, l.len() as int) =~= l);
    assert(s[l.len() - 1] == l.last());
}

/// Moving a reference moves the cell it names: the reference to
/// (row, column), moved by `offset` rows and columns, becomes the name of
/// (row + offset.0, column + offset.1), whenever that cell lies on a
/// worksheet.
pub proof fn moved_reference_names_the_moved_cell(row: u32, col: u32, offset: (i64, i64))
    requires
        row < u32::MAX,
        col < MAX_COLUMNS,
        0 <= row + offset.0 < u32::MAX,
        0 <= col + offset.1 < MAX_COLUMNS,
    ensures
        spec_flush_cell(cell_name(row as nat, col as nat), offset)
            == Ok::<Seq<u8>, XlsxError>(cell_name((row + offset.0) as nat, (col + offset.1) as nat)),
{
    cell_names_read_back(row, col);
    let r2 = row + offset.0;
    let c2 = col + offset.1;
    assert((r2 % 0x1_0000_0000) == r2);
    assert((c2 % 0x1_0000_0000) == c2);
    assert(spec_coordinate_to_name(r2 as u32, c2 as u32) == Ok::<Seq<u8>, XlsxError>(
        column_letters((c2 + 1) as nat) + decimal_digits(((r2 + 1) % 0x1_0000_0000) as nat),
    ));
    assert(((r2 + 1) % 0x1_0000_0000) == r2 + 1);
}

} // verus!
