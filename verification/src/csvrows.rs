//! The CSV grammar this library accepts, as a byte-level state machine, and
//! its streaming parser.
//!
//! Cells are separated by the configured delimiter and rows by `\n`, `\r` or
//! `\r\n`. A `"` at the start of a cell opens a quoted section in which the
//! delimiter and line breaks are literal and `""` is an escaped quote; a `"`
//! anywhere else is an ordinary byte. Cells are whitespace-trimmed. A wholly
//! empty line yields no row. Every input parses: there are no malformed rows.

use vstd::prelude::*;
use crate::bytes::{trim_ws, trim_ws_vec};

verus! {

/// Parser mode: outside quotes, inside quotes, just after a quote inside a
/// quoted cell, or just after a bare `\r` (a following `\n` is consumed).
#[derive(PartialEq, Eq, Structural, Clone, Copy, Debug)]
pub enum CsvMode {
    Normal,
    InQuotes,
    QuotePending,
    CrPending,
}

/// The full parser state: finished rows, the open row, the open cell, whether
/// the open row has seen any content (delimiter, quote or byte), and the mode.
pub struct CsvState {
    pub rows: Seq<Seq<Seq<u8>>>,
    pub row: Seq<Seq<u8>>,
    pub cell: Seq<u8>,
    pub touched: bool,
    pub mode: CsvMode,
}

pub open spec fn st_of(
    rows: Seq<Seq<Seq<u8>>>,
    row: Seq<Seq<u8>>,
    cell: Seq<u8>,
    touched: bool,
    mode: CsvMode,
) -> CsvState {
    CsvState { rows, row, cell, touched, mode }
}

pub open spec fn csv_init() -> CsvState {
    st_of(Seq::empty(), Seq::empty(), Seq::empty(), false, CsvMode::Normal)
}

/// An open row is blank when nothing at all was seen on the line.
pub open spec fn row_blank(st: CsvState) -> bool {
    st.row.len() == 0 && st.cell.len() == 0 && !st.touched
}

/// The finished rows once the open row ends: a blank line yields no row,
/// anything else appends the row closed by its trimmed open cell.
pub open spec fn end_row(st: CsvState) -> Seq<Seq<Seq<u8>>> {
    if row_blank(st) {
        st.rows
    } else {
        st.rows.push(st.row.push(trim_ws(st.cell)))
    }
}

/// One byte outside quotes: an opening quote (only at the start of a cell),
/// the delimiter, a line break, or an ordinary cell byte.
pub open spec fn csv_step_normal(st: CsvState, b: u8, d: u8) -> CsvState {
    if b == 0x22 && st.cell.len() == 0 {
        st_of(st.rows, st.row, st.cell, true, CsvMode::InQuotes)
    } else if b == d {
        st_of(st.rows, st.row.push(trim_ws(st.cell)), Seq::empty(), st.touched, CsvMode::Normal)
    } else if b == 0x0a {
        st_of(end_row(st), Seq::empty(), Seq::empty(), false, CsvMode::Normal)
    } else if b == 0x0d {
        st_of(end_row(st), Seq::empty(), Seq::empty(), false, CsvMode::CrPending)
    } else {
        st_of(st.rows, st.row, st.cell.push(b), st.touched, CsvMode::Normal)
    }
}

/// One byte in any mode.
pub open spec fn csv_step(st: CsvState, b: u8, d: u8) -> CsvState {
    match st.mode {
        CsvMode::Normal => csv_step_normal(st, b, d),
        CsvMode::InQuotes => if b == 0x22 {
            st_of(st.rows, st.row, st.cell, st.touched, CsvMode::QuotePending)
        } else {
            st_of(st.rows, st.row, st.cell.push(b), st.touched, CsvMode::InQuotes)
        },
        CsvMode::QuotePending => if b == 0x22 {
            st_of(st.rows, st.row, st.cell.push(0x22), st.touched, CsvMode::InQuotes)
        } else {
            csv_step_normal(st, b, d)
        },
        CsvMode::CrPending => if b == 0x0a {
            st_of(st.rows, st.row, st.cell, st.touched, CsvMode::Normal)
        } else {
            csv_step_normal(st, b, d)
        },
    }
}

/// The state after the whole input.
pub open spec fn csv_fold(s: Seq<u8>, d: u8) -> CsvState
    decreases s.len(),
{
    if s.len() == 0 {
        csv_init()
    } else {
        csv_step(csv_fold(s.drop_last(), d), s.last(), d)
    }
}

/// The rows of a byte sequence under delimiter `d`.
pub open spec fn csv_rows(s: Seq<u8>, d: u8) -> Seq<Seq<Seq<u8>>> {
    end_row(csv_fold(s, d))
}

/// Ends the open row: pushes the trimmed open cell and moves the row into
/// `rows`, unless the line was blank; the open row and cell come back empty.
fn end_row_exec(rows: &mut Vec<Vec<Vec<u8>>>, row: &mut Vec<Vec<u8>>, cell: &mut Vec<u8>,
    touched: bool)
    ensures
        final(rows).deep_view() == end_row(
            st_of(
                old(rows).deep_view(),
                old(row).deep_view(),
                old(cell)@,
                touched,
                CsvMode::Normal,
            ),
        ),
        final(row)@.len() == 0,
        final(cell)@.len() == 0,
{
    let ghost st0 = st_of(old(rows).deep_view(), old(row).deep_view(), old(cell)@, touched,
        CsvMode::Normal);
    if row.len() == 0 && cell.len() == 0 && !touched {
        cell.clear();
        proof {
            assert(row.deep_view() =~~= Seq::<Seq<u8>>::empty());
        }
        return;
    }
    let t = trim_ws_vec(cell.as_slice());
    let ghost row_before = row.deep_view();
    row.push(t);
    proof {
        assert(row.deep_view() =~~= row_before.push(trim_ws(st0.cell)));
    }
    let mut finished: Vec<Vec<u8>> = Vec::new();
    core::mem::swap(row, &mut finished);
    let ghost rows_before = rows.deep_view();
    rows.push(finished);
    cell.clear();
    proof {
        assert(rows.deep_view() =~~= rows_before.push(row_before.push(trim_ws(st0.cell))));
        assert(row.deep_view() =~~= Seq::<Seq<u8>>::empty());
    }
}

/// One byte outside quotes, executable form.
fn step_normal_exec(rows: &mut Vec<Vec<Vec<u8>>>, row: &mut Vec<Vec<u8>>, cell: &mut Vec<u8>,
    touched: &mut bool, mode: &mut CsvMode, b: u8, d: u8)
    ensures
        st_of(
            final(rows).deep_view(),
            final(row).deep_view(),
            final(cell)@,
            *final(touched),
            *final(mode),
        ) == csv_step_normal(
            st_of(
                old(rows).deep_view(),
                old(row).deep_view(),
                old(cell)@,
                *old(touched),
                CsvMode::Normal,
            ),
            b,
            d,
        ),
{
    let ghost st0 = st_of(old(rows).deep_view(), old(row).deep_view(), old(cell)@, *old(touched),
        CsvMode::Normal);
    if b == 0x22 && cell.len() == 0 {
        *touched = true;
        *mode = CsvMode::InQuotes;
        proof {
            assert(cell@ =~= st0.cell);
        }
    } else if b == d {
        let t = trim_ws_vec(cell.as_slice());
        let ghost row_before = row.deep_view();
        row.push(t);
        cell.clear();
        *mode = CsvMode::Normal;
        proof {
            assert(row.deep_view() =~~= row_before.push(trim_ws(st0.cell)));
        }
    } else if b == 0x0a {
        end_row_exec(rows, row, cell, *touched);
        *touched = false;
        *mode = CsvMode::Normal;
        proof {
            assert(row.deep_view() =~~= Seq::<Seq<u8>>::empty());
            assert(cell@ =~= Seq::<u8>::empty());
        }
    } else if b == 0x0d {
        end_row_exec(rows, row, cell, *touched);
        *touched = false;
        *mode = CsvMode::CrPending;
        proof {
            assert(row.deep_view() =~~= Seq::<Seq<u8>>::empty());
            assert(cell@ =~= Seq::<u8>::empty());
        }
    } else {
        cell.push(b);
        *mode = CsvMode::Normal;
    }
}

/// Parses a whole file's bytes into trimmed cells grouped into rows.
#[verifier::loop_isolation(false)]
pub fn parse_csv(content: &[u8], d: u8) -> (rows: Vec<Vec<Vec<u8>>>)
    ensures
        rows.deep_view() == csv_rows(content@, d),
{
    let n = content.len();
    let mut rows: Vec<Vec<Vec<u8>>> = Vec::new();
    let mut row: Vec<Vec<u8>> = Vec::new();
    let mut cell: Vec<u8> = Vec::new();
    let mut touched = false;
    let mut mode = CsvMode::Normal;
    let mut i: usize = 0;
    proof {
        assert(rows.deep_view() =~~= Seq::<Seq<Seq<u8>>>::empty());
        assert(row.deep_view() =~~= Seq::<Seq<u8>>::empty());
        assert(content@.subrange(0, 0) =~= Seq::<u8>::empty());
    }
    while i < n
        invariant
            0 <= i <= n,
            st_of(rows.deep_view(), row.deep_view(), cell@, touched, mode) == csv_fold(
                content@.subrange(0, i as int),
                d,
            ),
        decreases n - i,
    {
        let b = content[i];
        let ghost pre = csv_fold(content@.subrange(0, i as int), d);
        i = i + 1;
        proof {
            assert(content@.subrange(0, i as int).drop_last() =~= content@.subrange(0, i - 1));
            assert(content@.subrange(0, i as int).last() == content@[i - 1]);
            assert(csv_fold(content@.subrange(0, i as int), d) == csv_step(pre, b, d));
        }
        match mode {
            CsvMode::Normal => {
                step_normal_exec(&mut rows, &mut row, &mut cell, &mut touched, &mut mode, b, d);
            },
            CsvMode::InQuotes => {
                if b == 0x22 {
                    mode = CsvMode::QuotePending;
                } else {
                    cell.push(b);
                }
            },
            CsvMode::QuotePending => {
                if b == 0x22 {
                    cell.push(0x22);
                    mode = CsvMode::InQuotes;
                } else {
                    step_normal_exec(
                        &mut rows,
                        &mut row,
                        &mut cell,
                        &mut touched,
                        &mut mode,
                        b,
                        d,
                    );
                }
            },
            CsvMode::CrPending => {
                if b == 0x0a {
                    mode = CsvMode::Normal;
                } else {
                    step_normal_exec(
                        &mut rows,
                        &mut row,
                        &mut cell,
                        &mut touched,
                        &mut mode,
                        b,
                        d,
                    );
                }
            },
        }
    }
    proof {
        assert(content@.subrange(0, n as int) =~= content@);
    }
    let t = touched;
    end_row_exec(&mut rows, &mut row, &mut cell, t);
    rows
}

} // verus!
