//! The report generator: sweeps starting positions and attempt budgets
//! through the engine and assembles the matrix of results as decimal
//! strings, ready to be written out as rows of comma-separated fields.

use vstd::prelude::*;

use crate::decimal::{dec_rep, fixed_rep, fixed_to_string, u64_to_string};
use crate::engine::{expectation, expected_value, probability, success_within};
use crate::odds::Rarity;

verus! {

/// The header row: three blank leading cells, then the attempt-budget
/// column labels 1 through `max_boxes`.
pub open spec fn header_row_ok(row: Seq<Seq<char>>, max_boxes: int) -> bool {
    &&& row.len() == 3 + max_boxes
    &&& forall|j: int| 0 <= j < 3 ==> (#[trigger] row[j]).len() == 0
    &&& forall|b: int| 1 <= b <= max_boxes ==> #[trigger] row[2 + b] == dec_rep(b as nat)
}

/// The data row for starting position `t`: the position, its expected
/// value, a blank cell, then the success probability for each attempt
/// budget 1 through `max_boxes`.
pub open spec fn data_row_ok(r: Rarity, row: Seq<Seq<char>>, t: int, max_boxes: int) -> bool {
    &&& row.len() == 3 + max_boxes
    &&& row[0] == dec_rep(t as nat)
    &&& row[1] == fixed_rep(expectation(r, t) as nat)
    &&& row[2].len() == 0
    &&& forall|b: int|
        1 <= b <= max_boxes ==> #[trigger] row[2 + b] == fixed_rep(
            success_within(r, t, b as nat) as nat,
        )
}

/// The full report for one rarity tier: a header row, then one data row
/// per starting position from 1 through `max_treasures`, each cell holding
/// the natural decimal string of its value.
pub fn sweep(r: &Rarity, max_treasures: usize, max_boxes: usize) -> (rows: Vec<Vec<String>>)
    requires
        max_treasures < usize::MAX,
        max_boxes <= usize::MAX - 3,
    ensures
        rows@.len() == 1 + max_treasures,
        header_row_ok(rows@[0].deep_view(), max_boxes as int),
        forall|t: int|
            1 <= t <= max_treasures ==> data_row_ok(
                *r,
                (#[trigger] rows@[t]).deep_view(),
                t,
                max_boxes as int,
            ),
{
    let mut rows: Vec<Vec<String>> = Vec::new();

    let mut header: Vec<String> = Vec::new();
    header.push(String::new());
    header.push(String::new());
    header.push(String::new());
    let mut b: usize = 1;
    while b <= max_boxes
        invariant
            1 <= b <= max_boxes + 1,
            max_boxes <= usize::MAX - 3,
            header@.len() == 2 + b,
            forall|j: int| 0 <= j < 3 ==> (#[trigger] header@[j])@.len() == 0,
            forall|c: int| 1 <= c < b ==> (#[trigger] header@[2 + c])@ == dec_rep(c as nat),
        decreases max_boxes + 1 - b,
    {
        header.push(u64_to_string(b as u64));
        b += 1;
    }
    proof {
        assert(header_row_ok(header.deep_view(), max_boxes as int));
    }
    rows.push(header);

    let mut t: usize = 1;
    while t <= max_treasures
        invariant
            1 <= t <= max_treasures + 1,
            max_treasures < usize::MAX,
            max_boxes <= usize::MAX - 3,
            rows@.len() == t,
            header_row_ok(rows@[0].deep_view(), max_boxes as int),
            forall|u: int|
                1 <= u < t ==> data_row_ok(
                    *r,
                    (#[trigger] rows@[u]).deep_view(),
                    u,
                    max_boxes as int,
                ),
        decreases max_treasures + 1 - t,
    {
        let mut row: Vec<String> = Vec::new();
        row.push(u64_to_string(t as u64));
        let e = expected_value(r, t);
        row.push(fixed_to_string(e));
        row.push(String::new());
        let mut b: usize = 1;
        while b <= max_boxes
            invariant
                1 <= t <= max_treasures,
                1 <= b <= max_boxes + 1,
                max_boxes <= usize::MAX - 3,
                e as int == expectation(*r, t as int),
                row@.len() == 2 + b,
                row@[0]@ == dec_rep(t as nat),
                row@[1]@ == fixed_rep(expectation(*r, t as int) as nat),
                row@[2]@.len() == 0,
                forall|c: int|
                    1 <= c < b ==> (#[trigger] row@[2 + c])@ == fixed_rep(
                        success_within(*r, t as int, c as nat) as nat,
                    ),
            decreases max_boxes + 1 - b,
        {
            let p = probability(r, t, b);
            row.push(fixed_to_string(p));
            b += 1;
        }
        proof {
            assert(data_row_ok(*r, row.deep_view(), t as int, max_boxes as int));
        }
        rows.push(row);
        t += 1;
    }
    rows
}

} // verus!
