//! The sample grid: which arrows there are.

use vstd::prelude::*;

verus! {

/// The column and row of every arrow of a grid of `columns` by `rows`
/// arrows, column after column and, within a column, row after row.
pub open spec fn grid(columns: nat, rows: nat) -> Seq<(u32, u32)> {
    Seq::new(columns * rows, |k: int| ((k / rows as int) as u32, (k % rows as int) as u32))
}

/// The column and row of every arrow of the sample grid.
pub fn arrow_numbers(columns: u32, rows: u32) -> (numbers: Vec<(u32, u32)>)
    ensures
        numbers@ == grid(columns as nat, rows as nat),
        numbers@.len() == columns * rows,
        forall|i: int, j: int|
            0 <= i < columns && 0 <= j < rows ==> #[trigger] numbers@[i * rows + j] == (
                i as u32,
                j as u32,
            ),
{
    let mut numbers: Vec<(u32, u32)> = Vec::new();
    let mut i: u32 = 0;
    while i < columns
        invariant
            i <= columns,
            numbers@.len() == i * rows,
            forall|a: int, b: int|
                0 <= a < i && 0 <= b < rows ==> #[trigger] numbers@[a * rows + b] == (
                    a as u32,
                    b as u32,
                ),
        decreases columns - i,
    {
        let mut j: u32 = 0;
        while j < rows
            invariant
                i < columns,
                j <= rows,
                numbers@.len() == i * rows + j,
                forall|a: int, b: int|
                    0 <= a < i && 0 <= b < rows ==> #[trigger] numbers@[a * rows + b] == (
                        a as u32,
                        b as u32,
                    ),
                forall|b: int| 0 <= b < j ==> #[trigger] numbers@[i * rows + b] == (i, b as u32),
            decreases rows - j,
        {
            let ghost before = numbers@;
            numbers.push((i, j));
            proof {
                assert forall|a: int, b: int|
                    0 <= a < i && 0 <= b < rows implies #[trigger] numbers@[a * rows + b] == (
                    a as u32,
                    b as u32,
                ) by {
                    lemma_cell_order(a, b, i as int, rows as int);
                    assert(numbers@[a * rows + b] == before[a * rows + b]);
                }
                assert forall|b: int| 0 <= b < j + 1 implies #[trigger] numbers@[i * rows + b] == (
                    i,
                    b as u32,
                ) by {
                    if b < j {
                        assert(numbers@[i * rows + b] == before[i * rows + b]);
                    }
                }
            }
            j += 1;
        }
        proof {
            assert((i + 1) * rows == i * rows + rows) by (nonlinear_arith);
            assert forall|a: int, b: int|
                0 <= a < i + 1 && 0 <= b < rows implies #[trigger] numbers@[a * rows + b] == (
                a as u32,
                b as u32,
            ) by {
                if a == i {
                    assert(numbers@[i * rows + b] == (i, b as u32));
                }
            }
        }
        i += 1;
    }
    proof {
        let wanted = grid(columns as nat, rows as nat);
        assert(numbers@.len() == wanted.len());
        assert forall|k: int| 0 <= k < numbers@.len() implies numbers@[k] == wanted[k] by {
            lemma_cell_of(k, columns as int, rows as int);
            let a = k / rows as int;
            let b = k % rows as int;
            assert(numbers@[a * rows + b] == (a as u32, b as u32));
        }
        assert(numbers@ =~= wanted);
    }
    numbers
}

/// A cell of an earlier column comes before every cell of a later one.
proof fn lemma_cell_order(a: int, b: int, i: int, rows: int)
    requires
        0 <= a < i,
        0 <= b < rows,
    ensures
        0 <= a * rows + b < i * rows,
{
    assert(a * rows + b < i * rows) by (nonlinear_arith)
        requires
            0 <= a < i,
            0 <= b < rows,
    ;
    assert(0 <= a * rows) by (nonlinear_arith)
        requires
            0 <= a,
            0 <= rows,
    ;
}

/// The place of a cell gives back its column and row.
proof fn lemma_cell_of(k: int, columns: int, rows: int)
    requires
        0 <= k < columns * rows,
        0 <= columns,
        0 <= rows,
    ensures
        rows > 0,
        0 <= k / rows < columns,
        0 <= k % rows < rows,
        (k / rows) * rows + k % rows == k,
{
    assert(rows > 0) by (nonlinear_arith)
        requires
            0 <= k < columns * rows,
            0 <= columns,
            0 <= rows,
    ;
    vstd::arithmetic::div_mod::lemma_fundamental_div_mod(k, rows);
    assert(k / rows < columns) by (nonlinear_arith)
        requires
            0 <= k < columns * rows,
            rows > 0,
            k == rows * (k / rows) + k % rows,
            0 <= k % rows < rows,
    ;
    assert(0 <= k / rows) by (nonlinear_arith)
        requires
            0 <= k,
            rows > 0,
            k == rows * (k / rows) + k % rows,
            0 <= k % rows < rows,
    ;
    assert((k / rows) * rows == rows * (k / rows)) by (nonlinear_arith);
}

} // verus!
