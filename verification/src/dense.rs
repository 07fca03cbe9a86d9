//! Bounded dense-tensor execution: how a storage-backed row-major matrix is
//! walked in row tiles so that at most one tile budget of weight bytes is
//! read and handed to a backend at once, and how tile results are placed.
//!
//! The caller runs the loop: it asks `RowTiles::next_tile` for the next
//! window, reads those rows from storage, runs the backend on them, and
//! places the result with the functions below.
use vstd::prelude::*;
use crate::manifest::TensorSegment;
use crate::kimi::{decode_i32_le, le_word};
use crate::text::{decimal, push_decimal, push_str, seq_ends_with, str_ends_with, str_eq, string_of};
use vstd::string::StrSliceExecFns;

verus! {

#[derive(Debug, Clone, Copy, PartialEq, Eq, Structural)]
pub struct DenseTileMetrics {
    pub tiles: u64,
    pub storage_bytes: u64,
    pub peak_tile_bytes: u64,
}

impl Default for DenseTileMetrics {
    fn default() -> (m: Self)
        ensures
            m.tiles == 0 && m.storage_bytes == 0 && m.peak_tile_bytes == 0,
    {
        DenseTileMetrics { tiles: 0, storage_bytes: 0, peak_tile_bytes: 0 }
    }
}

#[derive(Debug)]
pub enum DenseExecutionError {
    Storage(String),
    Contract(String),
    Backend(String),
}

/// One tile: `rows` rows starting at `relative_row` within the selected
/// range, which is row `absolute_row` of the matrix.
#[derive(Debug, Clone, Copy, PartialEq, Eq, Structural)]
pub struct TileWindow {
    pub relative_row: usize,
    pub absolute_row: usize,
    pub rows: usize,
}

/// A walk over `selected_rows` rows of a matrix, starting at matrix row
/// `first_row`, `rows_per_tile` rows of `row_bytes` bytes at a time.
pub struct RowTiles {
    first_row: usize,
    selected_rows: usize,
    rows_per_tile: usize,
    row_bytes: u64,
    tile_bytes: u64,
    /// Bytes read before the first tile (counted in the metrics).
    base: u64,
    next: usize,
    metrics: DenseTileMetrics,
}

impl RowTiles {
    pub closed spec fn first_row_spec(&self) -> usize {
        self.first_row
    }

    pub closed spec fn selected_rows_spec(&self) -> usize {
        self.selected_rows
    }

    pub closed spec fn rows_per_tile_spec(&self) -> usize {
        self.rows_per_tile
    }

    pub closed spec fn row_bytes_spec(&self) -> u64 {
        self.row_bytes
    }

    pub closed spec fn tile_budget(&self) -> u64 {
        self.tile_bytes
    }

    pub closed spec fn base_spec(&self) -> u64 {
        self.base
    }

    /// Relative row of the next tile; the walk is done when it reaches the
    /// selected row count.
    pub closed spec fn next_spec(&self) -> usize {
        self.next
    }

    pub closed spec fn metrics_spec(&self) -> DenseTileMetrics {
        self.metrics
    }

    pub closed spec fn wf(&self) -> bool {
        &&& self.rows_per_tile >= 1
        &&& self.rows_per_tile * self.row_bytes <= self.tile_bytes
        &&& self.first_row + self.selected_rows <= usize::MAX
        &&& self.base + (self.first_row + self.selected_rows) * self.row_bytes <= u64::MAX
        &&& self.next <= self.selected_rows
        &&& self.metrics.storage_bytes == self.base + self.next * self.row_bytes
        &&& self.metrics.tiles <= self.next
        &&& self.metrics.peak_tile_bytes <= self.rows_per_tile * self.row_bytes
    }

    /// Starts a walk; `rows_per_tile` rows must fit the tile budget.
    pub fn new(first_row: usize, selected_rows: usize, rows_per_tile: usize, row_bytes: u64, tile_bytes: u64, base: u64) -> (t: Self)
        requires
            rows_per_tile >= 1,
            rows_per_tile * row_bytes <= tile_bytes,
            first_row + selected_rows <= usize::MAX,
            base + (first_row + selected_rows) * row_bytes <= u64::MAX,
        ensures
            t.wf(),
            t.first_row_spec() == first_row,
            t.selected_rows_spec() == selected_rows,
            t.rows_per_tile_spec() == rows_per_tile,
            t.row_bytes_spec() == row_bytes,
            t.tile_budget() == tile_bytes,
            t.base_spec() == base,
            t.next_spec() == 0,
            t.metrics_spec() == (DenseTileMetrics { tiles: 0, storage_bytes: base, peak_tile_bytes: 0 }),
    {
        RowTiles {
            first_row,
            selected_rows,
            rows_per_tile,
            row_bytes,
            tile_bytes,
            base,
            next: 0,
            metrics: DenseTileMetrics { tiles: 0, storage_bytes: base, peak_tile_bytes: 0 },
        }
    }

    /// The next tile, if any rows are left, with its storage read counted.
    pub fn next_tile(&mut self) -> (w: Option<TileWindow>)
        requires
            old(self).wf(),
        ensures
            final(self).wf(),
            final(self).first_row_spec() == old(self).first_row_spec(),
            final(self).selected_rows_spec() == old(self).selected_rows_spec(),
            final(self).rows_per_tile_spec() == old(self).rows_per_tile_spec(),
            final(self).row_bytes_spec() == old(self).row_bytes_spec(),
            final(self).tile_budget() == old(self).tile_budget(),
            final(self).base_spec() == old(self).base_spec(),
            old(self).next_spec() >= old(self).selected_rows_spec() ==> w is None && final(self).next_spec()
                == old(self).next_spec() && final(self).metrics_spec() == old(self).metrics_spec(),
            old(self).next_spec() < old(self).selected_rows_spec() ==> (w matches Some(t)
                && t.relative_row == old(self).next_spec()
                && t.absolute_row == old(self).first_row_spec() + old(self).next_spec()
                && t.rows == (if old(self).rows_per_tile_spec() < old(self).selected_rows_spec() - old(self).next_spec() {
                    old(self).rows_per_tile_spec() as int
                } else {
                    old(self).selected_rows_spec() - old(self).next_spec()
                })
                && final(self).next_spec() == old(self).next_spec() + t.rows
                && final(self).metrics_spec().tiles == old(self).metrics_spec().tiles + 1
                && final(self).metrics_spec().storage_bytes == old(self).metrics_spec().storage_bytes + t.rows * old(self).row_bytes_spec()
                && final(self).metrics_spec().peak_tile_bytes == (if old(self).metrics_spec().peak_tile_bytes < t.rows * old(self).row_bytes_spec() {
                    t.rows * old(self).row_bytes_spec()
                } else {
                    old(self).metrics_spec().peak_tile_bytes as int
                })),
            w matches Some(t) ==> t.rows >= 1 && t.rows * old(self).row_bytes_spec() <= old(self).tile_budget(),
    {
        if self.next >= self.selected_rows {
            return None;
        }
        let left = self.selected_rows - self.next;
        let rows = if self.rows_per_tile < left { self.rows_per_tile } else { left };
        let relative_row = self.next;
        proof {
            assert(rows * self.row_bytes <= self.rows_per_tile * self.row_bytes) by (nonlinear_arith)
                requires
                    rows <= self.rows_per_tile,
            ;
            assert(self.base + (self.next + rows) * self.row_bytes <= self.base + (self.first_row + self.selected_rows) * self.row_bytes)
                by (nonlinear_arith)
                requires
                    self.next + rows <= self.first_row + self.selected_rows,
            ;
            assert((self.next + rows) * self.row_bytes == self.next * self.row_bytes + rows * self.row_bytes)
                by (nonlinear_arith);
        }
        let length: u64 = rows as u64 * self.row_bytes;
        self.next = self.next + rows;
        self.metrics.tiles = self.metrics.tiles + 1;
        self.metrics.storage_bytes = self.metrics.storage_bytes + length;
        if self.metrics.peak_tile_bytes < length {
            self.metrics.peak_tile_bytes = length;
        }
        Some(TileWindow { relative_row, absolute_row: self.first_row + relative_row, rows })
    }

    /// Byte offset and length, in a tensor whose rows take `component_row_bytes`
    /// bytes, of the rows of tile `w`.
    pub fn window_bytes(&self, w: TileWindow, component_row_bytes: u64) -> (r: (u64, u64))
        requires
            self.wf(),
            w.relative_row + w.rows <= self.selected_rows_spec(),
            w.absolute_row == self.first_row_spec() + w.relative_row,
            component_row_bytes <= self.row_bytes_spec(),
        ensures
            r.0 == w.absolute_row * component_row_bytes,
            r.1 == w.rows * component_row_bytes,
    {
        proof {
            assert((w.absolute_row + w.rows) * component_row_bytes <= self.base + (self.first_row + self.selected_rows) * self.row_bytes)
                by (nonlinear_arith)
                requires
                    w.absolute_row + w.rows <= self.first_row + self.selected_rows,
                    component_row_bytes <= self.row_bytes,
                    self.base >= 0,
            ;
            assert((w.absolute_row + w.rows) * component_row_bytes == w.absolute_row * component_row_bytes
                + w.rows * component_row_bytes) by (nonlinear_arith);
            assert(w.absolute_row * component_row_bytes >= 0 && w.rows * component_row_bytes >= 0) by (nonlinear_arith);
        }
        (w.absolute_row as u64 * component_row_bytes, w.rows as u64 * component_row_bytes)
    }

    pub fn first_row(&self) -> (r: usize)
        ensures
            r == self.first_row_spec(),
    {
        self.first_row
    }

    pub fn selected_rows(&self) -> (r: usize)
        ensures
            r == self.selected_rows_spec(),
    {
        self.selected_rows
    }

    pub fn rows_per_tile(&self) -> (r: usize)
        ensures
            r == self.rows_per_tile_spec(),
    {
        self.rows_per_tile
    }

    pub fn row_bytes(&self) -> (r: u64)
        ensures
            r == self.row_bytes_spec(),
    {
        self.row_bytes
    }

    /// The counters of the tiles read so far.
    pub fn metrics(&self) -> (m: DenseTileMetrics)
        ensures
            m == self.metrics_spec(),
    {
        self.metrics
    }

    /// A finished walk read every selected row exactly once, and no tile
    /// exceeded the tile budget.
    pub proof fn lemma_finished(&self)
        requires
            self.wf(),
            self.next_spec() == self.selected_rows_spec(),
        ensures
            self.metrics_spec().storage_bytes == self.base_spec() + self.selected_rows_spec() * self.row_bytes_spec(),
            self.metrics_spec().peak_tile_bytes <= self.tile_budget(),
    {
    }
}

/// `seg` is a rank-2 matrix stored as `dtype`.
pub open spec fn rank2(seg: TensorSegment, dtype: Seq<char>) -> bool {
    (seg.dtype matches Some(d) && d@ == dtype) && seg.shape@.len() == 2
}

/// Rows per tile under budget `tile_bytes`: as many whole rows as fit (held
/// to what `usize` counts), and at least one.
pub open spec fn rows_per_tile(tile_bytes: u64, row_bytes: u64) -> usize {
    let q = tile_bytes / row_bytes;
    if q > usize::MAX { usize::MAX } else if q == 0 { 1 } else { q as usize }
}

/// `"{tensor} must be a rank-2 {dtype} matrix"`.
pub open spec fn rank2_message(tensor: Seq<char>, dtype: Seq<char>) -> Seq<char> {
    tensor + " must be a rank-2 "@ + dtype + " matrix"@
}

/// `"tile budget {tile} is smaller than one {row}-byte {what}"`.
pub open spec fn tile_message(tile_bytes: u64, row_bytes: u64, what: Seq<char>) -> Seq<char> {
    "tile budget "@ + decimal(tile_bytes as nat) + " is smaller than one "@ + decimal(row_bytes as nat) + "-byte "@ + what
}

/// A validated tiled pass over a matrix.
pub struct MatrixPlan {
    /// Rows and columns of the whole matrix.
    pub rows: usize,
    pub cols: usize,
    pub tiles: RowTiles,
}

fn contract_error(m: String) -> (e: DenseExecutionError)
    ensures
        e matches DenseExecutionError::Contract(x) && x@ == m@,
{
    DenseExecutionError::Contract(m)
}

fn is_rank2(seg: &TensorSegment, dtype: &str) -> (b: bool)
    ensures
        b == rank2(*seg, dtype@),
{
    let named = match &seg.dtype {
        Some(d) => str_eq(d.as_str(), dtype),
        None => false,
    };
    named && seg.shape.len() == 2
}

fn rank2_error(tensor: &str, dtype: &str) -> (e: DenseExecutionError)
    ensures
        e matches DenseExecutionError::Contract(m) && m@ == rank2_message(tensor@, dtype@),
{
    let mut m = string_of(tensor);
    push_str(&mut m, " must be a rank-2 ");
    push_str(&mut m, dtype);
    push_str(&mut m, " matrix");
    DenseExecutionError::Contract(m)
}

fn tile_error(tile_bytes: u64, row_bytes: u64, what: &str) -> (e: DenseExecutionError)
    ensures
        e matches DenseExecutionError::Contract(m) && m@ == tile_message(tile_bytes, row_bytes, what@),
{
    let mut m = string_of("tile budget ");
    push_decimal(&mut m, tile_bytes);
    push_str(&mut m, " is smaller than one ");
    push_decimal(&mut m, row_bytes);
    push_str(&mut m, "-byte ");
    push_str(&mut m, what);
    DenseExecutionError::Contract(m)
}

fn tile_rows_for(tile_bytes: u64, row_bytes: u64) -> (r: usize)
    requires
        row_bytes > 0,
        tile_bytes >= row_bytes,
    ensures
        r == rows_per_tile(tile_bytes, row_bytes),
        r >= 1,
        r * row_bytes <= tile_bytes,
{
    let q = tile_bytes / row_bytes;
    proof {
        assert(q * row_bytes <= tile_bytes) by (nonlinear_arith)
            requires
                q == tile_bytes / row_bytes,
                row_bytes > 0,
        ;
        assert(q >= 1) by (nonlinear_arith)
            requires
                q == tile_bytes / row_bytes,
                row_bytes > 0,
                tile_bytes >= row_bytes,
        ;
    }
    let r: usize = if q > usize::MAX as u64 { usize::MAX } else { q as usize };
    proof {
        assert(r * row_bytes <= q * row_bytes) by (nonlinear_arith)
            requires
                r <= q,
        ;
    }
    r
}

/// What validating a row range of a BF16 matrix for a matrix-vector product
/// gives: the matrix rows, columns and row bytes, or the refusal.
pub open spec fn bf16_matvec_rows_outcome(
    tensor: Seq<char>,
    seg: TensorSegment,
    first_row: usize,
    selected_rows: usize,
    tile_bytes: u64,
    input_len: usize,
) -> Result<(usize, usize, u64), Seq<char>> {
    if !rank2(seg, "BF16"@) {
        Err(rank2_message(tensor, "BF16"@))
    } else if seg.shape@[0] > usize::MAX {
        Err("row count exceeds usize"@)
    } else if seg.shape@[1] > usize::MAX {
        Err("column count exceeds usize"@)
    } else if first_row + selected_rows > usize::MAX {
        Err("selected matrix row range overflow"@)
    } else if seg.shape@[0] == 0 || seg.shape@[1] == 0 || selected_rows == 0
        || first_row + selected_rows > seg.shape@[0] || input_len != seg.shape@[1] {
        Err("matrix row range and input dimensions are incompatible"@)
    } else if seg.shape@[1] * 2 > u64::MAX {
        Err("row byte size overflow"@)
    } else if seg.shape@[1] * 2 * seg.shape@[0] > u64::MAX {
        Err("matrix byte size overflow"@)
    } else if seg.length != seg.shape@[1] * 2 * seg.shape@[0] {
        Err(tensor + " stores "@ + decimal(seg.length as nat) + " bytes, expected "@
            + decimal((seg.shape@[1] * 2 * seg.shape@[0]) as nat))
    } else if tile_bytes < seg.shape@[1] * 2 {
        Err(tile_message(tile_bytes, (seg.shape@[1] * 2) as u64, "matrix row"@))
    } else {
        Ok((seg.shape@[0] as usize, seg.shape@[1] as usize, (seg.shape@[1] * 2) as u64))
    }
}

/// A plan that walks rows `first_row .. first_row + selected_rows` of a
/// matrix with the given shape, in tiles of `rows_per_tile(tile, row_bytes)`.
pub open spec fn plan_matches(p: MatrixPlan, shape: (usize, usize, u64), first_row: usize, selected_rows: usize, tile_bytes: u64) -> bool {
    &&& p.rows == shape.0
    &&& p.cols == shape.1
    &&& p.tiles.wf()
    &&& p.tiles.first_row_spec() == first_row
    &&& p.tiles.selected_rows_spec() == selected_rows
    &&& p.tiles.row_bytes_spec() == shape.2
    &&& p.tiles.rows_per_tile_spec() == rows_per_tile(tile_bytes, shape.2)
    &&& p.tiles.tile_budget() == tile_bytes
    &&& p.tiles.next_spec() == 0
    &&& p.tiles.metrics_spec() == (DenseTileMetrics { tiles: 0, storage_bytes: p.tiles.base_spec(), peak_tile_bytes: 0 })
}

/// Validates a BF16 matrix-vector product over a row range of `tensor`,
/// whose stored metadata is `seg`, and plans its row tiles.
pub fn plan_bf16_matvec_rows(
    tensor: &str,
    seg: &TensorSegment,
    first_row: usize,
    selected_rows: usize,
    tile_bytes: u64,
    input_len: usize,
) -> (r: Result<MatrixPlan, DenseExecutionError>)
    ensures
        match r {
            Ok(p) => bf16_matvec_rows_outcome(tensor@, *seg, first_row, selected_rows, tile_bytes, input_len) matches Ok(shape)
                && plan_matches(p, shape, first_row, selected_rows, tile_bytes) && p.tiles.base_spec() == 0,
            Err(e) => e matches DenseExecutionError::Contract(m)
                && bf16_matvec_rows_outcome(tensor@, *seg, first_row, selected_rows, tile_bytes, input_len) == Err::<(usize, usize, u64), Seq<char>>(m@),
        },
{
    if !is_rank2(seg, "BF16") {
        return Err(rank2_error(tensor, "BF16"));
    }
    let shape0 = seg.shape[0];
    let shape1 = seg.shape[1];
    if shape0 > usize::MAX as u64 {
        return Err(contract_error(string_of("row count exceeds usize")));
    }
    if shape1 > usize::MAX as u64 {
        return Err(contract_error(string_of("column count exceeds usize")));
    }
    let rows = shape0 as usize;
    let cols = shape1 as usize;
    let row_end = match first_row.checked_add(selected_rows) {
        Some(e) => e,
        None => return Err(contract_error(string_of("selected matrix row range overflow"))),
    };
    if rows == 0 || cols == 0 || selected_rows == 0 || row_end > rows || input_len != cols {
        return Err(contract_error(string_of("matrix row range and input dimensions are incompatible")));
    }
    let row_bytes = match shape1.checked_mul(2) {
        Some(b) => b,
        None => return Err(contract_error(string_of("row byte size overflow"))),
    };
    let expected = match row_bytes.checked_mul(shape0) {
        Some(b) => b,
        None => return Err(contract_error(string_of("matrix byte size overflow"))),
    };
    if seg.length != expected {
        let mut m = string_of(tensor);
        push_str(&mut m, " stores ");
        push_decimal(&mut m, seg.length);
        push_str(&mut m, " bytes, expected ");
        push_decimal(&mut m, expected);
        return Err(contract_error(m));
    }
    if tile_bytes < row_bytes {
        return Err(tile_error(tile_bytes, row_bytes, "matrix row"));
    }
    let rpt = tile_rows_for(tile_bytes, row_bytes);
    proof {
        assert((first_row + selected_rows) * row_bytes <= rows * row_bytes) by (nonlinear_arith)
            requires
                first_row + selected_rows <= rows,
        ;
    }
    Ok(MatrixPlan { rows, cols, tiles: RowTiles::new(first_row, selected_rows, rpt, row_bytes, tile_bytes, 0) })
}

/// A rank-2 `dtype` matrix whose dimensions `usize` can count.
pub open spec fn dims_outcome(tensor: Seq<char>, seg: TensorSegment, dtype: Seq<char>) -> Result<(usize, usize), Seq<char>> {
    if !rank2(seg, dtype) {
        Err(rank2_message(tensor, dtype))
    } else if seg.shape@[0] > usize::MAX {
        Err("row count exceeds usize"@)
    } else if seg.shape@[1] > usize::MAX {
        Err("column count exceeds usize"@)
    } else {
        Ok((seg.shape@[0] as usize, seg.shape@[1] as usize))
    }
}

fn matrix_dims(tensor: &str, seg: &TensorSegment, dtype: &str) -> (r: Result<(usize, usize), DenseExecutionError>)
    ensures
        match r {
            Ok(d) => dims_outcome(tensor@, *seg, dtype@) == Ok::<(usize, usize), Seq<char>>(d),
            Err(e) => e matches DenseExecutionError::Contract(m)
                && dims_outcome(tensor@, *seg, dtype@) == Err::<(usize, usize), Seq<char>>(m@),
        },
{
    if !is_rank2(seg, dtype) {
        return Err(rank2_error(tensor, dtype));
    }
    if seg.shape[0] > usize::MAX as u64 {
        return Err(contract_error(string_of("row count exceeds usize")));
    }
    if seg.shape[1] > usize::MAX as u64 {
        return Err(contract_error(string_of("column count exceeds usize")));
    }
    Ok((seg.shape[0] as usize, seg.shape[1] as usize))
}

/// What validating a row range of a BF16 matrix for a batched product
/// (position-major input and output) gives.
pub open spec fn bf16_matmul_rows_outcome(
    tensor: Seq<char>,
    seg: TensorSegment,
    first_row: usize,
    selected_rows: usize,
    tile_bytes: u64,
    positions: usize,
    input_len: usize,
) -> Result<(usize, usize, u64), Seq<char>> {
    match dims_outcome(tensor, seg, "BF16"@) {
        Err(m) => Err(m),
        Ok(d) => {
            let (rows, cols) = d;
            if first_row + selected_rows > usize::MAX {
                Err("selected matrix row range overflow"@)
            } else if positions * cols > usize::MAX {
                Err("batched input size overflow"@)
            } else if rows == 0 || cols == 0 || selected_rows == 0 || first_row + selected_rows > rows
                || positions == 0 || input_len != positions * cols {
                Err("matrix and batched input dimensions are incompatible"@)
            } else if cols * 2 > u64::MAX {
                Err("row byte size overflow"@)
            } else if cols * 2 * rows > u64::MAX {
                Err("matrix byte size overflow"@)
            } else if seg.length != cols * 2 * rows || tile_bytes < cols * 2 {
                Err(tensor + " cannot execute under the "@ + decimal(tile_bytes as nat) + "-byte tile contract"@)
            } else if positions * selected_rows > usize::MAX {
                Err("batched output size overflow"@)
            } else {
                Ok((rows, cols, (cols * 2) as u64))
            }
        },
    }
}

/// Validates a batched BF16 product over a row range of `tensor` and plans
/// its row tiles.
pub fn plan_bf16_matmul_rows(
    tensor: &str,
    seg: &TensorSegment,
    first_row: usize,
    selected_rows: usize,
    tile_bytes: u64,
    positions: usize,
    input_len: usize,
) -> (r: Result<MatrixPlan, DenseExecutionError>)
    ensures
        match r {
            Ok(p) => bf16_matmul_rows_outcome(tensor@, *seg, first_row, selected_rows, tile_bytes, positions, input_len) matches Ok(shape)
                && plan_matches(p, shape, first_row, selected_rows, tile_bytes) && p.tiles.base_spec() == 0,
            Err(e) => e matches DenseExecutionError::Contract(m)
                && bf16_matmul_rows_outcome(tensor@, *seg, first_row, selected_rows, tile_bytes, positions, input_len)
                == Err::<(usize, usize, u64), Seq<char>>(m@),
        },
{
    let (rows, cols) = matrix_dims(tensor, seg, "BF16")?;
    let row_end = match first_row.checked_add(selected_rows) {
        Some(e) => e,
        None => return Err(contract_error(string_of("selected matrix row range overflow"))),
    };
    let input_elements = match positions.checked_mul(cols) {
        Some(n) => n,
        None => return Err(contract_error(string_of("batched input size overflow"))),
    };
    if rows == 0 || cols == 0 || selected_rows == 0 || row_end > rows || positions == 0 || input_len != input_elements {
        return Err(contract_error(string_of("matrix and batched input dimensions are incompatible")));
    }
    let row_bytes = match (cols as u64).checked_mul(2) {
        Some(b) => b,
        None => return Err(contract_error(string_of("row byte size overflow"))),
    };
    let expected = match row_bytes.checked_mul(rows as u64) {
        Some(b) => b,
        None => return Err(contract_error(string_of("matrix byte size overflow"))),
    };
    if seg.length != expected || tile_bytes < row_bytes {
        let mut m = string_of(tensor);
        push_str(&mut m, " cannot execute under the ");
        push_decimal(&mut m, tile_bytes);
        push_str(&mut m, "-byte tile contract");
        return Err(contract_error(m));
    }
    if positions.checked_mul(selected_rows).is_none() {
        return Err(contract_error(string_of("batched output size overflow")));
    }
    let rpt = tile_rows_for(tile_bytes, row_bytes);
    proof {
        assert((first_row + selected_rows) * row_bytes <= rows * row_bytes) by (nonlinear_arith)
            requires
                first_row + selected_rows <= rows,
        ;
    }
    Ok(MatrixPlan { rows, cols, tiles: RowTiles::new(first_row, selected_rows, rpt, row_bytes, tile_bytes, 0) })
}

/// What validating a row range of a BF16 matrix for a transposed
/// matrix-vector product gives.
pub open spec fn bf16_transpose_matvec_rows_outcome(
    tensor: Seq<char>,
    seg: TensorSegment,
    first_row: usize,
    selected_rows: usize,
    tile_bytes: u64,
    input_len: usize,
) -> Result<(usize, usize, u64), Seq<char>> {
    match dims_outcome(tensor, seg, "BF16"@) {
        Err(m) => Err(m),
        Ok(d) => {
            let (rows, cols) = d;
            if first_row + selected_rows > usize::MAX {
                Err("selected matrix row range overflow"@)
            } else if cols == 0 || selected_rows == 0 || first_row + selected_rows > rows || input_len != selected_rows {
                Err("transpose matrix row range and input dimensions are incompatible"@)
            } else if cols * 2 > u64::MAX {
                Err("row byte size overflow"@)
            } else if tile_bytes < cols * 2 {
                Err(tile_message(tile_bytes, (cols * 2) as u64, "matrix row"@))
            } else {
                Ok((rows, cols, (cols * 2) as u64))
            }
        },
    }
}

/// Validates a transposed BF16 matrix-vector product over a row range of
/// `tensor` and plans its row tiles. The selected rows must end within the
/// bytes a 64-bit offset addresses.
pub fn plan_bf16_transpose_matvec_rows(
    tensor: &str,
    seg: &TensorSegment,
    first_row: usize,
    selected_rows: usize,
    tile_bytes: u64,
    input_len: usize,
) -> (r: Result<MatrixPlan, DenseExecutionError>)
    requires
        bf16_transpose_matvec_rows_outcome(tensor@, *seg, first_row, selected_rows, tile_bytes, input_len) matches Ok(shape)
            ==> (first_row + selected_rows) * shape.2 <= u64::MAX,
    ensures
        match r {
            Ok(p) => bf16_transpose_matvec_rows_outcome(tensor@, *seg, first_row, selected_rows, tile_bytes, input_len) matches Ok(shape)
                && plan_matches(p, shape, first_row, selected_rows, tile_bytes) && p.tiles.base_spec() == 0,
            Err(e) => e matches DenseExecutionError::Contract(m)
                && bf16_transpose_matvec_rows_outcome(tensor@, *seg, first_row, selected_rows, tile_bytes, input_len)
                == Err::<(usize, usize, u64), Seq<char>>(m@),
        },
{
    let (rows, cols) = matrix_dims(tensor, seg, "BF16")?;
    let row_end = match first_row.checked_add(selected_rows) {
        Some(e) => e,
        None => return Err(contract_error(string_of("selected matrix row range overflow"))),
    };
    if cols == 0 || selected_rows == 0 || row_end > rows || input_len != selected_rows {
        return Err(contract_error(string_of("transpose matrix row range and input dimensions are incompatible")));
    }
    let row_bytes = match (cols as u64).checked_mul(2) {
        Some(b) => b,
        None => return Err(contract_error(string_of("row byte size overflow"))),
    };
    if tile_bytes < row_bytes {
        return Err(tile_error(tile_bytes, row_bytes, "matrix row"));
    }
    let rpt = tile_rows_for(tile_bytes, row_bytes);
    Ok(MatrixPlan { rows, cols, tiles: RowTiles::new(first_row, selected_rows, rpt, row_bytes, tile_bytes, 0) })
}

/// What validating a row range of a BF16 matrix for a batched transposed
/// product gives.
pub open spec fn bf16_transpose_matmul_rows_outcome(
    tensor: Seq<char>,
    seg: TensorSegment,
    first_row: usize,
    selected_rows: usize,
    tile_bytes: u64,
    positions: usize,
    input_len: usize,
) -> Result<(usize, usize, u64), Seq<char>> {
    match dims_outcome(tensor, seg, "BF16"@) {
        Err(m) => Err(m),
        Ok(d) => {
            let (rows, cols) = d;
            if first_row + selected_rows > usize::MAX {
                Err("selected transpose row range overflow"@)
            } else if positions * selected_rows > usize::MAX {
                Err("transpose batch input overflow"@)
            } else if cols == 0 || selected_rows == 0 || first_row + selected_rows > rows || positions == 0
                || input_len != positions * selected_rows {
                Err("transpose matrix row range and batched input are incompatible"@)
            } else if cols * 2 > u64::MAX {
                Err("row byte size overflow"@)
            } else if tile_bytes < cols * 2 {
                Err(tile_message(tile_bytes, (cols * 2) as u64, "matrix row"@))
            } else {
                Ok((rows, cols, (cols * 2) as u64))
            }
        },
    }
}

/// Validates a batched transposed BF16 product over a row range of
/// `tensor` and plans its row tiles. The selected rows must end within the
/// bytes a 64-bit offset addresses.
pub fn plan_bf16_transpose_matmul_rows(
    tensor: &str,
    seg: &TensorSegment,
    first_row: usize,
    selected_rows: usize,
    tile_bytes: u64,
    positions: usize,
    input_len: usize,
) -> (r: Result<MatrixPlan, DenseExecutionError>)
    requires
        bf16_transpose_matmul_rows_outcome(tensor@, *seg, first_row, selected_rows, tile_bytes, positions, input_len) matches Ok(shape)
            ==> (first_row + selected_rows) * shape.2 <= u64::MAX,
    ensures
        match r {
            Ok(p) => bf16_transpose_matmul_rows_outcome(tensor@, *seg, first_row, selected_rows, tile_bytes, positions, input_len) matches Ok(shape)
                && plan_matches(p, shape, first_row, selected_rows, tile_bytes) && p.tiles.base_spec() == 0,
            Err(e) => e matches DenseExecutionError::Contract(m)
                && bf16_transpose_matmul_rows_outcome(tensor@, *seg, first_row, selected_rows, tile_bytes, positions, input_len)
                == Err::<(usize, usize, u64), Seq<char>>(m@),
        },
{
    let (rows, cols) = matrix_dims(tensor, seg, "BF16")?;
    let row_end = match first_row.checked_add(selected_rows) {
        Some(e) => e,
        None => return Err(contract_error(string_of("selected transpose row range overflow"))),
    };
    let input_elements = match positions.checked_mul(selected_rows) {
        Some(n) => n,
        None => return Err(contract_error(string_of("transpose batch input overflow"))),
    };
    if cols == 0 || selected_rows == 0 || row_end > rows || positions == 0 || input_len != input_elements {
        return Err(contract_error(string_of("transpose matrix row range and batched input are incompatible")));
    }
    let row_bytes = match (cols as u64).checked_mul(2) {
        Some(b) => b,
        None => return Err(contract_error(string_of("row byte size overflow"))),
    };
    if tile_bytes < row_bytes {
        return Err(tile_error(tile_bytes, row_bytes, "matrix row"));
    }
    let rpt = tile_rows_for(tile_bytes, row_bytes);
    Ok(MatrixPlan { rows, cols, tiles: RowTiles::new(first_row, selected_rows, rpt, row_bytes, tile_bytes, 0) })
}

/// `a * b`, or the largest `usize` when that overflows.
pub open spec fn saturating_product(a: usize, b: usize) -> int {
    if a * b > usize::MAX { usize::MAX as int } else { a * b }
}

/// What validating an F32 matrix for a batched product gives.
pub open spec fn f32_matmul_outcome(tensor: Seq<char>, seg: TensorSegment, tile_bytes: u64, positions: usize, input_len: usize) -> Result<(usize, usize, u64), Seq<char>> {
    match dims_outcome(tensor, seg, "F32"@) {
        Err(m) => Err(m),
        Ok(d) => {
            let (rows, cols) = d;
            if rows == 0 || cols == 0 || positions == 0 || input_len != saturating_product(positions, cols) {
                Err("F32 matrix and input dimensions are incompatible"@)
            } else if cols * 4 > usize::MAX {
                Err("F32 row size overflow"@)
            } else if tile_bytes < cols * 4 {
                Err(tile_message(tile_bytes, (cols * 4) as u64, "F32 row"@))
            } else {
                Ok((rows, cols, (cols * 4) as u64))
            }
        },
    }
}

/// Validates a batched product with a whole F32 matrix and plans its row
/// tiles. The matrix must end within the bytes a 64-bit offset addresses.
pub fn plan_f32_matmul(tensor: &str, seg: &TensorSegment, tile_bytes: u64, positions: usize, input_len: usize) -> (r: Result<MatrixPlan, DenseExecutionError>)
    requires
        f32_matmul_outcome(tensor@, *seg, tile_bytes, positions, input_len) matches Ok(shape) ==> shape.0 * shape.2 <= u64::MAX,
    ensures
        match r {
            Ok(p) => f32_matmul_outcome(tensor@, *seg, tile_bytes, positions, input_len) matches Ok(shape)
                && plan_matches(p, shape, 0, shape.0, tile_bytes) && p.tiles.base_spec() == 0,
            Err(e) => e matches DenseExecutionError::Contract(m)
                && f32_matmul_outcome(tensor@, *seg, tile_bytes, positions, input_len) == Err::<(usize, usize, u64), Seq<char>>(m@),
        },
{
    let (rows, cols) = matrix_dims(tensor, seg, "F32")?;
    let product: usize = match positions.checked_mul(cols) {
        Some(n) => n,
        None => usize::MAX,
    };
    if rows == 0 || cols == 0 || positions == 0 || input_len != product {
        return Err(contract_error(string_of("F32 matrix and input dimensions are incompatible")));
    }
    let row_bytes = match cols.checked_mul(4) {
        Some(b) => b as u64,
        None => return Err(contract_error(string_of("F32 row size overflow"))),
    };
    if tile_bytes < row_bytes {
        return Err(tile_error(tile_bytes, row_bytes, "F32 row"));
    }
    let rpt = tile_rows_for(tile_bytes, row_bytes);
    Ok(MatrixPlan { rows, cols, tiles: RowTiles::new(0, rows, rpt, row_bytes, tile_bytes, 0) })
}

/// The logical name of a packed INT4 matrix ends in `.weight`; its packed
/// words, BF16 scales and logical shape are stored under `_packed`,
/// `_scale` and `_shape` names.
pub fn packed_tensor_names(tensor: &str) -> (r: Result<(String, String, String), DenseExecutionError>)
    ensures
        r is Ok <==> seq_ends_with(tensor@, ".weight"@),
        r matches Ok(n) ==> n.0@ == tensor@ + "_packed"@ && n.1@ == tensor@ + "_scale"@ && n.2@ == tensor@ + "_shape"@,
        r matches Err(e) ==> (e matches DenseExecutionError::Contract(m)
            && m@ == "packed dense tensor "@ + tensor@ + " must use a .weight logical name"@),
{
    if !str_ends_with(tensor, ".weight") {
        let mut m = string_of("packed dense tensor ");
        push_str(&mut m, tensor);
        push_str(&mut m, " must use a .weight logical name");
        return Err(contract_error(m));
    }
    let mut packed = string_of(tensor);
    push_str(&mut packed, "_packed");
    let mut scale = string_of(tensor);
    push_str(&mut scale, "_scale");
    let mut shape = string_of(tensor);
    push_str(&mut shape, "_shape");
    Ok((packed, scale, shape))
}

/// The stored logical shape of a packed matrix is one pair of I32 values.
pub open spec fn shape_pair_ok(seg: TensorSegment) -> bool {
    (seg.dtype matches Some(d) && d@ == "I32"@) && seg.shape@ == seq![2u64] && seg.length == 8
}

pub fn check_shape_pair(shape_name: &str, seg: &TensorSegment) -> (r: Result<(), DenseExecutionError>)
    ensures
        r is Ok <==> shape_pair_ok(*seg),
        r matches Err(e) ==> (e matches DenseExecutionError::Contract(m)
            && m@ == shape_name@ + " must be an I32 logical shape pair"@),
{
    let named = match &seg.dtype {
        Some(d) => str_eq(d.as_str(), "I32"),
        None => false,
    };
    if !named || seg.shape.len() != 1 || seg.shape[0] != 2 || seg.length != 8 {
        assert(!shape_pair_ok(*seg)) by {
            if shape_pair_ok(*seg) {
                assert(seg.shape@[0] == 2);
            }
        }
        let mut m = string_of(shape_name);
        push_str(&mut m, " must be an I32 logical shape pair");
        return Err(contract_error(m));
    }
    assert(seg.shape@ =~= seq![2u64]);
    Ok(())
}

/// `seg` is a matrix of `dtype` with exactly the given dimensions and bytes.
pub open spec fn exact_matrix(seg: TensorSegment, dtype: Seq<char>, rows: int, cols: int, length: int) -> bool {
    &&& seg.dtype matches Some(d) && d@ == dtype
    &&& seg.shape@.len() == 2 && seg.shape@[0] == rows && seg.shape@[1] == cols
    &&& seg.length == length
}

/// What validating a packed symmetric INT4 group-32 matrix with BF16 scales
/// for a batched product gives: rows, columns, packed-row bytes and
/// scale-row bytes, or the refusal. `logical` is the stored shape pair.
pub open spec fn packed_matmul_outcome(
    tensor: Seq<char>,
    shape_name: Seq<char>,
    packed: TensorSegment,
    scales: TensorSegment,
    logical: Seq<u8>,
    tile_bytes: u64,
    positions: usize,
    input_len: usize,
) -> Result<(usize, usize, u64, u64), Seq<char>> {
    let r = le_word(logical, 0) as i32;
    let c = le_word(logical, 1) as i32;
    if r < 0 {
        Err(shape_name + " has a non-positive row count"@)
    } else if c < 0 {
        Err(shape_name + " has a non-positive column count"@)
    } else if r == 0 || c == 0 || positions == 0 || c % 32 != 0 || input_len != saturating_product(positions, c as usize) {
        Err("packed dense matrix and input dimensions are incompatible"@)
    } else {
        let words = (c + 7) / 8;
        let groups = c / 32;
        if !exact_matrix(packed, "I32"@, r as int, words as int, r * words * 4)
            || !exact_matrix(scales, "BF16"@, r as int, groups as int, r * groups * 2) {
            Err(tensor + " does not have the exact packed INT4/BF16 group-32 triplet"@)
        } else if tile_bytes < words * 4 + groups * 2 {
            Err(tile_message(tile_bytes, (words * 4 + groups * 2) as u64, "packed row"@))
        } else {
            Ok((r as usize, c as usize, (words * 4) as u64, (groups * 2) as u64))
        }
    }
}

/// A validated tiled pass over a packed INT4 matrix: tiles count the packed
/// and scale rows together.
pub struct PackedPlan {
    pub plan: MatrixPlan,
    pub packed_row_bytes: u64,
    pub scale_row_bytes: u64,
}

fn exact_matrix_exec(seg: &TensorSegment, dtype: &str, rows: u64, cols: u64, length: u128) -> (b: bool)
    ensures
        b == exact_matrix(*seg, dtype@, rows as int, cols as int, length as int),
{
    let named = match &seg.dtype {
        Some(d) => str_eq(d.as_str(), dtype),
        None => false,
    };
    named && seg.shape.len() == 2 && seg.shape[0] == rows && seg.shape[1] == cols && seg.length as u128 == length
}

fn shape_pair(logical: &[u8]) -> (p: (i32, i32))
    requires
        logical@.len() == 8,
    ensures
        p.0 == le_word(logical@, 0) as i32,
        p.1 == le_word(logical@, 1) as i32,
{
    match decode_i32_le(logical) {
        Ok(v) => (v[0], v[1]),
        Err(_) => (0, 0),
    }
}

/// The packed triplet of a `rows` by `cols` matrix is exact.
fn triplet_ok(packed: &TensorSegment, scales: &TensorSegment, rows: i32, cols: i32) -> (b: bool)
    requires
        rows >= 0,
        cols >= 0,
    ensures
        b == (exact_matrix(*packed, "I32"@, rows as int, (cols + 7) / 8, rows * ((cols + 7) / 8) * 4)
            && exact_matrix(*scales, "BF16"@, rows as int, cols / 32, rows * (cols / 32) * 2)),
{
    let words: u64 = (cols as u64 + 7) / 8;
    let groups: u64 = cols as u64 / 32;
    proof {
        assert(rows * (words * 4) <= 0x8000_0000 * 0x4000_0000) by (nonlinear_arith)
            requires
                0 <= rows < 0x8000_0000,
                0 <= words * 4 <= 0x4000_0000,
        ;
        assert(rows * (groups * 2) <= 0x8000_0000 * 0x4000_0000) by (nonlinear_arith)
            requires
                0 <= rows < 0x8000_0000,
                0 <= groups * 2 <= 0x4000_0000,
        ;
        assert(rows * (words * 4) == rows * words * 4) by (nonlinear_arith);
        assert(rows * (groups * 2) == rows * groups * 2) by (nonlinear_arith);
    }
    exact_matrix_exec(packed, "I32", rows as u64, words, rows as u128 * (words * 4) as u128)
        && exact_matrix_exec(scales, "BF16", rows as u64, groups, rows as u128 * (groups * 2) as u128)
}

/// Validates a batched product with a packed INT4 group-32 matrix, from the
/// metadata of its packed words and scales and its stored shape pair, and
/// plans its row tiles (the shape pair's 8 bytes count as already read).
pub fn plan_packed_int4_matmul(
    tensor: &str,
    shape_name: &str,
    packed: &TensorSegment,
    scales: &TensorSegment,
    logical: &[u8],
    tile_bytes: u64,
    positions: usize,
    input_len: usize,
) -> (r: Result<PackedPlan, DenseExecutionError>)
    requires
        logical@.len() == 8,
        packed_matmul_outcome(tensor@, shape_name@, *packed, *scales, logical@, tile_bytes, positions, input_len) is Ok
            ==> 8 + packed.length + scales.length <= u64::MAX,
    ensures
        match r {
            Ok(p) => packed_matmul_outcome(tensor@, shape_name@, *packed, *scales, logical@, tile_bytes, positions, input_len)
                matches Ok(d) && plan_matches(p.plan, (d.0, d.1, (d.2 + d.3) as u64), 0, d.0, tile_bytes)
                && p.plan.tiles.base_spec() == 8 && p.packed_row_bytes == d.2 && p.scale_row_bytes == d.3,
            Err(e) => e matches DenseExecutionError::Contract(m)
                && packed_matmul_outcome(tensor@, shape_name@, *packed, *scales, logical@, tile_bytes, positions, input_len)
                == Err::<(usize, usize, u64, u64), Seq<char>>(m@),
        },
{
    let (r, c) = shape_pair(logical);
    if r < 0 {
        let mut m = string_of(shape_name);
        push_str(&mut m, " has a non-positive row count");
        return Err(contract_error(m));
    }
    if c < 0 {
        let mut m = string_of(shape_name);
        push_str(&mut m, " has a non-positive column count");
        return Err(contract_error(m));
    }
    let rows = r as usize;
    let cols = c as usize;
    let product: usize = match positions.checked_mul(cols) {
        Some(n) => n,
        None => usize::MAX,
    };
    if rows == 0 || cols == 0 || positions == 0 || cols % 32 != 0 || input_len != product {
        return Err(contract_error(string_of("packed dense matrix and input dimensions are incompatible")));
    }
    if !triplet_ok(packed, scales, r, c) {
        let mut m = string_of(tensor);
        push_str(&mut m, " does not have the exact packed INT4/BF16 group-32 triplet");
        return Err(contract_error(m));
    }
    let packed_row_bytes: u64 = (c as u64 + 7) / 8 * 4;
    let scale_row_bytes: u64 = c as u64 / 32 * 2;
    let combined = packed_row_bytes + scale_row_bytes;
    if tile_bytes < combined {
        return Err(tile_error(tile_bytes, combined, "packed row"));
    }
    let rpt = tile_rows_for(tile_bytes, combined);
    proof {
        assert(rows * combined == rows * packed_row_bytes + rows * scale_row_bytes) by (nonlinear_arith)
            requires
                combined == packed_row_bytes + scale_row_bytes,
        ;
        assert(rows * packed_row_bytes == r * ((c + 7) / 8) * 4) by (nonlinear_arith)
            requires
                rows == r,
                packed_row_bytes == (c + 7) / 8 * 4,
        ;
        assert(rows * scale_row_bytes == r * (c / 32) * 2) by (nonlinear_arith)
            requires
                rows == r,
                scale_row_bytes == c / 32 * 2,
        ;
    }
    let plan = MatrixPlan { rows, cols, tiles: RowTiles::new(0, rows, rpt, combined, tile_bytes, 8) };
    Ok(PackedPlan { plan, packed_row_bytes, scale_row_bytes })
}

/// `"backend returned {n} values for a {positions}x{rows} {what}"`.
pub open spec fn tile_size_message(n: nat, positions: nat, rows: nat, what: Seq<char>) -> Seq<char> {
    "backend returned "@ + decimal(n) + " values for a "@ + decimal(positions) + "x"@ + decimal(rows) + " "@ + what
}

/// Entry `i` of a position-major `[positions, out_rows]` output after a
/// `[positions, tile_rows]` tile was placed at row `relative_row`.
pub open spec fn placed(old_out: Seq<u32>, tile: Seq<u32>, out_rows: int, relative_row: int, tile_rows: int, i: int) -> u32 {
    let p = i / out_rows;
    let row = i % out_rows;
    if relative_row <= row < relative_row + tile_rows { tile[p * tile_rows + row - relative_row] } else { old_out[i] }
}

/// Places a backend's position-major tile result (values as single-precision
/// bit patterns) into the position-major output, after checking that the
/// backend returned one value per position and tile row. `packed` names the
/// tile in the refusal.
pub fn place_tile(
    output: &mut Vec<u32>,
    tile: &Vec<u32>,
    positions: usize,
    out_rows: usize,
    relative_row: usize,
    tile_rows: usize,
    packed: bool,
) -> (r: Result<(), DenseExecutionError>)
    requires
        old(output)@.len() == positions * out_rows,
        relative_row + tile_rows <= out_rows,
    ensures
        r is Ok <==> tile@.len() == positions * tile_rows,
        r matches Err(e) ==> (e matches DenseExecutionError::Backend(m) && m@ == tile_size_message(tile@.len(),
            positions as nat, tile_rows as nat, if packed { "packed output tile"@ } else { "output tile"@ })),
        r is Err ==> final(output)@ == old(output)@,
        final(output)@.len() == old(output)@.len(),
        r is Ok ==> forall|i: int| 0 <= i < final(output)@.len() ==> #[trigger] final(output)@[i]
            == placed(old(output)@, tile@, out_rows as int, relative_row as int, tile_rows as int, i),
{
    let product = positions.checked_mul(tile_rows);
    let size_ok = match product {
        Some(n) => tile.len() == n,
        None => false,
    };
    if !size_ok {
        let n = tile.len();
        assert(n == tile@.len());
        let mut m = string_of("backend returned ");
        push_decimal(&mut m, n as u64);
        push_str(&mut m, " values for a ");
        push_decimal(&mut m, positions as u64);
        push_str(&mut m, "x");
        push_decimal(&mut m, tile_rows as u64);
        push_str(&mut m, " ");
        push_str(&mut m, if packed { "packed output tile" } else { "output tile" });
        return Err(DenseExecutionError::Backend(m));
    }
    let ghost before = output@;
    assert(output.len() == output@.len());
    let mut p: usize = 0;
    while p < positions
        invariant
            p <= positions,
            positions * out_rows <= usize::MAX,
            positions * tile_rows <= usize::MAX,
            before.len() == positions * out_rows,
            output@.len() == before.len(),
            tile@.len() == positions * tile_rows,
            relative_row + tile_rows <= out_rows,
            forall|i: int| 0 <= i < output@.len() ==> #[trigger] output@[i] == (if i / (out_rows as int) < p {
                placed(before, tile@, out_rows as int, relative_row as int, tile_rows as int, i)
            } else {
                before[i]
            }),
        decreases positions - p,
    {
        proof {
            assert((p + 1) * out_rows <= positions * out_rows) by (nonlinear_arith)
                requires
                    p + 1 <= positions,
            ;
            assert((p + 1) * tile_rows <= positions * tile_rows) by (nonlinear_arith)
                requires
                    p + 1 <= positions,
            ;
            assert((p + 1) * out_rows == p * out_rows + out_rows) by (nonlinear_arith);
            assert((p + 1) * tile_rows == p * tile_rows + tile_rows) by (nonlinear_arith);
        }
        let base_out = p * out_rows + relative_row;
        let base_tile = p * tile_rows;
        let mut j: usize = 0;
        while j < tile_rows
            invariant
                p < positions,
                j <= tile_rows,
                positions * out_rows <= usize::MAX,
                positions * tile_rows <= usize::MAX,
                before.len() == positions * out_rows,
                output@.len() == before.len(),
                tile@.len() == positions * tile_rows,
                relative_row + tile_rows <= out_rows,
                base_out == p * out_rows + relative_row,
                base_tile == p * tile_rows,
                (p + 1) * out_rows <= positions * out_rows,
                (p + 1) * tile_rows <= positions * tile_rows,
                (p + 1) * out_rows == p * out_rows + out_rows,
                (p + 1) * tile_rows == p * tile_rows + tile_rows,
                forall|i: int| 0 <= i < output@.len() ==> #[trigger] output@[i] == (if i / (out_rows as int) < p
                    || (i / (out_rows as int) == p && relative_row <= i % (out_rows as int) < relative_row + j) {
                    placed(before, tile@, out_rows as int, relative_row as int, tile_rows as int, i)
                } else {
                    before[i]
                }),
            decreases tile_rows - j,
        {
            let k = base_out + j;
            proof {
                assert((k as int) / (out_rows as int) == p && (k as int) % (out_rows as int) == relative_row + j) by (nonlinear_arith)
                    requires
                        k == p * out_rows + relative_row + j,
                        relative_row + j < out_rows,
                ;
            }
            let ghost prev = output@;
            output.set(k, tile[base_tile + j]);
            proof {
                assert forall|i: int| 0 <= i < output@.len() && i != k implies !(i / (out_rows as int) == p
                    && #[trigger] (i % (out_rows as int)) == relative_row + j) by {
                    vstd::arithmetic::div_mod::lemma_fundamental_div_mod(i, out_rows as int);
                    if i / (out_rows as int) == p && i % (out_rows as int) == relative_row + j {
                        assert(out_rows * p + (relative_row + j) == p * out_rows + relative_row + j) by (nonlinear_arith);
                    }
                }
                assert forall|i: int| 0 <= i < output@.len() implies #[trigger] output@[i] == (if i / (out_rows as int) < p
                    || (i / (out_rows as int) == p && relative_row <= i % (out_rows as int) < relative_row + j + 1) {
                    placed(before, tile@, out_rows as int, relative_row as int, tile_rows as int, i)
                } else {
                    before[i]
                }) by {
                    if i != k {
                        assert(output@[i] == prev[i]);
                        if i / (out_rows as int) == p && i % (out_rows as int) == relative_row + j {
                            assert(false);
                        }
                    }
                }
            }
            j += 1;
        }
        p += 1;
    }
    proof {
        assert forall|i: int| 0 <= i < output@.len() implies #[trigger] output@[i]
            == placed(before, tile@, out_rows as int, relative_row as int, tile_rows as int, i) by {
            assert(i / (out_rows as int) < positions) by (nonlinear_arith)
                requires
                    0 <= i < positions * out_rows,
                    out_rows > 0,
            ;
        }
    }
    Ok(())
}

/// Appends a backend's matrix-vector tile result to the output, after
/// checking that it holds one value per tile row.
pub fn append_rows(output: &mut Vec<u32>, values: &Vec<u32>, tile_rows: usize) -> (r: Result<(), DenseExecutionError>)
    ensures
        r is Ok <==> values@.len() == tile_rows,
        r is Ok ==> final(output)@ == old(output)@ + values@,
        r is Err ==> final(output)@ == old(output)@ && (r matches Err(DenseExecutionError::Backend(m))
            && m@ == "backend returned "@ + decimal(values@.len()) + " rows for a "@ + decimal(tile_rows as nat) + "-row tile"@),
{
    let n = values.len();
    if n != tile_rows {
        let mut m = string_of("backend returned ");
        push_decimal(&mut m, n as u64);
        push_str(&mut m, " rows for a ");
        push_decimal(&mut m, tile_rows as u64);
        push_str(&mut m, "-row tile");
        return Err(DenseExecutionError::Backend(m));
    }
    let mut i: usize = 0;
    let ghost start = output@;
    while i < n
        invariant
            i <= n,
            n == values@.len(),
            output@ == start + values@.take(i as int),
        decreases n - i,
    {
        output.push(values[i]);
        assert(values@.take(i + 1) =~= values@.take(i as int).push(values@[i as int]));
        i += 1;
    }
    assert(values@.take(n as int) =~= values@);
    Ok(())
}

/// The input of one transposed tile: for each position, the activations of
/// the tile's rows, from a position-major `[positions, selected_rows]`
/// input.
pub fn gather_tile_input(input: &Vec<u32>, positions: usize, selected_rows: usize, relative_row: usize, tile_rows: usize) -> (out: Vec<u32>)
    requires
        input@.len() == positions * selected_rows,
        relative_row + tile_rows <= selected_rows,
    ensures
        out@.len() == positions * tile_rows,
        forall|p: int, j: int| 0 <= p < positions && 0 <= j < tile_rows ==> #[trigger] out@[p * tile_rows + j]
            == input@[p * selected_rows + relative_row + j],
{
    let mut out: Vec<u32> = Vec::new();
    let mut p: usize = 0;
    assert(input.len() == input@.len());
    while p < positions
        invariant
            p <= positions,
            input@.len() == positions * selected_rows,
            positions * selected_rows <= usize::MAX,
            relative_row + tile_rows <= selected_rows,
            out@.len() == p * tile_rows,
            forall|q: int, j: int| 0 <= q < p && 0 <= j < tile_rows ==> #[trigger] out@[q * tile_rows + j]
                == input@[q * selected_rows + relative_row + j],
        decreases positions - p,
    {
        proof {
            assert((p + 1) * selected_rows <= positions * selected_rows) by (nonlinear_arith)
                requires
                    p + 1 <= positions,
            ;
            assert((p + 1) * selected_rows == p * selected_rows + selected_rows) by (nonlinear_arith);
            assert((p + 1) * tile_rows == p * tile_rows + tile_rows) by (nonlinear_arith);
        }
        let start = p * selected_rows + relative_row;
        let mut j: usize = 0;
        while j < tile_rows
            invariant
                p < positions,
                j <= tile_rows,
                input@.len() == positions * selected_rows,
                relative_row + tile_rows <= selected_rows,
                start == p * selected_rows + relative_row,
                positions * selected_rows <= usize::MAX,
                (p + 1) * selected_rows <= positions * selected_rows,
                (p + 1) * selected_rows == p * selected_rows + selected_rows,
                out@.len() == p * tile_rows + j,
                forall|q: int, k: int| 0 <= q < p && 0 <= k < tile_rows ==> #[trigger] out@[q * tile_rows + k]
                    == input@[q * selected_rows + relative_row + k],
                forall|k: int| 0 <= k < j ==> #[trigger] out@[p * tile_rows + k] == input@[p * selected_rows + relative_row + k],
            decreases tile_rows - j,
        {
            let ghost prev = out@;
            out.push(input[start + j]);
            proof {
                assert forall|q: int, k: int| 0 <= q < p && 0 <= k < tile_rows implies #[trigger] out@[q * tile_rows + k]
                    == input@[q * selected_rows + relative_row + k] by {
                    assert(q * tile_rows + k < p * tile_rows) by (nonlinear_arith)
                        requires
                            0 <= q < p,
                            0 <= k < tile_rows,
                    ;
                    assert(out@[q * tile_rows + k] == prev[q * tile_rows + k]);
                }
            }
            j += 1;
        }
        proof {
            assert forall|q: int, k: int| 0 <= q < p + 1 && 0 <= k < tile_rows implies #[trigger] out@[q * tile_rows + k]
                == input@[q * selected_rows + relative_row + k] by {
                if q == p {
                    assert(out@[p * tile_rows + k] == input@[p * selected_rows + relative_row + k]);
                }
            }
        }
        p += 1;
    }
    out
}

/// A batched transposed tile result holds one value per position and
/// column.
pub fn check_transpose_batch(n: usize, positions: usize, cols: usize) -> (r: Result<(), DenseExecutionError>)
    ensures
        r is Ok <==> n == positions * cols,
        r matches Err(e) ==> (e matches DenseExecutionError::Backend(m) && m@ == "transpose backend returned "@
            + decimal(n as nat) + " values for a "@ + decimal(positions as nat) + "x"@ + decimal(cols as nat) + " output"@),
{
    let ok = match positions.checked_mul(cols) {
        Some(total) => n == total,
        None => false,
    };
    if ok {
        return Ok(());
    }
    let mut m = string_of("transpose backend returned ");
    push_decimal(&mut m, n as u64);
    push_str(&mut m, " values for a ");
    push_decimal(&mut m, positions as u64);
    push_str(&mut m, "x");
    push_decimal(&mut m, cols as u64);
    push_str(&mut m, " output");
    Err(DenseExecutionError::Backend(m))
}

/// A transposed matrix-vector tile result holds one value per column.
pub fn check_transpose_columns(n: usize, cols: usize) -> (r: Result<(), DenseExecutionError>)
    ensures
        r is Ok <==> n == cols,
        r matches Err(e) ==> (e matches DenseExecutionError::Backend(m) && m@ == "transpose backend returned "@
            + decimal(n as nat) + " columns for a "@ + decimal(cols as nat) + "-column tile"@),
{
    if n == cols {
        return Ok(());
    }
    let mut m = string_of("transpose backend returned ");
    push_decimal(&mut m, n as u64);
    push_str(&mut m, " columns for a ");
    push_decimal(&mut m, cols as u64);
    push_str(&mut m, "-column tile");
    Err(DenseExecutionError::Backend(m))
}

/// Validates a BF16 matrix-vector product over the whole of `tensor` and
/// plans its row tiles.
pub fn plan_bf16_matvec(tensor: &str, seg: &TensorSegment, tile_bytes: u64, input_len: usize) -> (r: Result<MatrixPlan, DenseExecutionError>)
    ensures
        match r {
            Ok(p) => rank2(*seg, "BF16"@) && seg.shape@[0] <= usize::MAX
                && (bf16_matvec_rows_outcome(tensor@, *seg, 0, seg.shape@[0] as usize, tile_bytes, input_len) matches Ok(shape)
                && plan_matches(p, shape, 0, seg.shape@[0] as usize, tile_bytes) && p.tiles.base_spec() == 0),
            Err(e) => e matches DenseExecutionError::Contract(m) && if !rank2(*seg, "BF16"@) {
                m@ == rank2_message(tensor@, "BF16"@)
            } else if seg.shape@[0] > usize::MAX {
                m@ == "row count exceeds usize"@
            } else {
                bf16_matvec_rows_outcome(tensor@, *seg, 0, seg.shape@[0] as usize, tile_bytes, input_len)
                    == Err::<(usize, usize, u64), Seq<char>>(m@)
            },
        },
{
    if !is_rank2(seg, "BF16") {
        return Err(rank2_error(tensor, "BF16"));
    }
    if seg.shape[0] > usize::MAX as u64 {
        return Err(contract_error(string_of("row count exceeds usize")));
    }
    plan_bf16_matvec_rows(tensor, seg, 0, seg.shape[0] as usize, tile_bytes, input_len)
}

/// Validates a batched BF16 product over the whole of `tensor` and plans its
/// row tiles.
pub fn plan_bf16_matmul(tensor: &str, seg: &TensorSegment, tile_bytes: u64, positions: usize, input_len: usize) -> (r: Result<MatrixPlan, DenseExecutionError>)
    ensures
        match r {
            Ok(p) => rank2(*seg, "BF16"@) && seg.shape@[0] <= usize::MAX
                && (bf16_matmul_rows_outcome(tensor@, *seg, 0, seg.shape@[0] as usize, tile_bytes, positions, input_len) matches Ok(shape)
                && plan_matches(p, shape, 0, seg.shape@[0] as usize, tile_bytes) && p.tiles.base_spec() == 0),
            Err(e) => e matches DenseExecutionError::Contract(m) && if !rank2(*seg, "BF16"@) {
                m@ == rank2_message(tensor@, "BF16"@)
            } else if seg.shape@[0] > usize::MAX {
                m@ == "row count exceeds usize"@
            } else {
                bf16_matmul_rows_outcome(tensor@, *seg, 0, seg.shape@[0] as usize, tile_bytes, positions, input_len)
                    == Err::<(usize, usize, u64), Seq<char>>(m@)
            },
        },
{
    if !is_rank2(seg, "BF16") {
        return Err(rank2_error(tensor, "BF16"));
    }
    if seg.shape[0] > usize::MAX as u64 {
        return Err(contract_error(string_of("row count exceeds usize")));
    }
    plan_bf16_matmul_rows(tensor, seg, 0, seg.shape[0] as usize, tile_bytes, positions, input_len)
}

} // verus!
