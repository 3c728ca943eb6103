//! Dense row-major matrices and the multiply orchestrator: shape validation,
//! one task per output cell, a fixed pool of workers selected by destination
//! index, and collection of the replies into the output buffer.
use vstd::prelude::*;

use crate::text::append_i64;
use crate::text::append_u64;
use crate::text::dec_digits;
use crate::text::int_str;
use crate::vector::dot;
use crate::vector::dot_fits;
use crate::vector::dot_product_ref;
use crate::vector::dot_result;
use crate::vector::DotProductError;
use vstd::arithmetic::div_mod::lemma_fundamental_div_mod_converse_div;
use vstd::arithmetic::div_mod::lemma_fundamental_div_mod_converse_mod;
use vstd::pervasive::VecAdditionalExecFns;

verus! {

/// A dense matrix: a flat row-major buffer and its dimensions. Element
/// `(i, j)` lives at `data[i * col + j]`, and a well-formed matrix has
/// `data.len() == row * col`.
#[derive(Debug, Clone)]
pub struct Matrix<T> {
    pub data: Vec<T>,
    pub row: usize,
    pub col: usize,
}

impl<T> Matrix<T> {
    /// The buffer holds exactly one element per cell.
    pub open spec fn wf(self) -> bool {
        self.data@.len() == self.row * self.col
    }

    /// The element at row `i`, column `j`.
    pub open spec fn at(self, i: int, j: int) -> T {
        self.data@[i * self.col + j]
    }

    /// Row `i` as a sequence: a contiguous slice of the buffer.
    pub open spec fn spec_row(self, i: int) -> Seq<T> {
        self.data@.subrange(i * self.col, i * self.col + self.col)
    }

    /// Column `j` as a sequence: the buffer read with stride `col`.
    pub open spec fn spec_col(self, j: int) -> Seq<T> {
        Seq::new(self.row as nat, |k: int| self.data@[k * self.col + j])
    }

    /// Constructs a matrix; the caller guarantees that the buffer length
    /// matches the dimensions.
    pub fn new(row: usize, col: usize, data: Vec<T>) -> (m: Self)
        requires
            data@.len() == row * col,
        ensures
            m.row == row,
            m.col == col,
            m.data@ == data@,
            m.wf(),
    {
        Self { row, col, data }
    }
}

/// Bounds of the flat index of cell `(i, j)` inside a `row × col` row-major
/// buffer.
pub proof fn lemma_cell_index(row: int, col: int, i: int, j: int)
    requires
        0 <= i < row,
        0 <= j <= col,
    ensures
        0 <= i * col,
        i * col + j <= row * col,
        i * col + col <= row * col,
{
    assert(0 <= i * col && i * col + j <= row * col && i * col + col <= row * col)
        by (nonlinear_arith)
        requires
            0 <= i < row,
            0 <= j <= col,
    ;
}

impl<T: Copy> Matrix<T> {
    /// An owned copy of row `i`, ready to cross a thread boundary.
    pub fn row_copy(&self, i: usize) -> (r: Vec<T>)
        requires
            self.wf(),
            i < self.row,
        ensures
            r@ == self.spec_row(i as int),
    {
        let n = self.data.len();
        assert(self.data@.len() == n);
        let mut r: Vec<T> = Vec::new();
        let mut j: usize = 0;
        while j < self.col
            invariant
                self.wf(),
                self.data@.len() <= usize::MAX,
                i < self.row,
                j <= self.col,
                r@ =~= self.spec_row(i as int).take(j as int),
            decreases self.col - j,
        {
            proof {
                lemma_cell_index(self.row as int, self.col as int, i as int, j as int);
            }
            r.push(self.data[i * self.col + j]);
            assert(r@ =~= self.spec_row(i as int).take(j + 1));
            j = j + 1;
        }
        proof {
            lemma_cell_index(self.row as int, self.col as int, i as int, self.col as int);
            assert(r@ =~= self.spec_row(i as int));
        }
        r
    }

    /// An owned copy of column `j`: the strided view materialized so that a
    /// task can own its operands.
    pub fn col_copy(&self, j: usize) -> (r: Vec<T>)
        requires
            self.wf(),
            j < self.col,
        ensures
            r@ == self.spec_col(j as int),
    {
        let n = self.data.len();
        assert(self.data@.len() == n);
        let mut r: Vec<T> = Vec::new();
        let mut k: usize = 0;
        while k < self.row
            invariant
                self.wf(),
                self.data@.len() <= usize::MAX,
                j < self.col,
                k <= self.row,
                r@ =~= self.spec_col(j as int).take(k as int),
            decreases self.row - k,
        {
            proof {
                lemma_cell_index(self.row as int, self.col as int, k as int, j as int);
            }
            r.push(self.data[k * self.col + j]);
            assert(r@ =~= self.spec_col(j as int).take(k + 1));
            k = k + 1;
        }
        assert(r@ =~= self.spec_col(j as int));
        r
    }
}

/// The textual form of one row: elements separated by a single space.
pub open spec fn render_row(s: Seq<i64>) -> Seq<char>
    decreases s.len(),
{
    if s.len() <= 0 {
        Seq::<char>::empty()
    } else if s.len() == 1 {
        int_str(s[0] as int)
    } else {
        render_row(s.drop_last()) + " "@ + int_str(s.last() as int)
    }
}

/// The textual form of the first `r` rows: rows separated by `", "`.
pub open spec fn render_rows(m: Matrix<i64>, r: int) -> Seq<char>
    decreases r,
{
    if r <= 0 {
        Seq::<char>::empty()
    } else if r == 1 {
        render_row(m.spec_row(0))
    } else {
        render_rows(m, r - 1) + ", "@ + render_row(m.spec_row(r - 1))
    }
}

/// The display form of a matrix: the rows, wrapped in braces.
pub open spec fn display_spec(m: Matrix<i64>) -> Seq<char> {
    "{"@ + render_rows(m, m.row as int) + "}"@
}

/// The debug form of a matrix: its dimensions followed by its display form.
pub open spec fn debug_spec(m: Matrix<i64>) -> Seq<char> {
    "Matrix(row="@ + dec_digits(m.row as nat) + ",col="@ + dec_digits(m.col as nat) + ",data="@
        + display_spec(m) + ")"@
}

impl Matrix<i64> {
    /// The textual form of row `i`, elements separated by a single space.
    fn render_row_text(&self, i: usize) -> (s: String)
        requires
            self.wf(),
            i < self.row,
        ensures
            s@ == render_row(self.spec_row(i as int)),
    {
        let n = self.data.len();
        assert(self.data@.len() == n);
        let mut s = String::new();
        let mut j: usize = 0;
        while j < self.col
            invariant
                self.wf(),
                self.data@.len() <= usize::MAX,
                i < self.row,
                j <= self.col,
                s@ == render_row(self.spec_row(i as int).take(j as int)),
            decreases self.col - j,
        {
            if j > 0 {
                s.append(" ");
            }
            proof {
                lemma_cell_index(self.row as int, self.col as int, i as int, j as int);
            }
            append_i64(&mut s, self.data[i * self.col + j]);
            proof {
                let rowseq = self.spec_row(i as int);
                assert(rowseq.take(j + 1).drop_last() =~= rowseq.take(j as int));
                assert(rowseq.take(j + 1).last() == self.data@[i * self.col + j]);
                assert(s@ =~= render_row(rowseq.take(j + 1)));
            }
            j = j + 1;
        }
        proof {
            lemma_cell_index(self.row as int, self.col as int, i as int, self.col as int);
            assert(self.spec_row(i as int).take(self.col as int) =~= self.spec_row(i as int));
        }
        s
    }

    /// The exact display rendering: rows separated by `", "`, elements within
    /// a row by a single space, the whole wrapped in `{ }`.
    pub fn display(&self) -> (s: String)
        requires
            self.wf(),
        ensures
            s@ == display_spec(*self),
    {
        let mut s = String::from_str("{");
        let mut i: usize = 0;
        while i < self.row
            invariant
                self.wf(),
                i <= self.row,
                s@ == "{"@ + render_rows(*self, i as int),
            decreases self.row - i,
        {
            if i > 0 {
                s.append(", ");
            }
            let row_text = self.render_row_text(i);
            s.append(row_text.as_str());
            assert(s@ =~= "{"@ + render_rows(*self, i + 1));
            i = i + 1;
        }
        s.append("}");
        assert(s@ =~= display_spec(*self));
        s
    }

    /// The exact debug rendering: the dimensions, then the display form.
    pub fn debug(&self) -> (s: String)
        requires
            self.wf(),
        ensures
            s@ == debug_spec(*self),
    {
        let mut s = String::from_str("Matrix(row=");
        append_u64(&mut s, self.row as u64);
        s.append(",col=");
        append_u64(&mut s, self.col as u64);
        s.append(",data=");
        let body = self.display();
        s.append(body.as_str());
        s.append(")");
        assert(s@ =~= debug_spec(*self));
        s
    }
}

/// The fixed number of workers in the pool.
pub const NUM_THREAD: usize = 4;

/// One unit of work: one output cell's flat destination index together with
/// owned copies of the row and column whose dot product fills that cell.
#[derive(Debug)]
pub struct Task {
    pub idx: usize,
    pub row: Vec<i64>,
    pub col: Vec<i64>,
}

impl Task {
    pub fn new(idx: usize, row: Vec<i64>, col: Vec<i64>) -> (t: Self)
        ensures
            t.idx == idx,
            t.row@ == row@,
            t.col@ == col@,
    {
        Self { idx, row, col }
    }
}

/// The result message for exactly one task: the destination index and the
/// outcome of the task's dot product.
#[derive(Debug, Clone, Copy)]
pub struct Reply {
    pub idx: usize,
    pub value: Result<i64, DotProductError>,
}

impl Reply {
    pub fn new(idx: usize, value: Result<i64, DotProductError>) -> (r: Self)
        ensures
            r.idx == idx,
            r.value == value,
    {
        Self { idx, value }
    }
}

/// Which operand of a multiplication an error speaks of.
#[derive(Debug, Clone, Copy, PartialEq, Eq, Structural)]
pub enum Operand {
    A,
    B,
}

/// Why a multiplication failed.
#[derive(Debug, Clone, Copy, PartialEq, Eq, Structural)]
pub enum MultiplyError {
    /// An operand has zero rows or zero columns.
    InvalidShape { which: Operand, row: usize, col: usize },
    /// The left operand's column count differs from the right operand's row
    /// count.
    IncompatibleShapes,
    /// A worker reported a failed dot product.
    ComputeFailed { cause: DotProductError },
    /// A worker or a reply channel failed; the unverified parallel driver
    /// reports this instead of blocking on a reply that cannot arrive.
    WorkerFailure,
}

impl MultiplyError {
    /// The exact message of each failure; shape errors name the operand and
    /// its dimensions, and the incompatible-shapes message names the
    /// mismatched pair.
    pub open spec fn message_spec(self) -> Seq<char> {
        match self {
            MultiplyError::InvalidShape { which, row, col } => {
                if which == Operand::A {
                    "Matrix multiply error: a.col="@ + dec_digits(col as nat) + ", a.row="@
                        + dec_digits(row as nat)
                } else {
                    "Matrix multiply error: b.col="@ + dec_digits(col as nat) + ", b.row="@
                        + dec_digits(row as nat)
                }
            },
            MultiplyError::IncompatibleShapes => "Matrix multiply error: a.col != b.row"@,
            MultiplyError::ComputeFailed { cause } => "Matrix multiply error: compute failed: "@
                + cause.message_spec(),
            MultiplyError::WorkerFailure => "Matrix multiply error: worker failure"@,
        }
    }

    /// Renders the failure message.
    pub fn message(&self) -> (s: String)
        ensures
            s@ == self.message_spec(),
    {
        match self {
            MultiplyError::InvalidShape { which, row, col } => {
                let mut s = if *which == Operand::A {
                    String::from_str("Matrix multiply error: a.col=")
                } else {
                    String::from_str("Matrix multiply error: b.col=")
                };
                append_u64(&mut s, *col as u64);
                if *which == Operand::A {
                    s.append(", a.row=");
                } else {
                    s.append(", b.row=");
                }
                append_u64(&mut s, *row as u64);
                s
            },
            MultiplyError::IncompatibleShapes => String::from_str(
                "Matrix multiply error: a.col != b.row",
            ),
            MultiplyError::ComputeFailed { cause } => {
                let mut s = String::from_str("Matrix multiply error: compute failed: ");
                let tail = cause.message();
                s.append(tail.as_str());
                s
            },
            MultiplyError::WorkerFailure => String::from_str(
                "Matrix multiply error: worker failure",
            ),
        }
    }
}

/// Both operands have nonzero dimensions and the inner dimensions agree.
pub open spec fn shapes_ok(a: Matrix<i64>, b: Matrix<i64>) -> bool {
    a.row > 0 && a.col > 0 && b.row > 0 && b.col > 0 && a.col == b.row
}

/// The value of output cell `(i, j)`: the dot product of row `i` of `a` and
/// column `j` of `b`, accumulated in ascending `k`.
pub open spec fn cell_value(a: Matrix<i64>, b: Matrix<i64>, i: int, j: int) -> int {
    dot(a.spec_row(i), b.spec_col(j), a.col as int)
}

/// The machine limits under which the product of `a` and `b` can be computed:
/// the output buffer length fits in `usize`, and no cell's dot product can
/// overflow an `i64` at any point of its accumulation.
pub open spec fn product_fits(a: Matrix<i64>, b: Matrix<i64>) -> bool {
    &&& a.row * b.col <= usize::MAX
    &&& forall|i: int, j: int|
        0 <= i < a.row && 0 <= j < b.col ==> dot_fits(
            #[trigger] a.spec_row(i),
            #[trigger] b.spec_col(j),
        )
}

/// The task for flat destination `idx` carries row `idx / b.col` of `a` and
/// column `idx % b.col` of `b`.
pub open spec fn task_ok(a: Matrix<i64>, b: Matrix<i64>, t: Task) -> bool {
    &&& t.idx < a.row * b.col
    &&& t.row@ == a.spec_row(t.idx as int / b.col as int)
    &&& t.col@ == b.spec_col(t.idx as int % b.col as int)
}

/// `r` answers task `t`: same destination index, and the value is exactly the
/// outcome of the task's dot product.
pub open spec fn reply_for(t: Task, r: Reply) -> bool {
    r.idx == t.idx && r.value == dot_result(t.row@, t.col@)
}

/// Some task of `tasks` is answered by `r`.
pub open spec fn reply_matches_some(tasks: Seq<Task>, r: Reply) -> bool {
    exists|t: int| 0 <= t < tasks.len() && reply_for(tasks[t], r)
}

/// Some reply of `replies` answers task `t`.
pub open spec fn task_answered(replies: Seq<Reply>, t: Task) -> bool {
    exists|k: int| 0 <= k < replies.len() && reply_for(t, replies[k])
}

/// Every reply is addressed to a valid destination and carries exactly that
/// cell's dot-product outcome.
pub open spec fn reply_cell_ok(a: Matrix<i64>, b: Matrix<i64>, r: Reply) -> bool {
    &&& r.idx < a.row * b.col
    &&& r.value == dot_result(
        a.spec_row(r.idx as int / b.col as int),
        b.spec_col(r.idx as int % b.col as int),
    )
}

/// Some reply in `replies` is addressed to destination `d`.
pub open spec fn reply_present(replies: Seq<Reply>, d: int) -> bool {
    exists|k: int| 0 <= k < replies.len() && replies[k].idx == d
}

/// `c` is a well-formed `a.row × b.col` matrix holding the product of `a`
/// and `b`.
pub open spec fn output_ok(a: Matrix<i64>, b: Matrix<i64>, c: Matrix<i64>) -> bool {
    &&& c.wf()
    &&& c.row == a.row
    &&& c.col == b.col
    &&& forall|i: int, j: int|
        0 <= i < a.row && 0 <= j < b.col ==> (#[trigger] c.at(i, j)) as int == cell_value(
            a,
            b,
            i,
            j,
        )
}

/// The shape validation of the orchestrator, first failure first: operand `a`
/// must have nonzero dimensions, then operand `b`, then the inner dimensions
/// must agree.
pub open spec fn shape_check(a: Matrix<i64>, b: Matrix<i64>) -> Result<(), MultiplyError> {
    if a.row == 0 || a.col == 0 {
        Err(MultiplyError::InvalidShape { which: Operand::A, row: a.row, col: a.col })
    } else if b.row == 0 || b.col == 0 {
        Err(MultiplyError::InvalidShape { which: Operand::B, row: b.row, col: b.col })
    } else if a.col != b.row {
        Err(MultiplyError::IncompatibleShapes)
    } else {
        Ok(())
    }
}

/// What `multiply` returns: the shape error that validation finds, or the
/// product matrix.
pub open spec fn multiply_post(
    a: Matrix<i64>,
    b: Matrix<i64>,
    r: Result<Matrix<i64>, MultiplyError>,
) -> bool {
    match shape_check(a, b) {
        Err(e) => r matches Err(e2) && e2 == e,
        Ok(_) => r matches Ok(c) && output_ok(a, b, c),
    }
}

/// Splits a flat destination index `d` of an `m × p` output into its row
/// `d / p` and column `d % p`, both in range.
pub proof fn lemma_dest_split(m: int, p: int, d: int)
    requires
        0 < p,
        0 <= d < m * p,
    ensures
        0 <= d / p < m,
        0 <= d % p < p,
        d == (d / p) * p + d % p,
{
    vstd::arithmetic::div_mod::lemma_fundamental_div_mod(d, p);
    vstd::arithmetic::div_mod::lemma_mod_bound(d, p);
    assert(0 <= d / p < m) by (nonlinear_arith)
        requires
            0 < p,
            0 <= d < m * p,
            d == p * (d / p) + d % p,
            0 <= d % p < p,
    ;
    assert((d / p) * p == p * (d / p)) by (nonlinear_arith);
}

/// Checks the operands' shapes, in the orchestrator's order.
pub fn validate_shapes(a: &Matrix<i64>, b: &Matrix<i64>) -> (r: Result<(), MultiplyError>)
    ensures
        r == shape_check(*a, *b),
        r matches Ok(_) <==> shapes_ok(*a, *b),
{
    if a.row == 0 || a.col == 0 {
        return Err(MultiplyError::InvalidShape { which: Operand::A, row: a.row, col: a.col });
    }
    if b.row == 0 || b.col == 0 {
        return Err(MultiplyError::InvalidShape { which: Operand::B, row: b.row, col: b.col });
    }
    if a.col != b.row {
        return Err(MultiplyError::IncompatibleShapes);
    }
    Ok(())
}

/// Selects the worker for a destination index: the static modulo assignment
/// policy, adequate because all cells of one product cost about the same.
pub fn assign_worker(idx: usize, num_workers: usize) -> (w: usize)
    requires
        num_workers > 0,
    ensures
        w == idx % num_workers,
        w < num_workers,
{
    idx % num_workers
}

/// Builds one task per output cell of `a × b`, in ascending destination
/// order, each owning copies of its row and its column.
pub fn build_tasks(a: &Matrix<i64>, b: &Matrix<i64>) -> (tasks: Vec<Task>)
    requires
        a.wf(),
        b.wf(),
        shapes_ok(*a, *b),
        a.row * b.col <= usize::MAX,
    ensures
        tasks@.len() == a.row * b.col,
        forall|t: int|
            0 <= t < tasks@.len() ==> (#[trigger] tasks@[t]).idx == t && task_ok(
                *a,
                *b,
                tasks@[t],
            ),
{
    let mut tasks: Vec<Task> = Vec::new();
    let mut i: usize = 0;
    while i < a.row
        invariant
            a.wf(),
            b.wf(),
            shapes_ok(*a, *b),
            a.row * b.col <= usize::MAX,
            i <= a.row,
            tasks@.len() == i * b.col,
            forall|t: int|
                0 <= t < tasks@.len() ==> (#[trigger] tasks@[t]).idx == t && task_ok(
                    *a,
                    *b,
                    tasks@[t],
                ),
        decreases a.row - i,
    {
        let mut j: usize = 0;
        while j < b.col
            invariant
                a.wf(),
                b.wf(),
                shapes_ok(*a, *b),
                a.row * b.col <= usize::MAX,
                i < a.row,
                j <= b.col,
                tasks@.len() == i * b.col + j,
                forall|t: int|
                    0 <= t < tasks@.len() ==> (#[trigger] tasks@[t]).idx == t && task_ok(
                        *a,
                        *b,
                        tasks@[t],
                    ),
            decreases b.col - j,
        {
            proof {
                lemma_cell_index(a.row as int, b.col as int, i as int, j as int);
            }
            let idx = i * b.col + j;
            let row = a.row_copy(i);
            let col = b.col_copy(j);
            tasks.push(Task { idx, row, col });
            proof {
                lemma_fundamental_div_mod_converse_div(idx as int, b.col as int, i as int, j as int);
                lemma_fundamental_div_mod_converse_mod(idx as int, b.col as int, i as int, j as int);
                assert(task_ok(*a, *b, tasks@[tasks@.len() - 1]));
            }
            j = j + 1;
        }
        proof {
            assert((i + 1) * (b.col as int) == i * (b.col as int) + b.col) by (nonlinear_arith);
        }
        i = i + 1;
    }
    tasks
}

/// Runs one worker of the pool over the task list: it consumes exactly the
/// tasks that the modulo policy assigns to worker `w`, in queue order, and
/// answers each with one reply carrying the task's dot-product outcome.
pub fn worker_run(tasks: &Vec<Task>, w: usize, num_workers: usize) -> (replies: Vec<Reply>)
    requires
        num_workers > 0,
        forall|t: int|
            0 <= t < tasks@.len() ==> ((#[trigger] tasks@[t]).row@.len() == tasks@[t].col@.len()
                ==> dot_fits(tasks@[t].row@, tasks@[t].col@)),
    ensures
        forall|k: int|
            0 <= k < replies@.len() ==> reply_matches_some(tasks@, #[trigger] replies@[k]),
        forall|k: int| 0 <= k < replies@.len() ==> (#[trigger] replies@[k]).idx % num_workers == w,
        forall|t: int|
            0 <= t < tasks@.len() && (#[trigger] tasks@[t]).idx % num_workers == w
                ==> task_answered(replies@, tasks@[t]),
{
    let mut replies: Vec<Reply> = Vec::new();
    let mut t: usize = 0;
    while t < tasks.len()
        invariant
            num_workers > 0,
            t <= tasks@.len(),
            forall|u: int|
                0 <= u < tasks@.len() ==> ((#[trigger] tasks@[u]).row@.len()
                    == tasks@[u].col@.len() ==> dot_fits(tasks@[u].row@, tasks@[u].col@)),
            forall|k: int|
                0 <= k < replies@.len() ==> reply_matches_some(tasks@, #[trigger] replies@[k]),
            forall|k: int|
                0 <= k < replies@.len() ==> (#[trigger] replies@[k]).idx % num_workers == w,
            forall|u: int|
                0 <= u < t && (#[trigger] tasks@[u]).idx % num_workers == w ==> task_answered(
                    replies@,
                    tasks@[u],
                ),
        decreases tasks@.len() - t,
    {
        if tasks[t].idx % num_workers == w {
            let ghost pre = replies@;
            let value = dot_product_ref(&tasks[t].row, &tasks[t].col);
            let reply = Reply { idx: tasks[t].idx, value };
            replies.push(reply);
            proof {
                assert(reply_for(tasks@[t as int], reply));
                assert(reply_matches_some(tasks@, reply));
                assert forall|u: int|
                    0 <= u < t + 1 && (#[trigger] tasks@[u]).idx % num_workers
                        == w implies task_answered(replies@, tasks@[u]) by {
                    if u < t {
                        let k = choose|k: int| 0 <= k < pre.len() && reply_for(tasks@[u], pre[k]);
                        assert(reply_for(tasks@[u], replies@[k]));
                    } else {
                        assert(reply_for(tasks@[u], replies@[replies@.len() - 1]));
                    }
                };
            }
        }
        t = t + 1;
    }
    replies
}

/// What each reply to a well-built task of the product carries: the exact
/// cell value, which fits in an `i64`.
proof fn lemma_reply_value(a: Matrix<i64>, b: Matrix<i64>, r: Reply)
    requires
        a.wf(),
        b.wf(),
        shapes_ok(a, b),
        product_fits(a, b),
        reply_cell_ok(a, b, r),
    ensures
        r.value matches Ok(v) && v as int == cell_value(
            a,
            b,
            r.idx as int / b.col as int,
            r.idx as int % b.col as int,
        ),
{
    let p = b.col as int;
    let d = r.idx as int;
    lemma_dest_split(a.row as int, p, d);
    let i = d / p;
    let j = d % p;
    lemma_cell_index(a.row as int, a.col as int, i, a.col as int);
    assert(a.spec_row(i).len() == a.col);
    assert(b.spec_col(j).len() == b.row);
    assert(dot_fits(a.spec_row(i), b.spec_col(j)));
    assert(i64::MIN <= dot(a.spec_row(i), b.spec_col(j), a.col as int) <= i64::MAX);
}

/// Multiplies `a` by `b` through the worker pool: validates the shapes,
/// builds one task per output cell, lets each worker answer its queue, and
/// collects the replies into the output buffer by destination index. A reply
/// that reported a failed dot product would surface as `ComputeFailed`
/// rather than be discarded.
pub fn multiply(a: &Matrix<i64>, b: &Matrix<i64>) -> (r: Result<Matrix<i64>, MultiplyError>)
    requires
        a.wf(),
        b.wf(),
        shapes_ok(*a, *b) ==> product_fits(*a, *b),
    ensures
        multiply_post(*a, *b, r),
{
    if let Err(e) = validate_shapes(a, b) {
        return Err(e);
    }
    let total = a.row * b.col;
    let tasks = build_tasks(a, b);
    proof {
        assert forall|t: int|
            0 <= t < tasks@.len() implies ((#[trigger] tasks@[t]).row@.len()
            == tasks@[t].col@.len() ==> dot_fits(tasks@[t].row@, tasks@[t].col@)) by {
            let p = b.col as int;
            lemma_dest_split(a.row as int, p, t);
            lemma_cell_index(a.row as int, a.col as int, t / p, a.col as int);
            assert(dot_fits(a.spec_row(t / p), b.spec_col(t % p)));
        };
    }
    let mut replies: Vec<Reply> = Vec::new();
    let mut w: usize = 0;
    while w < NUM_THREAD
        invariant
            a.wf(),
            b.wf(),
            shapes_ok(*a, *b),
            product_fits(*a, *b),
            total == a.row * b.col,
            tasks@.len() == total,
            forall|t: int|
                0 <= t < tasks@.len() ==> (#[trigger] tasks@[t]).idx == t && task_ok(
                    *a,
                    *b,
                    tasks@[t],
                ),
            forall|t: int|
                0 <= t < tasks@.len() ==> ((#[trigger] tasks@[t]).row@.len()
                    == tasks@[t].col@.len() ==> dot_fits(tasks@[t].row@, tasks@[t].col@)),
            w <= NUM_THREAD,
            forall|k: int| 0 <= k < replies@.len() ==> reply_cell_ok(*a, *b, #[trigger] replies@[k]),
            forall|d: int|
                0 <= d < total && d % (NUM_THREAD as int) < w ==> reply_present(replies@, d),
        decreases NUM_THREAD - w,
    {
        let mut batch = worker_run(&tasks, w, NUM_THREAD);
        let ghost pre = replies@;
        let ghost bat = batch@;
        proof {
            assert forall|k: int| 0 <= k < bat.len() implies reply_cell_ok(*a, *b, bat[k]) by {
                let t = choose|t: int| 0 <= t < tasks@.len() && reply_for(tasks@[t], bat[k]);
                assert(tasks@[t].idx == t && task_ok(*a, *b, tasks@[t]));
            };
        }
        replies.append(&mut batch);
        proof {
            assert(replies@ == pre + bat);
            assert forall|k: int|
                0 <= k < replies@.len() implies reply_cell_ok(*a, *b, #[trigger] replies@[k]) by {
                if k < pre.len() {
                    assert(replies@[k] == pre[k]);
                } else {
                    assert(replies@[k] == bat[k - pre.len()]);
                }
            };
            assert forall|d: int|
                0 <= d < total && d % (NUM_THREAD as int) < w + 1 implies reply_present(
                replies@,
                d,
            ) by {
                if d % (NUM_THREAD as int) < w {
                    assert(reply_present(pre, d));
                    let k = choose|k: int| 0 <= k < pre.len() && (#[trigger] pre[k]).idx == d;
                    assert(replies@[k] == pre[k]);
                    assert(replies@[k].idx == d);
                } else {
                    assert(tasks@[d].idx == d);
                    assert(tasks@[d].idx % NUM_THREAD == w);
                    assert(task_answered(bat, tasks@[d]));
                    let k = choose|k: int|
                        0 <= k < bat.len() && #[trigger] reply_for(tasks@[d], bat[k]);
                    assert(replies@[pre.len() + k] == bat[k]);
                    assert(replies@[pre.len() + k].idx == d);
                }
            };
        }
        w = w + 1;
    }
    proof {
        assert forall|d: int| 0 <= d < total implies reply_present(replies@, d) by {
            vstd::arithmetic::div_mod::lemma_mod_bound(d, NUM_THREAD as int);
        };
    }
    let mut data: Vec<i64> = Vec::new();
    while data.len() < total
        invariant
            data@.len() <= total,
        decreases total - data@.len(),
    {
        data.push(0);
    }
    let mut q: usize = 0;
    while q < replies.len()
        invariant
            a.wf(),
            b.wf(),
            shapes_ok(*a, *b),
            product_fits(*a, *b),
            total == a.row * b.col,
            data@.len() == total,
            q <= replies@.len(),
            forall|k: int| 0 <= k < replies@.len() ==> reply_cell_ok(*a, *b, #[trigger] replies@[k]),
            forall|d: int|
                0 <= d < total && reply_present(replies@.take(q as int), d) ==> (#[trigger] data@[d])
                    as int == cell_value(*a, *b, d / (b.col as int), d % (b.col as int)),
        decreases replies@.len() - q,
    {
        let idx = replies[q].idx;
        let value = replies[q].value;
        proof {
            lemma_reply_value(*a, *b, replies@[q as int]);
        }
        let ghost before = data@;
        match value {
            Ok(v) => {
                data.set(idx, v);
                proof {
                    assert forall|d: int|
                        0 <= d < total && reply_present(replies@.take(q + 1), d) implies (
                    #[trigger] data@[d]) as int == cell_value(
                        *a,
                        *b,
                        d / (b.col as int),
                        d % (b.col as int),
                    ) by {
                        let s = replies@.take(q + 1);
                        let k = choose|k: int| 0 <= k < s.len() && (#[trigger] s[k]).idx == d;
                        if d == idx {
                            assert(data@[d] == v);
                        } else {
                            assert(replies@.take(q as int)[k].idx == d);
                            assert(reply_present(replies@.take(q as int), d));
                            assert(data@[d] == before[d]);
                        }
                    };
                }
            },
            Err(e) => {
                return Err(MultiplyError::ComputeFailed { cause: e });
            },
        }
        q = q + 1;
    }
    let c = Matrix { data, row: a.row, col: b.col };
    proof {
        assert(replies@.take(replies@.len() as int) =~= replies@);
        assert forall|i: int, j: int|
            0 <= i < a.row && 0 <= j < b.col implies (#[trigger] c.at(i, j)) as int == cell_value(
            *a,
            *b,
            i,
            j,
        ) by {
            let p = b.col as int;
            lemma_cell_index(a.row as int, b.col as int, i, j);
            let d = i * p + j;
            lemma_fundamental_div_mod_converse_div(d, p, i, j);
            lemma_fundamental_div_mod_converse_mod(d, p, i, j);
            assert(reply_present(replies@, d));
        };
        assert(output_ok(*a, *b, c));
    }
    Ok(c)
}

/// Determinism of multiplication: the contract of `multiply` pins the whole
/// result as a function of the operands' dimensions and contents, so two
/// calls on operands with equal contents agree — the same error, or product
/// matrices with identical buffers — independently of worker timing.
pub proof fn lemma_multiply_deterministic(
    a1: Matrix<i64>,
    b1: Matrix<i64>,
    a2: Matrix<i64>,
    b2: Matrix<i64>,
    r1: Result<Matrix<i64>, MultiplyError>,
    r2: Result<Matrix<i64>, MultiplyError>,
)
    requires
        a1.data@ == a2.data@,
        a1.row == a2.row,
        a1.col == a2.col,
        b1.data@ == b2.data@,
        b1.row == b2.row,
        b1.col == b2.col,
        multiply_post(a1, b1, r1),
        multiply_post(a2, b2, r2),
    ensures
        r1 matches Ok(c1) ==> (r2 matches Ok(c2) && c1.data@ == c2.data@ && c1.row == c2.row
            && c1.col == c2.col),
        r1 matches Err(e1) ==> (r2 matches Err(e2) && e1 == e2),
{
    match r1 {
        Ok(c1) => {
            let c2 = r2->Ok_0;
            assert(r2 matches Ok(c) && output_ok(a2, b2, c));
            assert forall|d: int| 0 <= d < c1.data@.len() implies c1.data@[d] == c2.data@[d] by {
                let p = b1.col as int;
                lemma_dest_split(a1.row as int, p, d);
                let i = d / p;
                let j = d % p;
                assert(c1.at(i, j) as int == cell_value(a1, b1, i, j));
                assert(c2.at(i, j) as int == cell_value(a2, b2, i, j));
                assert(a1.spec_row(i) == a2.spec_row(i));
                assert(b1.spec_col(j) == b2.spec_col(j));
            };
            assert(c1.data@ =~= c2.data@);
        },
        Err(_) => {},
    }
}

} // verus!
