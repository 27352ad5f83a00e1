use vstd::prelude::*;

verus! {

/// The transpose of a 32x32 matrix held row-major in a flat sequence:
/// entry (i, j) of the result is entry (j, i) of the input.
pub open spec fn transpose_spec(m: Seq<u32>) -> Seq<u32> {
    Seq::new(1024, |k: int| m[(k % 32) * 32 + k / 32])
}

/// Entry (i, j) of the transpose is entry (j, i) of the input.
pub proof fn lemma_transpose_entry(m: Seq<u32>, i: int, j: int)
    requires
        m.len() == 1024,
        0 <= i < 32,
        0 <= j < 32,
    ensures
        transpose_spec(m)[i * 32 + j] == m[j * 32 + i],
{
    assert((i * 32 + j) % 32 == j && (i * 32 + j) / 32 == i) by (nonlinear_arith)
        requires
            0 <= i < 32,
            0 <= j < 32,
    ;
}

/// Transposing twice gives the matrix back: the two transposes of the
/// two-pass transform bracket the second pass and cancel.
pub proof fn lemma_transpose_involution(m: Seq<u32>)
    requires
        m.len() == 1024,
    ensures
        transpose_spec(transpose_spec(m)) == m,
{
    assert forall|k: int| 0 <= k < 1024 implies transpose_spec(transpose_spec(m))[k] == m[k] by {
        let x = (k % 32) * 32 + k / 32;
        assert(x % 32 == k / 32 && x / 32 == k % 32 && (k / 32) * 32 + k % 32 == k)
            by (nonlinear_arith)
            requires
                0 <= k < 1024,
                x == (k % 32) * 32 + k / 32,
        ;
    }
    assert(transpose_spec(transpose_spec(m)) =~= m);
}

/// Transpose a 32x32 matrix held row-major in a flat vector.
pub fn transpose32(m: &Vec<u32>) -> (t: Vec<u32>)
    requires
        m@.len() == 1024,
    ensures
        t@ == transpose_spec(m@),
{
    let mut t: Vec<u32> = Vec::new();
    let mut i: usize = 0;
    while i < 32
        invariant
            i <= 32,
            m@.len() == 1024,
            t@.len() == i * 32,
            forall|k: int| 0 <= k < i * 32 ==> t@[k] == m@[(k % 32) * 32 + k / 32],
        decreases 32 - i,
    {
        let mut j: usize = 0;
        while j < 32
            invariant
                i < 32,
                j <= 32,
                m@.len() == 1024,
                t@.len() == i * 32 + j,
                forall|k: int| 0 <= k < i * 32 + j ==> t@[k] == m@[(k % 32) * 32 + k / 32],
            decreases 32 - j,
        {
            let x = m[j * 32 + i];
            t.push(x);
            proof {
                let k = i * 32 + j;
                assert((k % 32) * 32 + k / 32 == j * 32 + i) by (nonlinear_arith)
                    requires
                        0 <= i < 32,
                        0 <= j < 32,
                        k == i * 32 + j,
                ;
            }
            j = j + 1;
        }
        i = i + 1;
    }
    proof {
        assert(t@ =~= transpose_spec(m@));
    }
    t
}

/// The rows of a 32x32 matrix, in order, each of length 32.
pub open spec fn row_of(m: Seq<u32>, i: int) -> Seq<u32> {
    m.subrange(i * 32, i * 32 + 32)
}

/// One row pass of the transform: apply a fixed row transform `g`
/// to every row of the matrix, keeping the rows in place.
pub open spec fn rows_mapped(g: spec_fn(Seq<u32>) -> Seq<u32>, m: Seq<u32>) -> Seq<u32> {
    Seq::new(1024, |k: int| g(row_of(m, k / 32))[k % 32])
}

/// The shape of the full two-dimensional transform: a row pass, a
/// transpose, a second row pass, and a final transpose back. The two
/// transposes always bracket the second pass, which is what turns a
/// row-only transform into a transform along both axes.
pub open spec fn transform_2d(g: spec_fn(Seq<u32>) -> Seq<u32>, m: Seq<u32>) -> Seq<u32> {
    transpose_spec(rows_mapped(g, transpose_spec(rows_mapped(g, m))))
}

/// Whatever the row transform does, the two-dimensional transform of a
/// 32x32 matrix is again exactly 32x32.
pub proof fn lemma_transform_2d_len(g: spec_fn(Seq<u32>) -> Seq<u32>, m: Seq<u32>)
    ensures
        transform_2d(g, m).len() == 1024,
{
}

/// The two-pass transform as a machine. The 1D row transform works on
/// floating-point numbers, which the caller owns; everything else is
/// decided here. The caller repeatedly takes the next untransformed
/// row with `next_row`, applies the row transform, and hands the
/// result to `put_row`; the machine keeps the row order, transposes
/// the collected matrix when the first pass completes so that the
/// second pass runs down the columns, and transposes back when the
/// second pass completes.
pub struct Transform2d {
    matrix: Vec<u32>,
    filled: Vec<u32>,
    pass: u8,
}

impl Transform2d {
    /// The matrix the current pass draws its rows from; after both
    /// passes, the finished coefficient matrix.
    pub closed spec fn matrix_view(&self) -> Seq<u32> {
        self.matrix@
    }

    /// The transformed rows collected in the current pass, flattened.
    pub closed spec fn filled_view(&self) -> Seq<u32> {
        self.filled@
    }

    /// Which row pass is running: 0 and 1, then 2 once finished.
    pub closed spec fn pass_no(&self) -> u8 {
        self.pass
    }

    /// How many rows of the current pass are done.
    pub open spec fn rows_done(&self) -> int {
        self.filled_view().len() as int / 32
    }

    /// Well-formed: a 32x32 matrix, whole rows collected, both passes
    /// leave nothing pending.
    pub open spec fn wf(&self) -> bool {
        &&& self.matrix_view().len() == 1024
        &&& self.pass_no() <= 2
        &&& self.filled_view().len() % 32 == 0
        &&& self.filled_view().len() < 1024
        &&& (self.pass_no() == 2 ==> self.filled_view().len() == 0)
    }

    /// Begin the transform of a 32x32 matrix of sample bit patterns.
    pub fn start(samples: Vec<u32>) -> (t: Transform2d)
        requires
            samples@.len() == 1024,
        ensures
            t.wf(),
            t.pass_no() == 0,
            t.filled_view() == Seq::<u32>::empty(),
            t.matrix_view() == samples@,
    {
        Transform2d { matrix: samples, filled: Vec::new(), pass: 0 }
    }

    /// The next row awaiting the 1D row transform, or nothing once both
    /// passes are done.
    pub fn next_row(&self) -> (r: Option<Vec<u32>>)
        requires
            self.wf(),
        ensures
            match r {
                Some(row) => self.pass_no() < 2 && row@ == row_of(
                    self.matrix_view(),
                    self.rows_done(),
                ),
                None => self.pass_no() == 2,
            },
    {
        if self.pass == 2 {
            return None;
        }
        let i = self.filled.len() / 32;
        proof {
            assert(self.filled@.len() <= 992 && i <= 31) by (nonlinear_arith)
                requires
                    self.filled@.len() % 32 == 0,
                    self.filled@.len() < 1024,
                    i == self.filled@.len() as int / 32,
            ;
        }
        let mut row: Vec<u32> = Vec::new();
        let mut j: usize = 0;
        while j < 32
            invariant
                i <= 31,
                j <= 32,
                self.matrix@.len() == 1024,
                row@.len() == j,
                forall|t: int| 0 <= t < j ==> row@[t] == self.matrix@[i * 32 + t],
            decreases 32 - j,
        {
            proof {
                assert(i * 32 + j < 1024) by (nonlinear_arith)
                    requires
                        0 <= i <= 31,
                        0 <= j < 32,
                ;
            }
            let x = self.matrix[i * 32 + j];
            row.push(x);
            j = j + 1;
        }
        proof {
            assert(row@ =~= row_of(self.matrix_view(), self.rows_done()));
        }
        Some(row)
    }

    /// Hand back the transformed row. Until a pass has its 32 rows the
    /// row is appended; the 32nd row completes the pass, and the
    /// collected matrix, transposed, becomes the source of the second
    /// pass, or, after the second pass, the finished matrix.
    pub fn put_row(&mut self, row: &Vec<u32>)
        requires
            old(self).wf(),
            old(self).pass_no() < 2,
            row@.len() == 32,
        ensures
            final(self).wf(),
            final(self).pass_no() == (if old(self).rows_done() == 31 {
                old(self).pass_no() + 1
            } else {
                old(self).pass_no() as int
            }),
            old(self).rows_done() < 31 ==> final(self).matrix_view() == old(self).matrix_view()
                && final(self).filled_view() == old(self).filled_view() + row@,
            old(self).rows_done() == 31 ==> final(self).filled_view() == Seq::<u32>::empty()
                && final(self).matrix_view() == transpose_spec(old(self).filled_view() + row@),
    {
        proof {
            let n = old(self).filled_view().len() as int;
            assert(n <= 992 && (n == 992 <==> n / 32 == 31) && (n != 992 ==> n <= 960) && (n + 32)
                % 32 == 0) by (nonlinear_arith)
                requires
                    n % 32 == 0,
                    0 <= n < 1024,
            ;
        }
        let mut j: usize = 0;
        while j < 32
            invariant
                j <= 32,
                row@.len() == 32,
                self.matrix == old(self).matrix,
                self.pass == old(self).pass,
                self.filled@ == old(self).filled@ + row@.take(j as int),
                old(self).filled@.len() <= 992,
            decreases 32 - j,
        {
            let x = row[j];
            self.filled.push(x);
            proof {
                assert(row@.take(j + 1) =~= row@.take(j as int).push(row@[j as int]));
            }
            j = j + 1;
        }
        proof {
            assert(row@.take(32) =~= row@);
        }
        if self.filled.len() == 1024 {
            let t = transpose32(&self.filled);
            self.matrix = t;
            self.filled = Vec::new();
            self.pass = self.pass + 1;
        }
    }

    /// The finished coefficient matrix.
    pub fn result(self) -> (r: Vec<u32>)
        requires
            self.wf(),
            self.pass_no() == 2,
        ensures
            r@ == self.matrix_view(),
            r@.len() == 1024,
    {
        self.matrix
    }
}

/// The machine's state, tied to a fixed row transform `g` and the
/// matrix `m0` it started from: during the first pass the collected
/// rows are a prefix of the `g`-transformed rows of `m0`; during the
/// second they are a prefix of the `g`-transformed rows of the
/// transposed first pass; at the end the matrix is the full two-pass
/// transform.
pub open spec fn machine_tracks(
    t: Transform2d,
    g: spec_fn(Seq<u32>) -> Seq<u32>,
    m0: Seq<u32>,
) -> bool {
    &&& (t.pass_no() == 0 ==> t.matrix_view() == m0 && t.filled_view() == rows_mapped(
        g,
        m0,
    ).take(t.filled_view().len() as int))
    &&& (t.pass_no() == 1 ==> t.matrix_view() == transpose_spec(rows_mapped(g, m0))
        && t.filled_view() == rows_mapped(g, t.matrix_view()).take(t.filled_view().len() as int))
    &&& (t.pass_no() == 2 ==> t.matrix_view() == transform_2d(g, m0))
}

/// A freshly started machine tracks its own starting matrix.
pub proof fn lemma_start_tracks(t: Transform2d, g: spec_fn(Seq<u32>) -> Seq<u32>, m0: Seq<u32>)
    requires
        t.wf(),
        t.pass_no() == 0,
        t.filled_view() == Seq::<u32>::empty(),
        t.matrix_view() == m0,
    ensures
        machine_tracks(t, g, m0),
{
    assert(rows_mapped(g, m0).take(0) =~= Seq::<u32>::empty());
}

/// Appending the transformed rows of a matrix one after another, in
/// order, builds the row pass up prefix by prefix.
proof fn lemma_rows_mapped_extend(g: spec_fn(Seq<u32>) -> Seq<u32>, m: Seq<u32>, n: int)
    requires
        0 <= n < 1024,
        n % 32 == 0,
        g(row_of(m, n / 32)).len() == 32,
    ensures
        rows_mapped(g, m).take(n + 32) == rows_mapped(g, m).take(n) + g(row_of(m, n / 32)),
{
    let lhs = rows_mapped(g, m).take(n + 32);
    let rhs = rows_mapped(g, m).take(n) + g(row_of(m, n / 32));
    assert forall|k: int| 0 <= k < n + 32 implies lhs[k] == rhs[k] by {
        if k >= n {
            assert(k / 32 == n / 32 && k % 32 == k - n) by (nonlinear_arith)
                requires
                    n <= k < n + 32,
                    n % 32 == 0,
            ;
        }
    }
    assert(lhs =~= rhs);
}

/// Driving the machine one step with the `g`-transformed row it asked
/// for keeps it on track: the law that the caller's loop, which only
/// evaluates `g`, cannot steer the transform anywhere but to
/// `transform_2d(g, m0)`.
pub proof fn lemma_step_tracks(
    pre: Transform2d,
    post: Transform2d,
    g: spec_fn(Seq<u32>) -> Seq<u32>,
    m0: Seq<u32>,
    row: Seq<u32>,
)
    requires
        pre.wf(),
        post.wf(),
        machine_tracks(pre, g, m0),
        pre.pass_no() < 2,
        row == g(row_of(pre.matrix_view(), pre.rows_done())),
        row.len() == 32,
        post.pass_no() == (if pre.rows_done() == 31 {
            pre.pass_no() + 1
        } else {
            pre.pass_no() as int
        }),
        pre.rows_done() < 31 ==> post.matrix_view() == pre.matrix_view() && post.filled_view()
            == pre.filled_view() + row,
        pre.rows_done() == 31 ==> post.filled_view() == Seq::<u32>::empty() && post.matrix_view()
            == transpose_spec(pre.filled_view() + row),
    ensures
        machine_tracks(post, g, m0),
{
    let n = pre.filled_view().len() as int;
    assert(n % 32 == 0 && n < 1024 && n / 32 == pre.rows_done() && (pre.rows_done() == 31 <==> n
        == 992)) by (nonlinear_arith)
        requires
            pre.filled_view().len() % 32 == 0,
            pre.filled_view().len() < 1024,
            n == pre.filled_view().len() as int,
            pre.rows_done() == n / 32,
    ;
    let src = pre.matrix_view();
    lemma_rows_mapped_extend(g, src, n);
    assert(pre.filled_view() == rows_mapped(g, src).take(n));
    if pre.rows_done() == 31 {
        assert(pre.filled_view() + row == rows_mapped(g, src).take(1024));
        assert(rows_mapped(g, src).take(1024) =~= rows_mapped(g, src));
        assert(post.matrix_view() == transpose_spec(rows_mapped(g, src)));
        if pre.pass_no() == 1 {
            assert(src == transpose_spec(rows_mapped(g, m0)));
            assert(post.matrix_view() == transform_2d(g, m0));
        } else {
            assert(rows_mapped(g, post.matrix_view()).take(0) =~= Seq::<u32>::empty());
        }
    } else {
        assert(post.filled_view() == rows_mapped(g, src).take(n + 32));
    }
}

} // verus!
