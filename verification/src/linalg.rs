//! Vectors and matrices of [`Scalar`]s.
use crate::scalar::Scalar;
use vstd::prelude::*;

verus! {

#[derive(Clone, Copy, Debug, PartialEq, Eq, Structural)]
pub struct Vector2 {
    pub x: Scalar,
    pub y: Scalar,
}

#[derive(Clone, Copy, Debug, PartialEq, Eq, Structural)]
pub struct Vector3 {
    pub x: Scalar,
    pub y: Scalar,
    pub z: Scalar,
}

#[derive(Clone, Copy, Debug, PartialEq, Eq, Structural)]
pub struct Vector4 {
    pub x: Scalar,
    pub y: Scalar,
    pub z: Scalar,
    pub w: Scalar,
}

/// A rotation, as a unit quaternion.
#[derive(Clone, Copy, Debug, PartialEq, Eq, Structural)]
pub struct Quaternion {
    pub w: Scalar,
    pub i: Scalar,
    pub j: Scalar,
    pub k: Scalar,
}

/// A 3x3 matrix, by rows.
#[derive(Clone, Copy, Debug, PartialEq, Eq, Structural)]
pub struct Matrix3x3 {
    pub r0: Vector3,
    pub r1: Vector3,
    pub r2: Vector3,
}

/// A 4x4 matrix, by rows.
#[derive(Clone, Copy, Debug, PartialEq, Eq, Structural)]
pub struct Matrix4x4 {
    pub r0: Vector4,
    pub r1: Vector4,
    pub r2: Vector4,
    pub r3: Vector4,
}

/// The entries of a matrix, by rows.
pub type Entries = Seq<Seq<Scalar>>;

/// A matrix of any shape.
#[derive(Clone, Debug)]
pub struct Matrix {
    rows: Vec<Vec<Scalar>>,
    ncols: usize,
}

impl Vector3 {
    /// The zero vector.
    pub open spec fn spec_zero() -> Vector3 {
        Vector3 { x: Scalar::spec_zero(), y: Scalar::spec_zero(), z: Scalar::spec_zero() }
    }

    /// The entry at index `i`.
    pub open spec fn at(self, i: int) -> Scalar {
        if i == 0 {
            self.x
        } else if i == 1 {
            self.y
        } else {
            self.z
        }
    }

    /// The vector with three equal entries.
    pub open spec fn spec_element(s: Scalar) -> Vector3 {
        Vector3 { x: s, y: s, z: s }
    }

    /// The vector with three equal entries.
    pub fn from_element(s: Scalar) -> (r: Vector3)
        ensures
            r == Vector3::spec_element(s),
    {
        Vector3 { x: s, y: s, z: s }
    }

    /// The zero vector.
    pub fn zeros() -> (r: Vector3)
        ensures
            r == Vector3::spec_zero(),
    {
        Vector3::from_element(Scalar::zero())
    }

    /// The vector with every entry negated.
    pub open spec fn spec_neg(self) -> Vector3 {
        Vector3 { x: self.x.opposite(), y: self.y.opposite(), z: self.z.opposite() }
    }

    /// The vector with every entry negated.
    pub fn neg(&self) -> (r: Vector3)
        ensures
            r == self.spec_neg(),
    {
        Vector3 { x: self.x.neg(), y: self.y.neg(), z: self.z.neg() }
    }

    /// Whether both hold the same three numbers.
    pub fn eq_value(&self, other: &Vector3) -> (r: bool)
        ensures
            r == (self.x.same_number(other.x) && self.y.same_number(other.y) && self.z.same_number(
                other.z,
            )),
    {
        self.x.eq_value(&other.x) && self.y.eq_value(&other.y) && self.z.eq_value(&other.z)
    }
}

impl Vector4 {
    /// The entry at index `i`.
    pub open spec fn at(self, i: int) -> Scalar {
        if i == 0 {
            self.x
        } else if i == 1 {
            self.y
        } else if i == 2 {
            self.z
        } else {
            self.w
        }
    }
}

impl Quaternion {
    /// The rotation that moves nothing.
    pub open spec fn spec_identity() -> Quaternion {
        Quaternion {
            w: Scalar::spec_one(),
            i: Scalar::spec_zero(),
            j: Scalar::spec_zero(),
            k: Scalar::spec_zero(),
        }
    }

    /// The rotation that moves nothing.
    pub fn identity() -> (r: Quaternion)
        ensures
            r == Quaternion::spec_identity(),
    {
        Quaternion { w: Scalar::one(), i: Scalar::zero(), j: Scalar::zero(), k: Scalar::zero() }
    }
}

impl Matrix3x3 {
    /// The identity matrix.
    pub open spec fn spec_identity() -> Matrix3x3 {
        Matrix3x3 {
            r0: Vector3 { x: Scalar::spec_one(), y: Scalar::spec_zero(), z: Scalar::spec_zero() },
            r1: Vector3 { x: Scalar::spec_zero(), y: Scalar::spec_one(), z: Scalar::spec_zero() },
            r2: Vector3 { x: Scalar::spec_zero(), y: Scalar::spec_zero(), z: Scalar::spec_one() },
        }
    }

    /// The zero matrix.
    pub open spec fn spec_zero() -> Matrix3x3 {
        Matrix3x3 { r0: Vector3::spec_zero(), r1: Vector3::spec_zero(), r2: Vector3::spec_zero() }
    }

    /// The entries of a 3x3 matrix, by rows.
    pub open spec fn entries(b: Matrix3x3) -> Entries {
        Seq::new(3, |i: int| Seq::new(3, |j: int| b.at(i, j)))
    }

    /// The entry at row `i` and column `j`.
    pub open spec fn at(self, i: int, j: int) -> Scalar {
        if i == 0 {
            self.r0.at(j)
        } else if i == 1 {
            self.r1.at(j)
        } else {
            self.r2.at(j)
        }
    }

    /// The matrix with these entries, row by row.
    pub fn new(
        m00: Scalar,
        m01: Scalar,
        m02: Scalar,
        m10: Scalar,
        m11: Scalar,
        m12: Scalar,
        m20: Scalar,
        m21: Scalar,
        m22: Scalar,
    ) -> (r: Matrix3x3)
        ensures
            r.r0 == (Vector3 { x: m00, y: m01, z: m02 }),
            r.r1 == (Vector3 { x: m10, y: m11, z: m12 }),
            r.r2 == (Vector3 { x: m20, y: m21, z: m22 }),
    {
        Matrix3x3 {
            r0: Vector3 { x: m00, y: m01, z: m02 },
            r1: Vector3 { x: m10, y: m11, z: m12 },
            r2: Vector3 { x: m20, y: m21, z: m22 },
        }
    }

    /// The matrix with every entry negated.
    pub open spec fn spec_neg(self) -> Matrix3x3 {
        Matrix3x3 { r0: self.r0.spec_neg(), r1: self.r1.spec_neg(), r2: self.r2.spec_neg() }
    }

    /// The matrix with every entry negated.
    pub fn neg(&self) -> (r: Matrix3x3)
        ensures
            r == self.spec_neg(),
    {
        Matrix3x3 { r0: self.r0.neg(), r1: self.r1.neg(), r2: self.r2.neg() }
    }

    /// The zero matrix.
    pub fn zeros() -> (r: Matrix3x3)
        ensures
            r == Matrix3x3::spec_zero(),
    {
        Matrix3x3 { r0: Vector3::zeros(), r1: Vector3::zeros(), r2: Vector3::zeros() }
    }

    /// The identity matrix.
    pub fn identity() -> (r: Matrix3x3)
        ensures
            r == Matrix3x3::spec_identity(),
            forall|i: int, j: int|
                0 <= i < 3 && 0 <= j < 3 ==> #[trigger] r.at(i, j) == Matrix::identity_entry(i, j),
    {
        let o = Scalar::one();
        let z = Scalar::zero();
        Matrix3x3::new(o, z, z, z, o, z, z, z, o)
    }
}

impl Matrix4x4 {
    /// The identity matrix.
    pub open spec fn spec_identity() -> Matrix4x4 {
        let o = Scalar::spec_one();
        let z = Scalar::spec_zero();
        Matrix4x4 {
            r0: Vector4 { x: o, y: z, z, w: z },
            r1: Vector4 { x: z, y: o, z, w: z },
            r2: Vector4 { x: z, y: z, z: o, w: z },
            r3: Vector4 { x: z, y: z, z, w: o },
        }
    }

    /// The entry at row `i` and column `j`.
    pub open spec fn at(self, i: int, j: int) -> Scalar {
        if i == 0 {
            self.r0.at(j)
        } else if i == 1 {
            self.r1.at(j)
        } else if i == 2 {
            self.r2.at(j)
        } else {
            self.r3.at(j)
        }
    }

    /// The identity matrix.
    pub fn identity() -> (r: Matrix4x4)
        ensures
            r == Matrix4x4::spec_identity(),
            forall|i: int, j: int|
                0 <= i < 4 && 0 <= j < 4 ==> #[trigger] r.at(i, j) == Matrix::identity_entry(i, j),
    {
        let o = Scalar::one();
        let z = Scalar::zero();
        Matrix4x4 {
            r0: Vector4 { x: o, y: z, z, w: z },
            r1: Vector4 { x: z, y: o, z, w: z },
            r2: Vector4 { x: z, y: z, z: o, w: z },
            r3: Vector4 { x: z, y: z, z, w: o },
        }
    }

    /// The matrix with the sixteen given entries, row by row.
    pub fn from_row_slice(data: &Vec<Scalar>) -> (r: Matrix4x4)
        requires
            data@.len() == 16,
        ensures
            forall|i: int, j: int|
                0 <= i < 4 && 0 <= j < 4 ==> #[trigger] r.at(i, j) == data@[4 * i + j],
    {
        Matrix4x4 {
            r0: Vector4 { x: data[0], y: data[1], z: data[2], w: data[3] },
            r1: Vector4 { x: data[4], y: data[5], z: data[6], w: data[7] },
            r2: Vector4 { x: data[8], y: data[9], z: data[10], w: data[11] },
            r3: Vector4 { x: data[12], y: data[13], z: data[14], w: data[15] },
        }
    }
}

/// What a 3x3 block holds after another was written: what was written, if it is
/// that block; what it held before, if the two share no entry.
proof fn lemma_block_after_write(
    m: Entries,
    cols: nat,
    row: int,
    col: int,
    b: Matrix3x3,
    r: int,
    c: int,
)
    requires
        Matrix::has_shape(m, m.len(), cols),
        Matrix::block_inside(m.len(), cols, row, col),
        Matrix::block_inside(m.len(), cols, r, c),
        Matrix::same_or_apart(row, col, r, c),
    ensures
        Matrix::spec_block3(Matrix::with_block(m, row, col, Matrix3x3::entries(b)), r, c) == (if r
            == row && c == col {
            b
        } else {
            Matrix::spec_block3(m, r, c)
        }),
{
    reveal(Matrix::with_block);
    let e = Matrix3x3::entries(b);
    let w = Matrix::with_block(m, row, col, e);
    assert forall|i: int, j: int| r <= i < r + 3 && c <= j < c + 3 implies #[trigger] w[i][j] == (if r
        == row && c == col {
        b.at(i - r, j - c)
    } else {
        m[i][j]
    }) by {
        assert(m[i].len() == cols);
        if row <= i < row + 3 {
            assert(e[i - row].len() == 3);
        }
    }
    let x = Matrix::spec_block3(w, r, c);
    assert(x.r0.x == w[r][c] && x.r0.y == w[r][c + 1] && x.r0.z == w[r][c + 2]);
    assert(x.r1.x == w[r + 1][c] && x.r1.y == w[r + 1][c + 1] && x.r1.z == w[r + 1][c + 2]);
    assert(x.r2.x == w[r + 2][c] && x.r2.y == w[r + 2][c + 1] && x.r2.z == w[r + 2][c + 2]);
}

/// A vector of equal entries has the same number everywhere, a matrix of zeros has
/// zeros, and an identity matrix has ones where row and column agree.
pub proof fn plain_vectors_and_matrices(s: Scalar, n: nat, cols: nat, i: int, j: int, k: int)
    requires
        0 <= i < n,
        0 <= j < cols,
        0 <= k < n,
    ensures
        Vector3::spec_element(s).x == s && Vector3::spec_element(s).y == s
            && Vector3::spec_element(s).z == s,
        Vector3::spec_zero() == Vector3::spec_element(Scalar { bits: 0 }),
        Matrix::spec_zeros(n, cols)[i][j] == (Scalar { bits: 0 }),
        Matrix::has_shape(Matrix::spec_zeros(n, cols), n, cols),
        Matrix::spec_identity(n)[i][k] == (if i == k {
            Scalar::spec_one()
        } else {
            Scalar::spec_zero()
        }),
        Matrix::has_shape(Matrix::spec_identity(n), n, n),
        Quaternion::spec_identity().w == Scalar::spec_one(),
        Quaternion::spec_identity().i == Scalar::spec_zero(),
        Quaternion::spec_identity().j == Scalar::spec_zero(),
        Quaternion::spec_identity().k == Scalar::spec_zero(),
{
}

/// A 4x4 matrix is counted by rows as well, and its identity moves nothing.
pub proof fn identity_pose_moves_nothing(i: int, j: int)
    requires
        0 <= i < 4,
        0 <= j < 4,
    ensures
        Matrix4x4::spec_identity().at(i, j) == (if i == j {
            Scalar::spec_one()
        } else {
            Scalar::spec_zero()
        }),
{
}

/// A block is read entry by entry from its corner on.
pub proof fn blocks_are_read_from_their_corner(m: Entries, row: int, col: int, i: int, j: int)
    requires
        0 <= i < 3,
        0 <= j < 3,
    ensures
        Matrix::spec_block3(m, row, col).at(i, j) == m[row + i][col + j],
{
}

/// Rows and columns of a small matrix are counted as those of a large one.
pub proof fn small_matrices_are_counted_by_rows(b: Matrix3x3, i: int, j: int)
    requires
        0 <= i < 3,
        0 <= j < 3,
    ensures
        Matrix3x3::entries(b)[i][j] == b.at(i, j),
        Matrix::spec_block3(Matrix3x3::entries(b), 0, 0) == b,
        b.spec_neg().at(i, j).value() == -b.at(i, j).value(),
        Matrix3x3::spec_identity().at(i, j) == (if i == j {
            Scalar::spec_one()
        } else {
            Scalar::spec_zero()
        }),
        Matrix3x3::spec_zero().at(i, j).value() == 0,
{
    crate::scalar::signs_are_mirrored(b.at(i, j));
}

/// A block that is written changes what it covers and nothing else.
pub proof fn written_blocks_cover_their_place(
    m: Entries,
    row: int,
    col: int,
    b: Entries,
    i: int,
    j: int,
)
    requires
        0 <= i < m.len(),
        0 <= j < m[i].len(),
        Matrix::has_shape(b, b.len(), 3),
    ensures
        Matrix::with_block(m, row, col, b).len() == m.len(),
        Matrix::with_block(m, row, col, b)[i].len() == m[i].len(),
        row <= i < row + b.len() && col <= j < col + 3 ==> Matrix::with_block(
            m,
            row,
            col,
            b,
        )[i][j] == b[i - row][j - col],
        !(row <= i < row + b.len() && col <= j < col + 3) ==> Matrix::with_block(
            m,
            row,
            col,
            b,
        )[i][j] == m[i][j],
{
    reveal(Matrix::with_block);
    if row <= i < row + b.len() {
        assert(b[i - row].len() == 3);
    }
}

impl View for Matrix {
    type V = Entries;

    closed spec fn view(&self) -> Entries {
        Seq::new(self.rows@.len(), |i: int| self.rows@[i]@)
    }
}

impl Matrix {
    /// Whether `m` has `rows` rows of `cols` entries.
    pub open spec fn has_shape(m: Entries, rows: nat, cols: nat) -> bool {
        &&& m.len() == rows
        &&& forall|i: int| 0 <= i < rows ==> #[trigger] m[i].len() == cols
    }

    /// The entry of an identity matrix at row `i` and column `j`.
    pub open spec fn identity_entry(i: int, j: int) -> Scalar {
        if i == j {
            Scalar::spec_one()
        } else {
            Scalar::spec_zero()
        }
    }

    /// The matrix of zeros.
    pub open spec fn spec_zeros(rows: nat, cols: nat) -> Entries {
        Seq::new(rows, |i: int| Seq::new(cols, |j: int| Scalar::spec_zero()))
    }

    /// The identity matrix.
    pub open spec fn spec_identity(n: nat) -> Entries {
        Seq::new(n, |i: int| Seq::new(n, |j: int| Matrix::identity_entry(i, j)))
    }

    /// `m` with the block `b` written over the entries from row `row` and column
    /// `col` on.
    #[verifier::opaque]
    pub open spec fn with_block(m: Entries, row: int, col: int, b: Entries) -> Entries {
        Seq::new(
            m.len(),
            |i: int|
                Seq::new(
                    m[i].len(),
                    |j: int|
                        if row <= i < row + b.len() && col <= j < col + b[i - row].len() {
                            b[i - row][j - col]
                        } else {
                            m[i][j]
                        },
                ),
        )
    }

    /// The 3x3 block of `m` from row `row` and column `col` on.
    pub open spec fn spec_block3(m: Entries, row: int, col: int) -> Matrix3x3 {
        Matrix3x3 {
            r0: Vector3 { x: m[row][col], y: m[row][col + 1], z: m[row][col + 2] },
            r1: Vector3 { x: m[row + 1][col], y: m[row + 1][col + 1], z: m[row + 1][col + 2] },
            r2: Vector3 { x: m[row + 2][col], y: m[row + 2][col + 1], z: m[row + 2][col + 2] },
        }
    }

    /// Whether the 3x3 block at row `r` and column `c` lies inside a matrix of
    /// this shape.
    pub open spec fn block_inside(rows: nat, cols: nat, r: int, c: int) -> bool {
        0 <= r && r + 3 <= rows && 0 <= c && c + 3 <= cols
    }

    /// Whether two 3x3 blocks are the same block or share no entry.
    pub open spec fn same_or_apart(r1: int, c1: int, r2: int, c2: int) -> bool {
        ||| r1 == r2 && c1 == c2
        ||| r1 + 3 <= r2
        ||| r2 + 3 <= r1
        ||| c1 + 3 <= c2
        ||| c2 + 3 <= c1
    }

    /// The number of columns.
    pub closed spec fn cols(&self) -> nat {
        self.ncols as nat
    }

    /// Every row has the same number of entries.
    pub open spec fn wf(&self) -> bool {
        Matrix::has_shape(self@, self@.len(), self.cols())
    }

    /// A matrix of zeros.
    pub fn zeros(rows: usize, cols: usize) -> (r: Matrix)
        ensures
            r.wf(),
            r.cols() == cols,
            r@ == Matrix::spec_zeros(rows as nat, cols as nat),
    {
        let mut m: Vec<Vec<Scalar>> = Vec::new();
        let mut i: usize = 0;
        while i < rows
            invariant
                i <= rows,
                m@.len() == i,
                forall|a: int|
                    0 <= a < i ==> (#[trigger] m@[a])@ == Seq::new(
                        cols as nat,
                        |j: int| Scalar::spec_zero(),
                    ),
            decreases rows - i,
        {
            let mut row: Vec<Scalar> = Vec::new();
            let mut j: usize = 0;
            while j < cols
                invariant
                    j <= cols,
                    row@.len() == j,
                    forall|b: int| 0 <= b < j ==> #[trigger] row@[b] == Scalar::spec_zero(),
                decreases cols - j,
            {
                row.push(Scalar::zero());
                j += 1;
            }
            assert(row@ =~= Seq::new(cols as nat, |j: int| Scalar::spec_zero()));
            m.push(row);
            i += 1;
        }
        let r = Matrix { rows: m, ncols: cols };
        assert(r@ =~= Matrix::spec_zeros(rows as nat, cols as nat));
        r
    }

    /// The identity matrix of size `n`.
    pub fn identity(n: usize) -> (r: Matrix)
        ensures
            r.wf(),
            r.cols() == n,
            r@ == Matrix::spec_identity(n as nat),
    {
        let mut r = Matrix::zeros(n, n);
        let mut i: usize = 0;
        while i < n
            invariant
                i <= n,
                r.wf(),
                r.cols() == n,
                r@.len() == n,
                forall|a: int, b: int|
                    0 <= a < n && 0 <= b < n ==> #[trigger] r@[a][b] == (if a == b && a < i {
                        Scalar::spec_one()
                    } else {
                        Scalar::spec_zero()
                    }),
            decreases n - i,
        {
            r.set(i, i, Scalar::one());
            i += 1;
        }
        assert(r@ =~~= Matrix::spec_identity(n as nat));
        r
    }

    /// The number of rows.
    pub fn nrows(&self) -> (r: usize)
        ensures
            r == self@.len(),
    {
        self.rows.len()
    }

    /// The number of columns.
    pub fn ncols(&self) -> (r: usize)
        ensures
            r == self.cols(),
    {
        self.ncols
    }

    /// Whether every row has the same number of entries.
    pub fn is_wf(&self) -> (r: bool)
        ensures
            r == self.wf(),
    {
        let mut i: usize = 0;
        while i < self.rows.len()
            invariant
                i <= self.rows@.len(),
                forall|a: int| 0 <= a < i ==> (#[trigger] self@[a]).len() == self.cols(),
            decreases self.rows@.len() - i,
        {
            assert(self@[i as int] == self.rows@[i as int]@);
            if self.rows[i].len() != self.ncols {
                return false;
            }
            i += 1;
        }
        true
    }

    /// The entry at row `i` and column `j`.
    pub fn get(&self, i: usize, j: usize) -> (r: Scalar)
        requires
            self.wf(),
            i < self@.len(),
            j < self.cols(),
        ensures
            r == self@[i as int][j as int],
    {
        assert(self@[i as int].len() == self.cols());
        self.rows[i][j]
    }

    /// Writes the entry at row `i` and column `j`.
    pub fn set(&mut self, i: usize, j: usize, s: Scalar)
        requires
            old(self).wf(),
            i < old(self)@.len(),
            j < old(self).cols(),
        ensures
            final(self).wf(),
            final(self).cols() == old(self).cols(),
            final(self)@ == old(self)@.update(i as int, old(self)@[i as int].update(j as int, s)),
    {
        assert(self@[i as int].len() == self.cols());
        self.rows[i][j] = s;
        assert(self@ =~= old(self)@.update(i as int, old(self)@[i as int].update(j as int, s)));
    }

    /// Writes the block `b` over the entries from row `row` and column `col` on.
    pub fn set_block(&mut self, row: usize, col: usize, b: &Matrix)
        requires
            old(self).wf(),
            b.wf(),
            row + b@.len() <= old(self)@.len(),
            col + b.cols() <= old(self).cols(),
        ensures
            final(self).wf(),
            final(self).cols() == old(self).cols(),
            final(self)@ == Matrix::with_block(old(self)@, row as int, col as int, b@),
    {
        let n = self.nrows();
        let h = b.nrows();
        let w = b.ncols();
        let mut i: usize = 0;
        while i < h
            invariant
                i <= h,
                h == b@.len(),
                w == b.cols(),
                b.wf(),
                old(self).wf(),
                row + h <= n,
                n == old(self)@.len(),
                col + w <= old(self).cols(),
                self.wf(),
                self.cols() == old(self).cols(),
                self@.len() == old(self)@.len(),
                forall|a: int, c: int|
                    0 <= a < self@.len() && 0 <= c < self.cols() ==> #[trigger] self@[a][c] == (if row
                        <= a < row + i && col <= c < col + w {
                        b@[a - row][c - col]
                    } else {
                        old(self)@[a][c]
                    }),
            decreases h - i,
        {
            let mut j: usize = 0;
            while j < w
                invariant
                    i < h,
                    j <= w,
                    h == b@.len(),
                    w == b.cols(),
                    b.wf(),
                    old(self).wf(),
                    row + h <= n,
                    n == old(self)@.len(),
                    col + w <= old(self).cols(),
                    self.wf(),
                    self.cols() == old(self).cols(),
                    self@.len() == old(self)@.len(),
                    forall|a: int, c: int|
                        0 <= a < self@.len() && 0 <= c < self.cols() ==> #[trigger] self@[a][c] == (
                        if (row <= a < row + i && col <= c < col + w) || (a == row + i && col <= c
                            < col + j) {
                            b@[a - row][c - col]
                        } else {
                            old(self)@[a][c]
                        }),
                decreases w - j,
            {
                let s = b.get(i, j);
                assert(self@[row + i].len() == self.cols());
                self.set(row + i, col + j, s);
                j += 1;
            }
            i += 1;
        }
        proof {
            reveal(Matrix::with_block);
            let target = Matrix::with_block(old(self)@, row as int, col as int, b@);
            assert forall|a: int| 0 <= a < self@.len() implies self@[a] =~= #[trigger] target[a] by {
                assert(self@[a].len() == self.cols());
                assert(old(self)@[a].len() == self.cols());
                if row <= a < row + h {
                    assert(b@[a - row].len() == w);
                }
            }
            assert(self@ =~= target);
        }
    }

    /// Writes the 3x3 block `b` at row `row` and column `col`, and keeps every
    /// block that shares no entry with it.
    pub fn set_block3(&mut self, row: usize, col: usize, b: &Matrix3x3)
        requires
            old(self).wf(),
            Matrix::block_inside(old(self)@.len(), old(self).cols(), row as int, col as int),
        ensures
            final(self).wf(),
            final(self).cols() == old(self).cols(),
            final(self)@.len() == old(self)@.len(),
            final(self)@ == Matrix::with_block(
                old(self)@,
                row as int,
                col as int,
                Matrix3x3::entries(*b),
            ),
            forall|r: int, c: int|
                #![trigger Matrix::spec_block3(final(self)@, r, c)]
                Matrix::block_inside(old(self)@.len(), old(self).cols(), r, c)
                    && Matrix::same_or_apart(row as int, col as int, r, c)
                    ==> Matrix::spec_block3(final(self)@, r, c) == (if r == row && c == col {
                    *b
                } else {
                    Matrix::spec_block3(old(self)@, r, c)
                }),
    {
        let m = Matrix::from_matrix3(b);
        self.set_block(row, col, &m);
        proof {
            assert(self@.len() == old(self)@.len()) by {
                reveal(Matrix::with_block);
            }
            let before = old(self)@;
            let after = self@;
            assert forall|r: int, c: int|
                #![trigger Matrix::spec_block3(after, r, c)]
                Matrix::block_inside(before.len(), old(self).cols(), r, c)
                    && Matrix::same_or_apart(row as int, col as int, r, c) implies Matrix::spec_block3(
                after,
                r,
                c,
            ) == (if r == row && c == col {
                *b
            } else {
                Matrix::spec_block3(before, r, c)
            }) by {
                lemma_block_after_write(
                    before,
                    old(self).cols(),
                    row as int,
                    col as int,
                    *b,
                    r,
                    c,
                );
            }
        }
    }

    /// The 3x3 matrix `b`, as a matrix of any shape.
    pub fn from_matrix3(b: &Matrix3x3) -> (r: Matrix)
        ensures
            r.wf(),
            r.cols() == 3,
            r@ == Matrix3x3::entries(*b),
    {
        let mut m = Matrix::zeros(3, 3);
        m.set(0, 0, b.r0.x);
        m.set(0, 1, b.r0.y);
        m.set(0, 2, b.r0.z);
        m.set(1, 0, b.r1.x);
        m.set(1, 1, b.r1.y);
        m.set(1, 2, b.r1.z);
        m.set(2, 0, b.r2.x);
        m.set(2, 1, b.r2.y);
        m.set(2, 2, b.r2.z);
        assert(m@ =~~= Matrix3x3::entries(*b));
        m
    }

    /// The 3x3 block from row `row` and column `col` on.
    pub fn block3(&self, row: usize, col: usize) -> (r: Matrix3x3)
        requires
            self.wf(),
            row + 3 <= self@.len(),
            col + 3 <= self.cols(),
        ensures
            r == Matrix::spec_block3(self@, row as int, col as int),
    {
        let n = self.nrows();
        assert(row + 3 <= n);
        Matrix3x3::new(
            self.get(row, col),
            self.get(row, col + 1),
            self.get(row, col + 2),
            self.get(row + 1, col),
            self.get(row + 1, col + 1),
            self.get(row + 1, col + 2),
            self.get(row + 2, col),
            self.get(row + 2, col + 1),
            self.get(row + 2, col + 2),
        )
    }
}

} // verus!
