//! What is reported about the linearization of an IMU measurement.
//!
//! The caller writes numbers as text and prints; what is printed, and in which
//! order, is decided here.
use crate::imu::piecewise_integration::{Layout, Part};
use crate::linalg::{Matrix, Matrix3x3};
use crate::optimization::factors::{BiasJacobians, ImuTerms, Side};
use crate::optimization::names;
use crate::optimization::names::to_decimal;
use crate::scalar::Scalar;
use vstd::prelude::*;

verus! {

/// Whether `r` is the largest absolute value among the entries that are numbers,
/// and zero if there is none.
pub open spec fn is_max_abs(entries: Set<Scalar>, r: Scalar) -> bool {
    &&& !r.nan()
    &&& forall|x: Scalar|
        #[trigger] entries.contains(x) && !x.nan() ==> x.without_sign().at_most(r)
    &&& r == Scalar::spec_zero() || exists|x: Scalar|
        #[trigger] entries.contains(x) && !x.nan() && r == x.without_sign()
}

/// The entries of a matrix.
pub open spec fn entries_of(m: Matrix) -> Set<Scalar> {
    Set::new(
        |x: Scalar|
            exists|i: int, j: int|
                0 <= i < m@.len() && 0 <= j < m.cols() && #[trigger] m@[i][j] == x,
    )
}

/// The larger of `m` and the absolute value of `x`.
fn max_abs(m: &Scalar, x: &Scalar) -> (r: Scalar)
    requires
        !m.nan(),
    ensures
        !r.nan(),
        m.at_most(r),
        !x.nan() ==> x.without_sign().at_most(r),
        r == *m || !x.nan() && r == x.without_sign(),
{
    let a = x.abs();
    m.max(&a)
}

/// The largest absolute value of the entries.
pub fn max_abs_vec(v: &Vec<Scalar>) -> (r: Scalar)
    ensures
        is_max_abs(v@.to_set(), r),
{
    let mut r = Scalar::zero();
    let mut i: usize = 0;
    while i < v.len()
        invariant
            i <= v.len(),
            !r.nan(),
            forall|k: int|
                0 <= k < i && !(#[trigger] v@[k]).nan() ==> v@[k].without_sign().at_most(r),
            r == Scalar::spec_zero() || exists|k: int|
                0 <= k < i && !(#[trigger] v@[k]).nan() && r == v@[k].without_sign(),
        decreases v.len() - i,
    {
        let ghost before = r;
        r = max_abs(&r, &v[i]);
        i += 1;
        proof {
            if r != before {
                assert(!v@[i - 1].nan() && r == v@[i - 1].without_sign());
            }
        }
    }
    proof {
        assert forall|x: Scalar| #[trigger] v@.to_set().contains(x) && !x.nan() implies x.without_sign().at_most(r) by {
            let k = choose|k: int| 0 <= k < v@.len() && v@[k] == x;
            assert(!v@[k].nan());
        }
        if r != Scalar::spec_zero() {
            let k = choose|k: int|
                0 <= k < i && !(#[trigger] v@[k]).nan() && r == v@[k].without_sign();
            assert(v@.to_set().contains(v@[k]));
        }
    }
    r
}

/// The largest absolute value of the entries.
pub fn max_abs_mat(m: &Matrix) -> (r: Scalar)
    requires
        m.wf(),
    ensures
        is_max_abs(entries_of(*m), r),
{
    let rows = m.nrows();
    let cols = m.ncols();
    let mut r = Scalar::zero();
    let ghost all = entries_of(*m);
    let mut i: usize = 0;
    while i < rows
        invariant
            i <= rows,
            rows == m@.len(),
            cols == m.cols(),
            m.wf(),
            all == entries_of(*m),
            !r.nan(),
            forall|a: int, b: int|
                0 <= a < i && 0 <= b < cols && !(#[trigger] m@[a][b]).nan()
                    ==> m@[a][b].without_sign().at_most(r),
            r == Scalar::spec_zero() || exists|x: Scalar|
                #[trigger] all.contains(x) && !x.nan() && r == x.without_sign(),
        decreases rows - i,
    {
        let mut j: usize = 0;
        while j < cols
            invariant
                i < rows,
                j <= cols,
                rows == m@.len(),
                cols == m.cols(),
                m.wf(),
                all == entries_of(*m),
                !r.nan(),
                forall|a: int, b: int|
                    (0 <= a < i && 0 <= b < cols || a == i && 0 <= b < j)
                        && !(#[trigger] m@[a][b]).nan() ==> m@[a][b].without_sign().at_most(r),
                r == Scalar::spec_zero() || exists|x: Scalar|
                    #[trigger] all.contains(x) && !x.nan() && r == x.without_sign(),
            decreases cols - j,
        {
            let ghost before = r;
            let x = m.get(i, j);
            r = max_abs(&r, &x);
            proof {
                assert(m@[i as int][j as int] == x);
                assert(all.contains(x));
                if r == before && before != Scalar::spec_zero() {
                    let y = choose|y: Scalar|
                        #[trigger] all.contains(y) && !y.nan() && before == y.without_sign();
                    assert(all.contains(y) && !y.nan() && r == y.without_sign());
                }
            }
            j += 1;
        }
        i += 1;
    }
    proof {
        assert forall|x: Scalar| #[trigger] all.contains(x) && !x.nan() implies x.without_sign().at_most(r) by {
            let (a, b) = choose|a: int, b: int|
                0 <= a < m@.len() && 0 <= b < m.cols() && #[trigger] m@[a][b] == x;
            assert(!m@[a][b].nan());
        }
    }
    r
}

/// The texts, with `separator` between them.
pub open spec fn joined(texts: Seq<String>, separator: Seq<char>) -> Seq<char>
    decreases texts.len(),
{
    if texts.len() == 0 {
        Seq::empty()
    } else if texts.len() == 1 {
        texts[0]@
    } else {
        joined(texts.drop_last(), separator) + separator + texts.last()@
    }
}

/// Appends the texts, with `separator` between them.
fn append_joined(s: &mut String, texts: &Vec<String>, separator: &str)
    ensures
        final(s)@ == old(s)@ + joined(texts@, separator@),
{
    let mut i: usize = 0;
    while i < texts.len()
        invariant
            i <= texts.len(),
            s@ == old(s)@ + joined(texts@.take(i as int), separator@),
        decreases texts.len() - i,
    {
        if i > 0 {
            s.append(separator);
        }
        s.append(texts[i].as_str());
        i += 1;
        proof {
            let t = texts@.take(i as int);
            assert(t.drop_last() =~= texts@.take(i - 1));
            assert(t.last() == texts@[i - 1]);
            assert(s@ =~= old(s)@ + joined(t, separator@));
        }
    }
    assert(texts@.take(i as int) =~= texts@);
}

/// The numbers in brackets, with a blank between them: `[a b c]`.
pub fn fmt_vec_compact(numbers: &Vec<String>) -> (r: String)
    ensures
        r@ == "["@ + joined(numbers@, " "@) + "]"@,
{
    let mut s = String::from_str("[");
    append_joined(&mut s, numbers, " ");
    s.append("]");
    assert(s@ =~= "["@ + joined(numbers@, " "@) + "]"@);
    s
}

/// The first `n` residuals, one a line, behind their index.
pub open spec fn residual_lines(numbers: Seq<String>, n: nat) -> Seq<char>
    decreases n,
{
    if n == 0 {
        Seq::empty()
    } else {
        residual_lines(numbers, (n - 1) as nat) + names::decimal((n - 1) as nat)
            + ","@ + numbers[n - 1]@ + "\n"@
    }
}

/// The first `n` rows of a matrix, one a line.
pub open spec fn matrix_lines(rows: Seq<Vec<String>>, n: nat) -> Seq<char>
    decreases n,
{
    if n == 0 {
        Seq::empty()
    } else {
        matrix_lines(rows, (n - 1) as nat) + joined(rows[n - 1]@, ","@) + "\n"@
    }
}

/// The text of a dump: the residuals, then the Jacobian.
pub open spec fn dump_text(residuals: Seq<String>, rows: Seq<Vec<String>>, cols: nat) -> Seq<char> {
    "# residuals (len="@ + names::decimal(residuals.len()) + ")\n"@
        + residual_lines(residuals, residuals.len()) + "\n# jacobian ("@
        + names::decimal(rows.len()) + "x"@
        + names::decimal(cols) + ")\n"@ + matrix_lines(rows, rows.len())
}

/// The text of a dump, from the numbers as texts: the residuals with their
/// indices, then the rows of the Jacobian with commas between the entries.
pub fn dump_csv(residuals: &Vec<String>, rows: &Vec<Vec<String>>, cols: usize) -> (r: String)
    ensures
        r@ == dump_text(residuals@, rows@, cols as nat),
{
    let mut s = String::from_str("# residuals (len=");
    s.append(to_decimal(residuals.len()).as_str());
    s.append(")\n");
    let ghost head = s@;
    let mut i: usize = 0;
    while i < residuals.len()
        invariant
            i <= residuals.len(),
            s@ == head + residual_lines(residuals@, i as nat),
        decreases residuals.len() - i,
    {
        s.append(to_decimal(i).as_str());
        s.append(",");
        s.append(residuals[i].as_str());
        s.append("\n");
        i += 1;
        assert(s@ =~= head + residual_lines(residuals@, i as nat));
    }
    s.append("\n# jacobian (");
    s.append(to_decimal(rows.len()).as_str());
    s.append("x");
    s.append(to_decimal(cols).as_str());
    s.append(")\n");
    let ghost upper = s@;
    let mut k: usize = 0;
    while k < rows.len()
        invariant
            k <= rows.len(),
            s@ == upper + matrix_lines(rows@, k as nat),
        decreases rows.len() - k,
    {
        append_joined(&mut s, &rows[k], ",");
        s.append("\n");
        k += 1;
        assert(s@ =~= upper + matrix_lines(rows@, k as nat));
    }
    assert(s@ =~= dump_text(residuals@, rows@, cols as nat));
    s
}

/// Whether the character is replaced in a file name.
pub open spec fn replaced(c: char) -> bool {
    c == '/' || c == ' ' || c == ':'
}

/// The file name of a dump: the tag, with an underscore for each slash, blank and
/// colon, and the ending behind it.
pub fn dump_name(tag: &str) -> (r: String)
    ensures
        r@ == tag@.map_values(
            |c: char|
                if replaced(c) {
                    '_'
                } else {
                    c
                },
        ) + "_lin.csv"@,
{
    let ghost f = |c: char|
        if replaced(c) {
            '_'
        } else {
            c
        };
    let n = tag.unicode_len();
    let mut s = String::from_str("");
    proof {
        reveal_strlit("");
        reveal_strlit("_");
    }
    let mut i: usize = 0;
    assert(s@ =~= tag@.take(0).map_values(f));
    while i < n
        invariant
            i <= n,
            n == tag@.len(),
            f == (|c: char|
                if replaced(c) {
                    '_'
                } else {
                    c
                }),
            "_"@ == seq!['_'],
            s@ == tag@.take(i as int).map_values(f),
        decreases n - i,
    {
        let c = tag.get_char(i);
        if c == '/' || c == ' ' || c == ':' {
            s.append("_");
        } else {
            s.append(tag.substring_char(i, i + 1));
        }
        i += 1;
        assert(s@ =~= tag@.take(i as int).map_values(f));
    }
    s.append("_lin.csv");
    assert(tag@.take(n as int) =~= tag@);
    s
}

/// What is reported.
#[derive(Clone, Copy, Debug, PartialEq, Eq, Structural)]
pub enum Report {
    /// Nothing: nobody listens.
    Silent,
    /// Only that the residual has the wrong length.
    WrongLength,
    /// The residual, and what is said of the Jacobian.
    Residual {
        /// The Jacobian has the wrong shape, which is said.
        wrong_shape: bool,
        /// The norms of the blocks of the Jacobian are printed.
        blocks: bool,
        /// Residual and Jacobian are written to a file.
        dump: bool,
    },
}

/// What to report of a residual of this length and a Jacobian of this shape.
/// A shape that is wrong is reported; blocks that lie outside the Jacobian are
/// not read.
pub fn log_imu_linearization(
    enabled: bool,
    residuals: usize,
    jacobian: Option<(usize, usize)>,
    dump_dir: bool,
) -> (r: Report)
    ensures
        r is Silent <==> !enabled,
        r is WrongLength <==> enabled && residuals != 15,
        r matches Report::Residual { wrong_shape, blocks, dump } ==> {
            &&& wrong_shape <==> jacobian is Some && jacobian != Some((15usize, 30usize))
            &&& blocks <==> (jacobian matches Some((rows, cols)) && rows >= 15 && cols >= 30)
            &&& dump <==> blocks && dump_dir
        },
{
    if !enabled {
        return Report::Silent;
    }
    if residuals != 15 {
        return Report::WrongLength;
    }
    match jacobian {
        None => Report::Residual { wrong_shape: false, blocks: false, dump: false },
        Some((rows, cols)) => {
            let blocks = rows >= 15 && cols >= 30;
            Report::Residual {
                wrong_shape: rows != 15 || cols != 30,
                blocks,
                dump: blocks && dump_dir,
            }
        },
    }
}

/// A block of the Jacobian, by what its rows and columns stand for.
#[derive(Clone, Copy, Debug, PartialEq, Eq, Structural)]
pub struct BlockName {
    pub rows: Part,
    pub columns: Part,
    pub side: Side,
}

impl BlockName {
    /// The blocks that are reported, in this order.
    pub open spec fn reported() -> Seq<BlockName> {
        seq![
            BlockName { rows: Part::Rotation, columns: Part::Rotation, side: Side::From },
            BlockName { rows: Part::Rotation, columns: Part::GyroBias, side: Side::From },
            BlockName { rows: Part::Rotation, columns: Part::Rotation, side: Side::To },
            BlockName { rows: Part::Velocity, columns: Part::Rotation, side: Side::From },
            BlockName { rows: Part::Velocity, columns: Part::Velocity, side: Side::From },
            BlockName { rows: Part::Velocity, columns: Part::AccelBias, side: Side::From },
            BlockName { rows: Part::Velocity, columns: Part::GyroBias, side: Side::From },
            BlockName { rows: Part::Velocity, columns: Part::Velocity, side: Side::To },
            BlockName { rows: Part::Position, columns: Part::Rotation, side: Side::From },
            BlockName { rows: Part::Position, columns: Part::Velocity, side: Side::From },
            BlockName { rows: Part::Position, columns: Part::Position, side: Side::From },
            BlockName { rows: Part::Position, columns: Part::AccelBias, side: Side::From },
            BlockName { rows: Part::Position, columns: Part::GyroBias, side: Side::From },
            BlockName { rows: Part::Position, columns: Part::Position, side: Side::To },
            BlockName { rows: Part::AccelBias, columns: Part::AccelBias, side: Side::From },
            BlockName { rows: Part::AccelBias, columns: Part::AccelBias, side: Side::To },
            BlockName { rows: Part::GyroBias, columns: Part::GyroBias, side: Side::From },
            BlockName { rows: Part::GyroBias, columns: Part::GyroBias, side: Side::To },
        ]
    }

    /// The blocks that are reported: those of the rotation, velocity and position
    /// rows, then those of the bias rows.
    pub fn all() -> (r: Vec<BlockName>)
        ensures
            r@ == BlockName::reported(),
    {
        let mut r: Vec<BlockName> = Vec::new();
        r.push(BlockName { rows: Part::Rotation, columns: Part::Rotation, side: Side::From });
        r.push(BlockName { rows: Part::Rotation, columns: Part::GyroBias, side: Side::From });
        r.push(BlockName { rows: Part::Rotation, columns: Part::Rotation, side: Side::To });
        r.push(BlockName { rows: Part::Velocity, columns: Part::Rotation, side: Side::From });
        r.push(BlockName { rows: Part::Velocity, columns: Part::Velocity, side: Side::From });
        r.push(BlockName { rows: Part::Velocity, columns: Part::AccelBias, side: Side::From });
        r.push(BlockName { rows: Part::Velocity, columns: Part::GyroBias, side: Side::From });
        r.push(BlockName { rows: Part::Velocity, columns: Part::Velocity, side: Side::To });
        r.push(BlockName { rows: Part::Position, columns: Part::Rotation, side: Side::From });
        r.push(BlockName { rows: Part::Position, columns: Part::Velocity, side: Side::From });
        r.push(BlockName { rows: Part::Position, columns: Part::Position, side: Side::From });
        r.push(BlockName { rows: Part::Position, columns: Part::AccelBias, side: Side::From });
        r.push(BlockName { rows: Part::Position, columns: Part::GyroBias, side: Side::From });
        r.push(BlockName { rows: Part::Position, columns: Part::Position, side: Side::To });
        r.push(BlockName { rows: Part::AccelBias, columns: Part::AccelBias, side: Side::From });
        r.push(BlockName { rows: Part::AccelBias, columns: Part::AccelBias, side: Side::To });
        r.push(BlockName { rows: Part::GyroBias, columns: Part::GyroBias, side: Side::From });
        r.push(BlockName { rows: Part::GyroBias, columns: Part::GyroBias, side: Side::To });
        assert(r@ =~= BlockName::reported());
        r
    }

    /// The name of the block: of the part of the residual in its rows, then of the
    /// part of the state in its columns, with `i` for the first keyframe and `j`
    /// for the second, as in `J_rR_phi_i`.
    pub fn name(&self) -> (r: String)
        ensures
            r@ == "J_"@ + self.rows.spec_residual_name() + "_"@ + self.columns.spec_state_name()
                + (match self.side {
                Side::From => "_i"@,
                Side::To => "_j"@,
            }),
    {
        let ending = match self.side {
            Side::From => "_i",
            Side::To => "_j",
        };
        String::from_str("J_").concat(self.rows.residual_name()).concat("_").concat(
            self.columns.state_name(),
        ).concat(ending)
    }

    /// A block that is not reported is zero in every Jacobian of an IMU
    /// measurement.
    pub proof fn unreported_blocks_are_zero(self, terms: ImuTerms, b: BiasJacobians)
        requires
            !BlockName::reported().contains(self),
        ensures
            terms.block(b, self.rows, self.columns, self.side) == Matrix3x3::spec_zero(),
    {
        let l = BlockName::reported();
        assert forall|k: int| 0 <= k < l.len() implies #[trigger] l[k] != self by {
            assert(l.contains(l[k]));
        }
        assert(l.len() == 18);
        assert(l[0] != self);
        assert(l[1] != self);
        assert(l[2] != self);
        assert(l[3] != self);
        assert(l[4] != self);
        assert(l[5] != self);
        assert(l[6] != self);
        assert(l[7] != self);
        assert(l[8] != self);
        assert(l[9] != self);
        assert(l[10] != self);
        assert(l[11] != self);
        assert(l[12] != self);
        assert(l[13] != self);
        assert(l[14] != self);
        assert(l[15] != self);
        assert(l[16] != self);
        assert(l[17] != self);
    }

    /// Row and column at which the block begins: rotation, velocity, position,
    /// accelerometer bias, gyroscope bias, and in the columns those of the second
    /// keyframe behind those of the first.
    pub fn offset(&self) -> (r: (usize, usize))
        ensures
            r.0 == Layout::spec_standard().at(self.rows),
            r.1 == Layout::spec_standard().at(self.columns)
                + self.side.offset(),
            r.0 + 3 <= 15,
            r.1 + 3 <= 30,
    {
        let first = part_offset(self.columns);
        let column: usize = match self.side {
            Side::From => first,
            Side::To => first + 15,
        };
        (part_offset(self.rows), column)
    }
}

impl Part {
    /// The name of this part of a residual.
    pub open spec fn spec_residual_name(self) -> Seq<char> {
        match self {
            Part::Rotation => "rR"@,
            Part::Velocity => "rv"@,
            Part::Position => "rp"@,
            Part::AccelBias => "rba"@,
            Part::GyroBias => "rbg"@,
        }
    }

    /// The name of this part of a state.
    pub open spec fn spec_state_name(self) -> Seq<char> {
        match self {
            Part::Rotation => "phi"@,
            Part::Velocity => "v"@,
            Part::Position => "p"@,
            Part::AccelBias => "ba"@,
            Part::GyroBias => "bg"@,
        }
    }

    /// The name of this part of a residual.
    pub fn residual_name(&self) -> (r: &'static str)
        ensures
            r@ == self.spec_residual_name(),
            match *self {
                Part::Rotation => r@ == "rR"@,
                Part::Velocity => r@ == "rv"@,
                Part::Position => r@ == "rp"@,
                Part::AccelBias => r@ == "rba"@,
                Part::GyroBias => r@ == "rbg"@,
            },
    {
        match self {
            Part::Rotation => "rR",
            Part::Velocity => "rv",
            Part::Position => "rp",
            Part::AccelBias => "rba",
            Part::GyroBias => "rbg",
        }
    }

    /// The name of this part of a state.
    pub fn state_name(&self) -> (r: &'static str)
        ensures
            r@ == self.spec_state_name(),
            match *self {
                Part::Rotation => r@ == "phi"@,
                Part::Velocity => r@ == "v"@,
                Part::Position => r@ == "p"@,
                Part::AccelBias => r@ == "ba"@,
                Part::GyroBias => r@ == "bg"@,
            },
    {
        match self {
            Part::Rotation => "phi",
            Part::Velocity => "v",
            Part::Position => "p",
            Part::AccelBias => "ba",
            Part::GyroBias => "bg",
        }
    }
}

/// Where the part begins in a residual.
pub fn part_offset(part: Part) -> (r: usize)
    ensures
        r == Layout::spec_standard().at(part),
        r + 3 <= 15,
{
    match part {
        Part::Rotation => 0,
        Part::Velocity => 3,
        Part::Position => 6,
        Part::AccelBias => 9,
        Part::GyroBias => 12,
    }
}

} // verus!
