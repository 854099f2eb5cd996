//! The non-linear solver: how it is set up and how its verdict is read.
use crate::scalar::Scalar;
use apex_solver::linalg::{LinearSolverType, SchurPreconditioner, SchurVariant};
use apex_solver::optimizer::OptimizationStatus;
use vstd::prelude::*;

verus! {

/// `apex_solver::optimizer::OptimizationStatus`, the status of a finished run,
/// with the variants that the solver declares.
#[verifier::external_type_specification]
pub struct ExOptimizationStatus(OptimizationStatus);

/// `apex_solver::linalg::LinearSolverType`, with the variants that the solver
/// declares.
#[verifier::external_type_specification]
pub struct ExLinearSolverType(LinearSolverType);

/// `apex_solver::linalg::SchurVariant`, with the variants that the solver
/// declares.
#[verifier::external_type_specification]
pub struct ExSchurVariant(SchurVariant);

/// `apex_solver::linalg::SchurPreconditioner`, with the variants that the solver
/// declares.
#[verifier::external_type_specification]
pub struct ExSchurPreconditioner(SchurPreconditioner);

/// The settings of a run of the Levenberg-Marquardt solver.
pub struct SolverConfig {
    pub linear_solver: LinearSolverType,
    /// The variant and the preconditioner, where a Schur complement is formed.
    pub schur: Option<(SchurVariant, SchurPreconditioner)>,
    pub max_iterations: usize,
    pub cost_tolerance: Scalar,
    pub parameter_tolerance: Scalar,
    pub jacobi_scaling: bool,
}

impl SolverConfig {
    /// Up to `max_iterations` iterations of a sparse Cholesky solver.
    pub open spec fn spec_cholesky(max_iterations: usize) -> SolverConfig {
        SolverConfig {
            linear_solver: LinearSolverType::SparseCholesky,
            schur: None,
            max_iterations,
            cost_tolerance: Scalar { bits: 0x3eb0_c6f7_a0b5_ed8d },
            parameter_tolerance: Scalar { bits: 0x3e11_2e0b_e826_d695 },
            jacobi_scaling: false,
        }
    }

    /// Up to twenty iterations on the sparse Schur complement.
    pub open spec fn spec_schur() -> SolverConfig {
        SolverConfig {
            linear_solver: LinearSolverType::SparseSchurComplement,
            schur: Some((SchurVariant::Sparse, SchurPreconditioner::BlockDiagonal)),
            ..SolverConfig::spec_cholesky(20)
        }
    }

    /// Up to `max_iterations` iterations of a sparse Cholesky solver, until the
    /// cost changes by less than 1e-6 or the parameters by less than 1e-9.
    pub fn cholesky(max_iterations: usize) -> (r: SolverConfig)
        ensures
            r == SolverConfig::spec_cholesky(max_iterations),
    {
        SolverConfig {
            linear_solver: LinearSolverType::SparseCholesky,
            schur: None,
            max_iterations,
            cost_tolerance: Scalar::from_bits(0x3eb0_c6f7_a0b5_ed8d),
            parameter_tolerance: Scalar::from_bits(0x3e11_2e0b_e826_d695),
            jacobi_scaling: false,
        }
    }

    /// Up to twenty iterations on the sparse Schur complement, until the cost
    /// changes by less than 1e-6 or the parameters by less than 1e-9.
    pub fn schur_complement() -> (r: SolverConfig)
        ensures
            r == SolverConfig::spec_schur(),
    {
        SolverConfig {
            linear_solver: LinearSolverType::SparseSchurComplement,
            schur: Some((SchurVariant::Sparse, SchurPreconditioner::BlockDiagonal)),
            max_iterations: 20,
            cost_tolerance: Scalar::from_bits(0x3eb0_c6f7_a0b5_ed8d),
            parameter_tolerance: Scalar::from_bits(0x3e11_2e0b_e826_d695),
            jacobi_scaling: false,
        }
    }
}

/// Whether a run with this status left parameters that can be used: it
/// converged, or it used up its iterations.
pub open spec fn successful(status: OptimizationStatus) -> bool {
    ||| status is Converged
    ||| status is CostToleranceReached
    ||| status is ParameterToleranceReached
    ||| status is GradientToleranceReached
    ||| status is TrustRegionRadiusTooSmall
    ||| status is MinCostThresholdReached
    ||| status is MaxIterationsReached
}

/// Whether a run with this status left parameters that can be used.
pub fn is_optimization_successful(status: &OptimizationStatus) -> (r: bool)
    ensures
        r == successful(*status),
        match *status {
            OptimizationStatus::Converged => r,
            OptimizationStatus::CostToleranceReached => r,
            OptimizationStatus::ParameterToleranceReached => r,
            OptimizationStatus::GradientToleranceReached => r,
            OptimizationStatus::TrustRegionRadiusTooSmall => r,
            OptimizationStatus::MinCostThresholdReached => r,
            OptimizationStatus::MaxIterationsReached => r,
            OptimizationStatus::Timeout => !r,
            OptimizationStatus::NumericalFailure => !r,
            OptimizationStatus::IllConditionedJacobian => !r,
            OptimizationStatus::InvalidNumericalValues => !r,
            OptimizationStatus::UserTerminated => !r,
            OptimizationStatus::Failed(_) => !r,
        },
{
    match status {
        OptimizationStatus::Converged => true,
        OptimizationStatus::CostToleranceReached => true,
        OptimizationStatus::ParameterToleranceReached => true,
        OptimizationStatus::GradientToleranceReached => true,
        OptimizationStatus::TrustRegionRadiusTooSmall => true,
        OptimizationStatus::MinCostThresholdReached => true,
        OptimizationStatus::MaxIterationsReached => true,
        _ => false,
    }
}

/// A run that converged, by whichever criterion, left parameters that can be used,
/// and so did one that ran out of iterations. A run that was cut short or that
/// failed left none.
pub proof fn converged_runs_can_be_used(status: OptimizationStatus)
    ensures
        match status {
            OptimizationStatus::Converged => successful(status),
            OptimizationStatus::CostToleranceReached => successful(status),
            OptimizationStatus::ParameterToleranceReached => successful(status),
            OptimizationStatus::GradientToleranceReached => successful(status),
            OptimizationStatus::TrustRegionRadiusTooSmall => successful(status),
            OptimizationStatus::MinCostThresholdReached => successful(status),
            OptimizationStatus::MaxIterationsReached => successful(status),
            OptimizationStatus::Timeout => !successful(status),
            OptimizationStatus::NumericalFailure => !successful(status),
            OptimizationStatus::IllConditionedJacobian => !successful(status),
            OptimizationStatus::InvalidNumericalValues => !successful(status),
            OptimizationStatus::UserTerminated => !successful(status),
            OptimizationStatus::Failed(_) => !successful(status),
        },
{
}

/// The two linear solvers are run until the same tolerances, without scaling. A
/// Cholesky run takes the iterations it is given and forms no Schur complement; a
/// run on the Schur complement takes as many as the Cholesky run that follows it.
pub proof fn runs_share_their_tolerances(max_iterations: usize)
    ensures
        ({
            let a = SolverConfig::spec_schur();
            let b = SolverConfig::spec_cholesky(max_iterations);
            &&& a.cost_tolerance == b.cost_tolerance
            &&& a.parameter_tolerance == b.parameter_tolerance
            &&& b.parameter_tolerance.less(b.cost_tolerance)
            &&& !a.jacobi_scaling && !b.jacobi_scaling
            &&& a.linear_solver is SparseSchurComplement && a.schur is Some
            &&& b.linear_solver is SparseCholesky && b.schur is None
            &&& b.max_iterations == max_iterations
            &&& a.max_iterations == 20
        }),
{
    let a = SolverConfig::spec_schur();
    crate::scalar::smaller_patterns_are_smaller_numbers(a.parameter_tolerance, a.cost_tolerance);
}

/// The reason that a run with this status ended, as a word.
pub open spec fn spec_reason(status: OptimizationStatus) -> Seq<char> {
    match status {
        OptimizationStatus::Converged => "Converged"@,
        OptimizationStatus::CostToleranceReached => "CostTolerance"@,
        OptimizationStatus::ParameterToleranceReached => "ParameterTolerance"@,
        OptimizationStatus::GradientToleranceReached => "GradientTolerance"@,
        OptimizationStatus::TrustRegionRadiusTooSmall => "TrustRegionRadiusTooSmall"@,
        OptimizationStatus::MinCostThresholdReached => "MinCostThresholdReached"@,
        OptimizationStatus::MaxIterationsReached => "MaxIterations"@,
        OptimizationStatus::Timeout => "Timeout"@,
        OptimizationStatus::NumericalFailure => "NumericalFailure"@,
        OptimizationStatus::IllConditionedJacobian => "IllConditionedJacobian"@,
        OptimizationStatus::InvalidNumericalValues => "InvalidNumericalValues"@,
        OptimizationStatus::UserTerminated => "UserTerminated"@,
        OptimizationStatus::Failed(msg) => "Failed:"@ + msg@,
    }
}

/// Whether the run converged, and the reason that it ended. A run that used up
/// its iterations did not converge, though its parameters can be used.
pub fn convergence(status: &OptimizationStatus) -> (r: (bool, String))
    ensures
        r.0 == (successful(*status) && !(*status is MaxIterationsReached)),
        r.1@ == spec_reason(*status),
        match *status {
            OptimizationStatus::Converged => r.0 && r.1@ == "Converged"@,
            OptimizationStatus::CostToleranceReached => r.0 && r.1@ == "CostTolerance"@,
            OptimizationStatus::ParameterToleranceReached => r.0 && r.1@ == "ParameterTolerance"@,
            OptimizationStatus::GradientToleranceReached => r.0 && r.1@ == "GradientTolerance"@,
            OptimizationStatus::TrustRegionRadiusTooSmall => r.0 && r.1@
                == "TrustRegionRadiusTooSmall"@,
            OptimizationStatus::MinCostThresholdReached => r.0 && r.1@
                == "MinCostThresholdReached"@,
            OptimizationStatus::MaxIterationsReached => !r.0 && r.1@ == "MaxIterations"@,
            OptimizationStatus::Timeout => !r.0 && r.1@ == "Timeout"@,
            OptimizationStatus::NumericalFailure => !r.0 && r.1@ == "NumericalFailure"@,
            OptimizationStatus::IllConditionedJacobian => !r.0 && r.1@
                == "IllConditionedJacobian"@,
            OptimizationStatus::InvalidNumericalValues => !r.0 && r.1@
                == "InvalidNumericalValues"@,
            OptimizationStatus::UserTerminated => !r.0 && r.1@ == "UserTerminated"@,
            OptimizationStatus::Failed(msg) => !r.0 && r.1@ == "Failed:"@ + msg@,
        },
{
    match status {
        OptimizationStatus::Converged => (true, String::from_str("Converged")),
        OptimizationStatus::CostToleranceReached => (true, String::from_str("CostTolerance")),
        OptimizationStatus::ParameterToleranceReached => (
            true,
            String::from_str("ParameterTolerance"),
        ),
        OptimizationStatus::GradientToleranceReached => (
            true,
            String::from_str("GradientTolerance"),
        ),
        OptimizationStatus::TrustRegionRadiusTooSmall => (
            true,
            String::from_str("TrustRegionRadiusTooSmall"),
        ),
        OptimizationStatus::MinCostThresholdReached => (
            true,
            String::from_str("MinCostThresholdReached"),
        ),
        OptimizationStatus::MaxIterationsReached => (false, String::from_str("MaxIterations")),
        OptimizationStatus::Timeout => (false, String::from_str("Timeout")),
        OptimizationStatus::NumericalFailure => (false, String::from_str("NumericalFailure")),
        OptimizationStatus::IllConditionedJacobian => (
            false,
            String::from_str("IllConditionedJacobian"),
        ),
        OptimizationStatus::InvalidNumericalValues => (
            false,
            String::from_str("InvalidNumericalValues"),
        ),
        OptimizationStatus::UserTerminated => (false, String::from_str("UserTerminated")),
        OptimizationStatus::Failed(msg) => (
            false,
            String::from_str("Failed:").concat(msg.as_str()),
        ),
    }
}

/// Whether `needle` stands in `text` at position `k`.
pub open spec fn stands_at(text: Seq<char>, needle: Seq<char>, k: int) -> bool {
    0 <= k && k + needle.len() <= text.len() && text.subrange(k, k + needle.len()) == needle
}

/// Whether `needle` stands somewhere in `text`.
pub open spec fn occurs(text: Seq<char>, needle: Seq<char>) -> bool {
    exists|k: int| stands_at(text, needle, k)
}

/// Whether `needle` stands somewhere in `text`.
fn contains(text: &str, needle: &str) -> (r: bool)
    ensures
        r == occurs(text@, needle@),
{
    let n = text.unicode_len();
    let m = needle.unicode_len();
    if m > n {
        return false;
    }
    let mut k: usize = 0;
    while k <= n - m
        invariant
            n == text@.len(),
            m == needle@.len(),
            m <= n,
            k <= n - m + 1,
            forall|a: int| 0 <= a < k ==> !stands_at(text@, needle@, a),
        decreases n - m + 1 - k,
    {
        let mut i: usize = 0;
        let mut same = true;
        while i < m && same
            invariant
                n == text@.len(),
                m == needle@.len(),
                k + m <= n,
                i <= m,
                same ==> forall|b: int| 0 <= b < i ==> text@[k + b] == needle@[b],
                !same ==> exists|b: int| 0 <= b < m && text@[k + b] != needle@[b],
            decreases m - i + (if same { 1int } else { 0 }),
        {
            if text.get_char(k + i) != needle.get_char(i) {
                same = false;
                assert(text@[k + i] != needle@[i as int]);
            } else {
                i += 1;
            }
        }
        if same {
            assert(text@.subrange(k as int, k + m) =~= needle@);
            assert(stands_at(text@, needle@, k as int));
            return true;
        }
        proof {
            let b = choose|b: int| 0 <= b < m && text@[k + b] != needle@[b];
            assert(text@.subrange(k as int, k + m)[b] != needle@[b]);
        }
        if k == n - m {
            return false;
        }
        k += 1;
    }
    false
}

/// Whether the text of a solver error tells of a linear system that could not be
/// solved.
pub open spec fn singular(error: Seq<char>) -> bool {
    occurs(error, "LinearSolveFailed"@) || occurs(error, "Singular matrix"@)
}

/// A linear system that could not be solved is recognized wherever the text tells
/// of it.
pub proof fn linear_failures_are_recognized_anywhere(before: Seq<char>, after: Seq<char>)
    ensures
        singular(before + "LinearSolveFailed"@ + after),
        singular(before + "Singular matrix"@ + after),
{
    let k = before.len() as int;
    let a = "LinearSolveFailed"@;
    assert((before + a + after).subrange(k, k + a.len()) =~= a);
    assert(stands_at(before + a + after, a, k));
    let b = "Singular matrix"@;
    assert((before + b + after).subrange(k, k + b.len()) =~= b);
    assert(stands_at(before + b + after, b, k));
}

/// Nothing else is taken for such a failure: the text has one of the two phrases
/// between what stands before and behind it.
pub proof fn only_linear_failures_are_recognized(error: Seq<char>)
    requires
        singular(error),
    ensures
        (exists|before: Seq<char>, after: Seq<char>|
            error == #[trigger] (before + "LinearSolveFailed"@ + after)) || (exists|
            before: Seq<char>,
            after: Seq<char>,
        |
            error == #[trigger] (before + "Singular matrix"@ + after)),
{
    let phrase = if occurs(error, "LinearSolveFailed"@) {
        "LinearSolveFailed"@
    } else {
        "Singular matrix"@
    };
    let k = choose|k: int| stands_at(error, phrase, k);
    let before = error.take(k);
    let after = error.skip(k + phrase.len());
    assert(error =~= before + phrase + after);
}

/// Whether the text of a solver error tells of a linear system that could not be
/// solved, so that another linear solver may succeed.
pub fn is_linear_failure(error: &str) -> (r: bool)
    ensures
        r == singular(error@),
{
    contains(error, "LinearSolveFailed") || contains(error, "Singular matrix")
}

} // verus!
