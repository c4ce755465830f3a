//! Structural checks on a bundle of module bytecodes before it is published.
use vstd::prelude::*;

use crate::text::bytes_eq;
use crate::types::ExtractionBoundary;

verus! {

/// Size and count limits on a publish bundle.
#[derive(Clone, Debug, Eq, PartialEq)]
pub struct StructuralLimits {
    pub max_module_count: usize,
    pub max_module_size: usize,
    pub max_total_size: usize,
}

impl Default for StructuralLimits {
    fn default() -> (r: Self)
        ensures
            r.max_module_count == 64,
            r.max_module_size == 512 * 1024,
            r.max_total_size == 2 * 1024 * 1024,
    {
        StructuralLimits {
            max_module_count: 64,
            max_module_size: 512 * 1024,
            max_total_size: 2 * 1024 * 1024,
        }
    }
}

/// Which bytecode checks run, and with which limits.
#[derive(Clone, Debug, Eq, PartialEq)]
pub struct BytecodePolicy {
    pub structural_verifier_enabled: bool,
    pub semantic_verifier_enabled: bool,
    pub limits: StructuralLimits,
}

/// The bootstrap policy: structural checks on, semantic checks off, default limits.
pub open spec fn bootstrap_policy() -> BytecodePolicy {
    BytecodePolicy {
        structural_verifier_enabled: true,
        semantic_verifier_enabled: false,
        limits: StructuralLimits {
            max_module_count: 64,
            max_module_size: 524288,
            max_total_size: 2097152,
        },
    }
}

impl BytecodePolicy {
    /// Structural checks on, semantic checks off, default limits.
    pub fn bootstrap() -> (r: Self)
        ensures
            r == bootstrap_policy(),
            r.structural_verifier_enabled,
            !r.semantic_verifier_enabled,
            r.limits.max_module_count == 64,
            r.limits.max_module_size == 512 * 1024,
            r.limits.max_total_size == 2 * 1024 * 1024,
    {
        BytecodePolicy {
            structural_verifier_enabled: true,
            semantic_verifier_enabled: false,
            limits: StructuralLimits::default(),
        }
    }
}

/// One finding of the structural check.
#[derive(Clone, Debug, Eq, PartialEq)]
pub enum VerificationError {
    EmptyModuleSet,
    EmptyModule { index: usize },
    TooManyModules { limit: usize, got: usize },
    ModuleTooLarge { index: usize, limit: usize, got: usize },
    TotalSizeTooLarge { limit: usize, got: usize },
    DuplicateModuleBytes { first: usize, second: usize },
}

pub fn planned_boundary() -> (r: ExtractionBoundary)
    ensures
        !r.upstream_runtime_frozen,
        !r.compiler_frontend_owned,
{
    ExtractionBoundary::bootstrap()
}

/// The sum of the lengths of the modules.
pub open spec fn total_len(ms: Seq<Vec<u8>>) -> int
    decreases ms.len(),
{
    if ms.len() == 0 {
        0
    } else {
        total_len(ms.drop_last()) + ms.last()@.len()
    }
}

/// Findings about the module at index `i`: empty, then too large.
pub open spec fn module_errors(ms: Seq<Vec<u8>>, l: StructuralLimits, i: int) -> Seq<
    VerificationError,
> {
    (if ms[i]@.len() == 0 {
        seq![VerificationError::EmptyModule { index: i as usize }]
    } else {
        Seq::empty()
    }) + (if ms[i]@.len() > l.max_module_size {
        seq![
            VerificationError::ModuleTooLarge {
                index: i as usize,
                limit: l.max_module_size,
                got: ms[i]@.len() as usize,
            },
        ]
    } else {
        Seq::empty()
    })
}

/// Findings about the first `n` modules, in index order.
pub open spec fn per_module_errors(ms: Seq<Vec<u8>>, l: StructuralLimits, n: int) -> Seq<
    VerificationError,
>
    decreases n,
{
    if n <= 0 {
        Seq::empty()
    } else {
        per_module_errors(ms, l, n - 1) + module_errors(ms, l, n - 1)
    }
}

/// Duplicates of module `second` among modules `0..n`, in index order.
pub open spec fn duplicates_of(ms: Seq<Vec<u8>>, second: int, n: int) -> Seq<VerificationError>
    decreases n,
{
    if n <= 0 {
        Seq::empty()
    } else {
        duplicates_of(ms, second, n - 1) + (if ms[n - 1]@ == ms[second]@ {
            seq![
                VerificationError::DuplicateModuleBytes {
                    first: (n - 1) as usize,
                    second: second as usize,
                },
            ]
        } else {
            Seq::empty()
        })
    }
}

/// All duplicate pairs among the first `n` modules, ordered by the later index, then the earlier.
pub open spec fn duplicate_errors(ms: Seq<Vec<u8>>, n: int) -> Seq<VerificationError>
    decreases n,
{
    if n <= 0 {
        Seq::empty()
    } else {
        duplicate_errors(ms, n - 1) + duplicates_of(ms, n - 1, n - 1)
    }
}

/// Every finding of the structural check, in the order in which it is reported.
pub open spec fn bundle_errors(ms: Seq<Vec<u8>>, l: StructuralLimits) -> Seq<VerificationError> {
    (if ms.len() == 0 {
        seq![VerificationError::EmptyModuleSet]
    } else {
        Seq::empty()
    }) + (if ms.len() > l.max_module_count {
        seq![VerificationError::TooManyModules { limit: l.max_module_count, got: ms.len() as usize }]
    } else {
        Seq::empty()
    }) + (if total_len(ms) > l.max_total_size {
        seq![
            VerificationError::TotalSizeTooLarge {
                limit: l.max_total_size,
                got: total_len(ms) as usize,
            },
        ]
    } else {
        Seq::empty()
    }) + per_module_errors(ms, l, ms.len() as int) + duplicate_errors(ms, ms.len() as int)
}

/// The outcome of the check under a policy.
pub open spec fn spec_verify_bundle(ms: Seq<Vec<u8>>, p: BytecodePolicy) -> Result<
    (),
    Seq<VerificationError>,
> {
    if !p.structural_verifier_enabled || bundle_errors(ms, p.limits).len() == 0 {
        Ok(())
    } else {
        Err(bundle_errors(ms, p.limits))
    }
}

pub open spec fn verify_result_view(r: Result<(), Vec<VerificationError>>) -> Result<
    (),
    Seq<VerificationError>,
> {
    match r {
        Ok(()) => Ok(()),
        Err(v) => Err(v@),
    }
}

proof fn lemma_total_len_prefix(ms: Seq<Vec<u8>>, i: int)
    requires
        0 <= i <= ms.len(),
    ensures
        0 <= total_len(ms.take(i)) <= total_len(ms),
    decreases ms.len() - i,
{
    if i < ms.len() {
        lemma_total_len_prefix(ms, i + 1);
        assert(ms.take(i + 1).drop_last() =~= ms.take(i));
    } else {
        assert(ms.take(i) =~= ms);
    }
    lemma_total_len_nonneg(ms.take(i));
}

proof fn lemma_total_len_nonneg(ms: Seq<Vec<u8>>)
    ensures
        total_len(ms) >= 0,
    decreases ms.len(),
{
    if ms.len() > 0 {
        lemma_total_len_nonneg(ms.drop_last());
    }
}

/// Checks a publish bundle and reports every finding at once.
pub fn verify_publish_bundle(modules: &[Vec<u8>], policy: &BytecodePolicy) -> (r: Result<
    (),
    Vec<VerificationError>,
>)
    requires
        total_len(modules@) <= usize::MAX,
    ensures
        verify_result_view(r) == spec_verify_bundle(modules@, *policy),
{
    if !policy.structural_verifier_enabled {
        return Ok(());
    }
    let ghost ms = modules@;
    let ghost l = policy.limits;
    let mut errors: Vec<VerificationError> = Vec::new();

    if modules.len() == 0 {
        errors.push(VerificationError::EmptyModuleSet);
    }
    if modules.len() > policy.limits.max_module_count {
        errors.push(
            VerificationError::TooManyModules {
                limit: policy.limits.max_module_count,
                got: modules.len(),
            },
        );
    }

    let mut total_size: usize = 0;
    let mut i: usize = 0;
    while i < modules.len()
        invariant
            i <= ms.len(),
            ms == modules@,
            total_len(ms) <= usize::MAX,
            total_size == total_len(ms.take(i as int)),
        decreases ms.len() - i,
    {
        proof {
            lemma_total_len_prefix(ms, i as int + 1);
            assert(ms.take(i as int + 1).drop_last() =~= ms.take(i as int));
        }
        total_size = total_size + modules[i].len();
        i += 1;
    }
    assert(ms.take(ms.len() as int) =~= ms);
    if total_size > policy.limits.max_total_size {
        errors.push(
            VerificationError::TotalSizeTooLarge {
                limit: policy.limits.max_total_size,
                got: total_size,
            },
        );
    }

    let ghost head = errors@;
    let mut index: usize = 0;
    while index < modules.len()
        invariant
            index <= ms.len(),
            ms == modules@,
            l == policy.limits,
            errors@ == head + per_module_errors(ms, l, index as int),
        decreases ms.len() - index,
    {
        let ghost before = errors@;
        let module = &modules[index];
        if module.len() == 0 {
            errors.push(VerificationError::EmptyModule { index });
        }
        if module.len() > policy.limits.max_module_size {
            errors.push(
                VerificationError::ModuleTooLarge {
                    index,
                    limit: policy.limits.max_module_size,
                    got: module.len(),
                },
            );
        }
        assert(errors@ =~= before + module_errors(ms, l, index as int));
        index += 1;
    }

    let ghost middle = errors@;
    let mut second: usize = 0;
    while second < modules.len()
        invariant
            second <= ms.len(),
            ms == modules@,
            errors@ == middle + duplicate_errors(ms, second as int),
        decreases ms.len() - second,
    {
        let ghost outer = errors@;
        let mut first: usize = 0;
        while first < second
            invariant
                first <= second < ms.len(),
                ms == modules@,
                errors@ == outer + duplicates_of(ms, second as int, first as int),
            decreases second - first,
        {
            let ghost before = errors@;
            if bytes_eq(modules[first].as_slice(), modules[second].as_slice()) {
                errors.push(VerificationError::DuplicateModuleBytes { first, second });
            }
            assert(errors@ =~= before + (if ms[first as int]@ == ms[second as int]@ {
                seq![VerificationError::DuplicateModuleBytes { first, second }]
            } else {
                Seq::empty()
            }));
            first += 1;
        }
        assert(errors@ =~= outer + duplicates_of(ms, second as int, second as int));
        second += 1;
    }
    assert(errors@ =~= bundle_errors(ms, l));

    if errors.len() == 0 {
        Ok(())
    } else {
        Err(errors)
    }
}

/// Whether a bundle passes every structural check: it is not empty, within the count and
/// total-size limits, every module is non-empty and within the module-size limit, and no
/// two modules have the same bytes.
pub open spec fn bundle_acceptable(ms: Seq<Vec<u8>>, l: StructuralLimits) -> bool {
    &&& ms.len() > 0
    &&& ms.len() <= l.max_module_count
    &&& total_len(ms) <= l.max_total_size
    &&& forall|i: int| 0 <= i < ms.len() ==> 0 < (#[trigger] ms[i])@.len() <= l.max_module_size
    &&& forall|i: int, j: int| 0 <= i < j < ms.len() ==> (#[trigger] ms[i])@ != (#[trigger] ms[j])@
}

proof fn lemma_per_module_errors_empty(ms: Seq<Vec<u8>>, l: StructuralLimits, n: int)
    requires
        0 <= n <= ms.len(),
    ensures
        per_module_errors(ms, l, n).len() == 0 <==> forall|i: int|
            0 <= i < n ==> 0 < (#[trigger] ms[i])@.len() <= l.max_module_size,
    decreases n,
{
    if n > 0 {
        lemma_per_module_errors_empty(ms, l, n - 1);
        if per_module_errors(ms, l, n).len() == 0 {
            assert forall|i: int| 0 <= i < n implies 0 < (#[trigger] ms[i])@.len()
                <= l.max_module_size by {
                if i == n - 1 {
                    assert(module_errors(ms, l, n - 1).len() == 0);
                }
            }
        }
    }
}

proof fn lemma_duplicates_of_empty(ms: Seq<Vec<u8>>, second: int, n: int)
    requires
        0 <= n <= second < ms.len(),
    ensures
        duplicates_of(ms, second, n).len() == 0 <==> forall|f: int|
            0 <= f < n ==> (#[trigger] ms[f])@ != ms[second]@,
    decreases n,
{
    if n > 0 {
        lemma_duplicates_of_empty(ms, second, n - 1);
    }
}

proof fn lemma_duplicate_errors_empty(ms: Seq<Vec<u8>>, n: int)
    requires
        0 <= n <= ms.len(),
    ensures
        duplicate_errors(ms, n).len() == 0 <==> forall|i: int, j: int|
            0 <= i < j < n ==> (#[trigger] ms[i])@ != (#[trigger] ms[j])@,
    decreases n,
{
    if n > 0 {
        lemma_duplicate_errors_empty(ms, n - 1);
        lemma_duplicates_of_empty(ms, n - 1, n - 1);
        if duplicate_errors(ms, n).len() == 0 {
            assert forall|i: int, j: int| 0 <= i < j < n implies (#[trigger] ms[i])@
                != (#[trigger] ms[j])@ by {
                if j == n - 1 {
                    assert(ms[i]@ != ms[n - 1]@);
                }
            }
        }
    }
}

/// The structural check accepts a bundle exactly when it is disabled or the bundle passes
/// every check.
pub proof fn law_bundle_accepted_iff_acceptable(ms: Seq<Vec<u8>>, p: BytecodePolicy)
    ensures
        spec_verify_bundle(ms, p) is Ok <==> (!p.structural_verifier_enabled || bundle_acceptable(
            ms,
            p.limits,
        )),
{
    let l = p.limits;
    lemma_per_module_errors_empty(ms, l, ms.len() as int);
    lemma_duplicate_errors_empty(ms, ms.len() as int);
}

/// With the check enabled, an empty bundle is refused, and its first finding says so.
pub proof fn law_empty_bundle_refused(p: BytecodePolicy)
    requires
        p.structural_verifier_enabled,
    ensures
        spec_verify_bundle(Seq::<Vec<u8>>::empty(), p) matches Err(errors) && errors[0]
            == VerificationError::EmptyModuleSet,
{
    assert(per_module_errors(Seq::<Vec<u8>>::empty(), p.limits, 0) =~= Seq::empty());
    assert(duplicate_errors(Seq::<Vec<u8>>::empty(), 0) =~= Seq::empty());
}

} // verus!
