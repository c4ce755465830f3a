use nexus_move::bytecode::{verify_publish_bundle, BytecodePolicy, VerificationError};

#[test]
fn rejects_empty_publish_bundle() {
    let policy = BytecodePolicy::bootstrap();
    let errors = verify_publish_bundle(&[], &policy).unwrap_err();
    assert_eq!(errors, vec![VerificationError::EmptyModuleSet]);
}

#[test]
fn rejects_duplicate_module_bytes() {
    let policy = BytecodePolicy::bootstrap();
    let modules = vec![vec![1, 2, 3], vec![1, 2, 3]];
    let errors = verify_publish_bundle(&modules, &policy).unwrap_err();
    assert!(errors.contains(&VerificationError::DuplicateModuleBytes { first: 0, second: 1 }));
}

#[test]
fn accepts_small_unique_bundle() {
    let policy = BytecodePolicy::bootstrap();
    let modules = vec![vec![1, 2, 3], vec![4, 5, 6]];
    assert!(verify_publish_bundle(&modules, &policy).is_ok());
}

#[test]
fn rejects_too_many_modules() {
    let mut policy = BytecodePolicy::bootstrap();
    policy.limits.max_module_count = 2;
    let modules = vec![vec![1], vec![2], vec![3]];
    let errors = verify_publish_bundle(&modules, &policy).unwrap_err();
    assert!(errors.contains(&VerificationError::TooManyModules { limit: 2, got: 3 }));
}

#[test]
fn rejects_module_too_large() {
    let mut policy = BytecodePolicy::bootstrap();
    policy.limits.max_module_size = 4;
    let modules = vec![vec![1, 2, 3, 4, 5]];
    let errors = verify_publish_bundle(&modules, &policy).unwrap_err();
    assert!(errors.contains(&VerificationError::ModuleTooLarge { index: 0, limit: 4, got: 5 }));
}

#[test]
fn rejects_total_size_too_large() {
    let mut policy = BytecodePolicy::bootstrap();
    policy.limits.max_total_size = 5;
    let modules = vec![vec![1, 2, 3], vec![4, 5, 6]];
    let errors = verify_publish_bundle(&modules, &policy).unwrap_err();
    assert!(errors.contains(&VerificationError::TotalSizeTooLarge { limit: 5, got: 6 }));
}

#[test]
fn rejects_empty_module() {
    let policy = BytecodePolicy::bootstrap();
    let modules = vec![vec![1, 2, 3], vec![]];
    let errors = verify_publish_bundle(&modules, &policy).unwrap_err();
    assert!(errors.contains(&VerificationError::EmptyModule { index: 1 }));
}

#[test]
fn disabled_verifier_skips_all_checks() {
    let mut policy = BytecodePolicy::bootstrap();
    policy.structural_verifier_enabled = false;
    assert!(verify_publish_bundle(&[], &policy).is_ok());
    let modules = vec![vec![1, 2], vec![1, 2]];
    assert!(verify_publish_bundle(&modules, &policy).is_ok());
}

#[test]
fn collects_multiple_errors_at_once() {
    let mut policy = BytecodePolicy::bootstrap();
    policy.limits.max_module_count = 1;
    policy.limits.max_total_size = 2;
    let modules = vec![vec![1, 2, 3], vec![1, 2, 3]];
    let errors = verify_publish_bundle(&modules, &policy).unwrap_err();
    assert!(errors.len() >= 3, "should collect at least 3 errors, got {}", errors.len());
}

#[test]
fn errors_come_in_check_order() {
    let mut policy = BytecodePolicy::bootstrap();
    policy.limits.max_module_count = 1;
    policy.limits.max_total_size = 2;
    policy.limits.max_module_size = 2;
    let modules = vec![vec![1, 2, 3], vec![1, 2, 3], vec![]];
    let errors = verify_publish_bundle(&modules, &policy).unwrap_err();
    assert_eq!(
        errors,
        vec![
            VerificationError::TooManyModules { limit: 1, got: 3 },
            VerificationError::TotalSizeTooLarge { limit: 2, got: 6 },
            VerificationError::ModuleTooLarge { index: 0, limit: 2, got: 3 },
            VerificationError::ModuleTooLarge { index: 1, limit: 2, got: 3 },
            VerificationError::EmptyModule { index: 2 },
            VerificationError::DuplicateModuleBytes { first: 0, second: 1 },
        ]
    );
}

#[test]
fn bootstrap_policy_limits() {
    let policy = BytecodePolicy::bootstrap();
    assert!(policy.structural_verifier_enabled);
    assert!(!policy.semantic_verifier_enabled);
    assert_eq!(policy.limits.max_module_count, 64);
    assert_eq!(policy.limits.max_module_size, 512 * 1024);
    assert_eq!(policy.limits.max_total_size, 2 * 1024 * 1024);
}
