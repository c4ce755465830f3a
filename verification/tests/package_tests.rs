use nexus_move::package::{
    build_artifact_manifest, build_command_args, build_package_metadata, inspect_move_toml,
    merged_named_addresses, orchestrate_build, parse_named_address_assignment,
    parse_named_address_assignments, plan_build, precompiled_bytecode_dir, precompiled_package,
    sort_modules_by_name, BuildArtifactLayout, BuildConfigError, BuildError, BuildOptions,
    BuildPlan, CompileBackend, CompiledModule, CompiledPackage, PackageFrontendPlan,
    UpgradePolicy, KNOWN_ATTRIBUTE_VIEW, native_sources_dir, workspace_build_package,
};
use nexus_move::types::{AccountAddress, AddressParseError, NamedAddressAssignment};

struct StubBackend;

impl CompileBackend for StubBackend {
    fn compile(&self, plan: &BuildPlan) -> Result<CompiledPackage, BuildError> {
        Ok(CompiledPackage {
            package_name: "counter".into(),
            upgrade_policy: plan.move_toml.upgrade_policy,
            named_addresses: merged_named_addresses(plan),
            modules: vec![CompiledModule {
                name: "counter".into(),
                bytes: vec![0xa1, 0x1c, 0xeb, 0x0b, 1, 0, 0, 0],
            }],
        })
    }
}

struct EmptyBackend;

impl CompileBackend for EmptyBackend {
    fn compile(&self, plan: &BuildPlan) -> Result<CompiledPackage, BuildError> {
        Ok(CompiledPackage {
            package_name: "empty".into(),
            upgrade_policy: plan.move_toml.upgrade_policy,
            named_addresses: Vec::new(),
            modules: Vec::new(),
        })
    }
}

fn plan_with(toml: &str, overrides: Vec<NamedAddressAssignment>) -> BuildPlan {
    let mut options = BuildOptions::bootstrap("pkg");
    options.named_addresses = overrides;
    plan_build(options, toml, true).unwrap()
}

#[test]
fn parses_named_address_assignment() {
    let parsed = parse_named_address_assignment("counter_addr=0xCAFE").unwrap();
    assert_eq!(parsed.name, "counter_addr");
    assert_eq!(parsed.address.0[30], 0xCA);
    assert_eq!(parsed.address.0[31], 0xFE);
}

#[test]
fn build_plan_defaults_to_offline_mode() {
    let plan = PackageFrontendPlan::bootstrap("contracts/examples/counter");
    assert!(!plan.allows_remote_git);
    assert!(plan.build_options.skip_fetch_latest_git_deps);
    assert_eq!(plan.build_options.known_attributes, vec!["view".to_string()]);
}

#[test]
fn inspect_move_toml_prefers_dev_addresses() {
    let info = inspect_move_toml(
        r#"
            [package]
            name = "counter"
            upgrade_policy = "compatible"

            [addresses]
            counter_addr = "0x1"

            [dev-addresses]
            counter_addr = "0xCAFE"
            "#,
    );

    assert_eq!(info.package_name.as_deref(), Some("counter"));
    assert_eq!(info.upgrade_policy, UpgradePolicy::Compatible);
    assert_eq!(info.named_addresses.len(), 1);
    assert_eq!(info.named_addresses[0].address.0[30], 0xCA);
    assert_eq!(info.named_addresses[0].address.0[31], 0xFE);
}

#[test]
fn skips_placeholder_named_addresses() {
    let info = inspect_move_toml(
        r#"
            [addresses]
            counter_addr = "_"
            "#,
    );
    assert!(info.named_addresses.is_empty());
}

#[test]
fn inspect_move_toml_supports_governance_alias() {
    let info = inspect_move_toml(
        r#"
            [package]
            upgrade_policy = "governance"
            "#,
    );
    assert_eq!(info.upgrade_policy, UpgradePolicy::GovernanceOnly);
}

#[test]
fn inspect_move_toml_ignores_comments_other_sections_and_bad_addresses() {
    let info = inspect_move_toml(
        "[package] # the package\r\nname = \"demo\" # trailing\r\n[dependencies]\nname = \"other\"\n[addresses]\nstd = \"0x1\"\nbad = \"0xZZ\"\nnoequals\n",
    );
    assert_eq!(info.package_name.as_deref(), Some("demo"));
    assert_eq!(info.upgrade_policy, UpgradePolicy::Immutable);
    assert_eq!(info.named_addresses.len(), 1);
    assert_eq!(info.named_addresses[0].name, "std");
    assert_eq!(info.named_addresses[0].address.0[31], 1);
}

#[test]
fn assignment_errors_name_the_input() {
    assert_eq!(
        parse_named_address_assignment("no-separator"),
        Err(BuildConfigError::MissingSeparator("no-separator".to_string()))
    );
    assert_eq!(
        parse_named_address_assignment(" a = 0xG1 "),
        Err(BuildConfigError::InvalidAddress {
            input: "0xG1".to_string(),
            reason: AddressParseError::InvalidHex { index: 0, byte: b'G' },
        })
    );
    let parsed = parse_named_address_assignment("  spaced  =  0x2  ").unwrap();
    assert_eq!(parsed.name, "spaced");
    let list = parse_named_address_assignments(&["a=0x1".to_string(), "b".to_string(), "c=0xZ".to_string()]);
    assert_eq!(list, Err(BuildConfigError::MissingSeparator("b".to_string())));
    let ok = parse_named_address_assignments(&["a=0x1".to_string(), "b=0x2".to_string()]).unwrap();
    assert_eq!(ok.len(), 2);
}

#[test]
fn cli_addresses_override_move_toml() {
    let cafe = AccountAddress::from_hex_literal("0xCAFE").unwrap();
    let plan = plan_with(
        "[addresses]\ncounter_addr = \"0x1\"\nother = \"0x2\"\n",
        vec![
            NamedAddressAssignment { name: "counter_addr".into(), address: cafe },
            NamedAddressAssignment { name: "extra".into(), address: cafe },
        ],
    );
    let merged = merged_named_addresses(&plan);
    assert_eq!(merged.len(), 3);
    assert_eq!(merged[0].address, cafe);
    assert_eq!(merged[1].name, "other");
    assert_eq!(merged[2].name, "extra");
}

#[test]
fn missing_package_dir_is_an_error() {
    let options = BuildOptions::bootstrap("/nonexistent/dir");
    assert_eq!(
        plan_build(options, "", false),
        Err(BuildError::PackageDirMissing("/nonexistent/dir".to_string()))
    );
}

#[test]
fn layout_joins_paths() {
    let layout = BuildArtifactLayout::for_package_dir("pkg");
    assert_eq!(layout.build_dir, "pkg/build");
    assert_eq!(layout.artifact_dir, "pkg/nexus-artifact");
    assert_eq!(layout.bytecode_dir, "pkg/nexus-artifact/bytecode");
    let layout = BuildArtifactLayout::for_package_dir("pkg/");
    assert_eq!(layout.build_dir, "pkg/build");
    assert_eq!(KNOWN_ATTRIBUTE_VIEW, "view");
}

#[test]
fn orchestrated_build_has_metadata_and_manifest() {
    let plan = plan_with("[package]\nname = \"counter\"\nupgrade_policy = \"compatible\"\n", vec![]);
    let (_compiled, metadata, manifest) = orchestrate_build(&StubBackend, &plan).unwrap();
    assert_eq!(metadata.name, "counter");
    assert_eq!(metadata.upgrade_policy, UpgradePolicy::Compatible);
    assert_eq!(metadata.deployer, AccountAddress([0; 32]));
    assert_eq!(metadata.abi_hash, [0; 32]);
    assert_eq!(manifest.module_count, 1);
    assert_eq!(manifest.package_name, "counter");
    assert_eq!(manifest.upgrade_policy, "Compatible");
    let bytes = [0xa1u8, 0x1c, 0xeb, 0x0b, 1, 0, 0, 0];
    assert_eq!(manifest.package_hash, blake3::hash(&bytes).to_hex().to_string());
    assert_eq!(manifest.modules[0].blake3, blake3::hash(&bytes).to_hex().to_string());
    assert_eq!(manifest.total_bytecode_bytes, 8);
    assert_eq!(orchestrate_build(&EmptyBackend, &plan).unwrap_err(), BuildError::NoModulesProduced);
}

#[test]
fn package_metadata_hashes_all_modules() {
    let compiled = CompiledPackage {
        package_name: "p".into(),
        upgrade_policy: UpgradePolicy::Immutable,
        named_addresses: vec![NamedAddressAssignment { name: "n".into(), address: AccountAddress([3; 32]) }],
        modules: vec![
            CompiledModule { name: "a".into(), bytes: vec![1, 2] },
            CompiledModule { name: "b".into(), bytes: vec![3] },
        ],
    };
    let meta = build_package_metadata(&compiled, AccountAddress([7; 32]));
    assert_eq!(meta.package_hash, *blake3::hash(&[1, 2, 3]).as_bytes());
    assert_eq!(meta.module_hashes[1], ("b".to_string(), *blake3::hash(&[3]).as_bytes()));
    assert_eq!(meta.named_addresses, vec![("n".to_string(), AccountAddress([3; 32]))]);
    let manifest = build_artifact_manifest(&compiled);
    assert_eq!(manifest.total_bytecode_bytes, 3);
    assert_eq!(manifest.modules[0].size_bytes, 2);
    assert_eq!(manifest.upgrade_policy, "Immutable");
}

#[test]
fn precompiled_modules_sorted_by_name() {
    let plan = plan_with("", vec![]);
    let modules = vec![
        CompiledModule { name: "zeta".into(), bytes: vec![1] },
        CompiledModule { name: "alpha".into(), bytes: vec![2] },
        CompiledModule { name: "alpha".into(), bytes: vec![3] },
    ];
    let sorted = sort_modules_by_name(&modules);
    assert_eq!(sorted[0].bytes, vec![2]);
    assert_eq!(sorted[1].bytes, vec![3]);
    assert_eq!(sorted[2].name, "zeta");
    let package = precompiled_package(&plan, &modules);
    assert_eq!(package.package_name, "unknown");
    assert_eq!(package.modules[2].name, "zeta");
    assert_eq!(precompiled_bytecode_dir(&None, &plan), "pkg/nexus-artifact/bytecode");
    assert_eq!(precompiled_bytecode_dir(&Some("/x".to_string()), &plan), "/x");
}

#[test]
fn build_command_lists_expected_arguments() {
    let options = BuildOptions {
        package_dir: "/tmp/pkg".into(),
        named_addresses: vec![parse_named_address_assignment("counter_addr=0xCAFE").unwrap()],
        skip_fetch_latest_git_deps: true,
        known_attributes: vec![KNOWN_ATTRIBUTE_VIEW.into()],
    };
    let args = build_command_args("/tmp/main/Cargo.toml", &options);
    assert_eq!(args[0], "run");
    assert!(args.contains(&"--manifest-path".to_string()));
    assert!(args.contains(&"/tmp/main/Cargo.toml".to_string()));
    assert!(args.contains(&"nexus-wallet".to_string()));
    assert!(args.contains(&"--skip-fetch".to_string()));
    assert!(args.last().unwrap().starts_with("counter_addr=0x"));
    assert!(args.last().unwrap().ends_with("cafe"));
}

#[test]
fn workspace_build_without_modules_fails() {
    let plan = plan_with("", vec![]);
    assert_eq!(workspace_build_package(&plan, &Vec::new(), "counter"), Err(BuildError::NoModulesProduced));
}

#[test]
fn workspace_build_names_package_after_directory_and_sorts() {
    let plan = plan_with("", vec![]);
    let modules = vec![
        CompiledModule { name: "zeta".into(), bytes: vec![1] },
        CompiledModule { name: "alpha".into(), bytes: vec![2] },
    ];
    let package = workspace_build_package(&plan, &modules, "counter").unwrap();
    assert_eq!(package.package_name, "counter");
    assert_eq!(package.modules[0].name, "alpha");
    assert_eq!(package.modules[1].name, "zeta");
    let named = plan_with("[package]\nname = \"Token\"\n", vec![]);
    assert_eq!(workspace_build_package(&named, &modules, "counter").unwrap().package_name, "Token");
}

#[test]
fn native_sources_must_exist() {
    let plan = plan_with("", vec![]);
    assert_eq!(native_sources_dir(&plan, true), Ok("pkg/sources".to_string()));
    assert_eq!(
        native_sources_dir(&plan, false),
        Err(BuildError::PackageDirMissing("pkg/sources".to_string()))
    );
}

#[test]
fn frontend_plan_holds_bootstrap_snapshot() {
    let plan = PackageFrontendPlan::bootstrap("contracts/examples/counter");
    assert_eq!(plan.stdlib_snapshot, nexus_move::stdlib::StdlibSnapshot::bootstrap());
}
