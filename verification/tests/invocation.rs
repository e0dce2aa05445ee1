use artifact_resolver::invocation::{
    test_arguments, BackendKind, BuildProfile, CommonFlags, FeatureSelection, ListRequest,
    PackageSelection, TestRequest,
};
use artifact_resolver::names::NameSet;
use std::str::FromStr;
use target_lexicon::Triple;

fn strings(list: &[&str]) -> Vec<String> {
    list.iter().map(|s| s.to_string()).collect()
}

fn features(list: &[&str]) -> FeatureSelection {
    let mut enabled = NameSet::new();
    for name in list {
        enabled.insert(name.to_string());
    }
    FeatureSelection { enabled }
}

const PLAIN: CommonFlags = CommonFlags { locked: false, verbose: false };

#[test]
fn release_run_of_one_crate() {
    let request = TestRequest {
        packages: PackageSelection::Crates { crates: strings(&["vmm_tests"]) },
        profile: BuildProfile::Release,
        features: FeatureSelection::none(),
        target: Triple::from_str("x86_64-unknown-linux-gnu").unwrap(),
        extra_args: None,
    };
    assert_eq!(
        request.arguments(PLAIN),
        strings(&[
            "--tests",
            "--bins",
            "-p",
            "vmm_tests",
            "--target",
            "x86_64-unknown-linux-gnu",
            "--profile",
            "release",
        ])
    );
}

#[test]
fn locked_comes_before_verbose_and_both_come_first() {
    let packages = PackageSelection::Crates { crates: strings(&["a"]) };
    let args = test_arguments(
        CommonFlags { locked: true, verbose: true },
        &packages,
        &FeatureSelection::none(),
        "t",
        &BuildProfile::Debug,
        &None,
    );
    assert_eq!(
        args,
        strings(&["--locked", "--verbose", "--tests", "--bins", "-p", "a", "--target", "t", "--profile", "dev"])
    );
    let only_verbose = test_arguments(
        CommonFlags { locked: false, verbose: true },
        &packages,
        &FeatureSelection::none(),
        "t",
        &BuildProfile::Debug,
        &None,
    );
    assert_eq!(only_verbose[0], "--verbose");
    assert_eq!(only_verbose[1], "--tests");
    let only_locked = test_arguments(
        CommonFlags { locked: true, verbose: false },
        &packages,
        &FeatureSelection::none(),
        "t",
        &BuildProfile::Debug,
        &None,
    );
    assert_eq!(only_locked[0], "--locked");
    assert_eq!(only_locked[1], "--tests");
}

#[test]
fn workspace_excludes_in_the_order_given() {
    let packages = PackageSelection::Workspace { exclude: strings(&["zeta", "alpha", "mid"]) };
    assert_eq!(
        packages.tokens(),
        strings(&["--workspace", "--exclude", "zeta", "--exclude", "alpha", "--exclude", "mid"])
    );
    let all = PackageSelection::Workspace { exclude: Vec::new() };
    assert_eq!(all.tokens(), strings(&["--workspace"]));
}

#[test]
fn crates_are_selected_in_the_order_given() {
    let packages = PackageSelection::Crates { crates: strings(&["b", "a"]) };
    assert_eq!(packages.tokens(), strings(&["-p", "b", "-p", "a"]));
    let nothing = PackageSelection::Crates { crates: Vec::new() };
    assert_eq!(nothing.tokens(), Vec::<String>::new());
}

#[test]
fn features_render_to_one_list() {
    assert_eq!(features(&[]).tokens(), Vec::<String>::new());
    assert_eq!(features(&["one"]).tokens(), strings(&["--features", "one"]));
    assert_eq!(
        features(&["one", "two", "one", "three"]).tokens(),
        strings(&["--features", "one,three,two"])
    );
}

#[test]
fn features_follow_the_package_selection() {
    let args = test_arguments(
        PLAIN,
        &PackageSelection::Workspace { exclude: strings(&["x"]) },
        &features(&["f", "g"]),
        "aarch64-unknown-linux-gnu",
        &BuildProfile::Custom("ci".to_string()),
        &Some(strings(&["--nocapture", "--", "odd"])),
    );
    assert_eq!(
        args,
        strings(&[
            "--tests",
            "--bins",
            "--workspace",
            "--exclude",
            "x",
            "--features",
            "f,g",
            "--target",
            "aarch64-unknown-linux-gnu",
            "--profile",
            "ci",
            "--",
            "--nocapture",
            "--",
            "odd",
        ])
    );
}

#[test]
fn empty_extra_arguments_still_get_the_separator() {
    let args = test_arguments(
        PLAIN,
        &PackageSelection::Crates { crates: Vec::new() },
        &FeatureSelection::none(),
        "t",
        &BuildProfile::Release,
        &Some(Vec::new()),
    );
    assert_eq!(args, strings(&["--tests", "--bins", "--target", "t", "--profile", "release", "--"]));
}

#[test]
fn profiles_have_cargo_names() {
    assert_eq!(BuildProfile::Debug.name(), "dev");
    assert_eq!(BuildProfile::Release.name(), "release");
    assert_eq!(BuildProfile::Custom("bench-like".to_string()).name(), "bench-like");
}

#[test]
fn manifest_request_lists_required_artifacts() {
    let target = Triple::from_str("x86_64-pc-windows-msvc").unwrap();
    let request = TestRequest::for_manifest(&target, true);
    assert_eq!(
        request.arguments(CommonFlags { locked: true, verbose: false }),
        strings(&[
            "--locked",
            "--tests",
            "--bins",
            "-p",
            "vmm_tests",
            "--target",
            "x86_64-pc-windows-msvc",
            "--profile",
            "release",
            "--",
            "--list-required-artifacts=json",
        ])
    );
    let debug = TestRequest::for_manifest(&target, false);
    assert!(matches!(debug.profile, BuildProfile::Debug));
    assert_eq!(debug.target, target);
    assert_eq!(debug.features.enabled.len(), 0);
}

#[test]
fn remote_backend_switches_incremental_off() {
    let target = Triple::from_str("aarch64-unknown-linux-musl").unwrap();
    let request = TestRequest::for_manifest(&target, false);
    let local = request.invocation(PLAIN, &None, BackendKind::Local);
    assert_eq!(local.program, strings(&["cargo", "test"]));
    assert!(local.env.is_empty());
    assert_eq!(local.args, request.arguments(PLAIN));
    let remote = request.invocation(PLAIN, &Some("nightly".to_string()), BackendKind::Remote);
    assert_eq!(remote.program, strings(&["rustup", "run", "nightly", "cargo", "test"]));
    assert_eq!(remote.env, vec![("CARGO_INCREMENTAL".to_string(), "0".to_string())]);
    assert_eq!(remote.args[5], "aarch64-unknown-linux-musl");
}

#[test]
fn list_request_keeps_ignored_tests_out() {
    let target = Triple::from_str("x86_64-unknown-linux-gnu").unwrap();
    let request = ListRequest::for_filter(
        "tests.tar.zst".to_string(),
        &target,
        "cargo-nextest".to_string(),
        "/work".to_string(),
        "nextest.toml".to_string(),
        "ci".to_string(),
        "test(boot)".to_string(),
        "/out".to_string(),
    );
    assert_eq!(request.archive_file, "tests.tar.zst");
    assert_eq!(request.target, target);
    assert_eq!(request.nextest_bin, "cargo-nextest");
    assert_eq!(request.working_dir, "/work");
    assert_eq!(request.config_file, "nextest.toml");
    assert_eq!(request.nextest_profile, "ci");
    assert_eq!(request.filter_expr, Some("test(boot)".to_string()));
    assert!(!request.run_ignored);
    assert_eq!(request.output_dir, "/out");
}
