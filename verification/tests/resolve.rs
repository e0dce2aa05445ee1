use artifact_resolver::artifact::{ArtifactSet, TestRecord};
use artifact_resolver::identifier::ArtifactIdentifier;
use artifact_resolver::error::{ProcessError, ResolveError, SchemaRule};
use artifact_resolver::names::NameSet;
use artifact_resolver::resolver::{
    gather, resolve, resolve_build_plan, resolve_from_runs, resolve_with_report,
};
use artifact_resolver::selections::{
    classification_table, select, unlisted_of, ArtifactClass, BuildSelections, HostPlatform, Toggle,
};

fn names(list: &[&str]) -> NameSet {
    let mut set = NameSet::new();
    for name in list {
        set.insert(name.to_string());
    }
    set
}

fn ids(list: &[&str]) -> ArtifactSet {
    let mut set = ArtifactSet::new();
    for name in list {
        set.insert(ArtifactIdentifier::new(name.to_string()));
    }
    set
}

fn record(name: &str, required: &[&str], optional: &[&str]) -> TestRecord {
    TestRecord { name: name.to_string(), required: ids(required), optional: ids(optional) }
}

fn listing(cases: &[(&str, &str)]) -> String {
    let mut body = String::new();
    for (i, (name, status)) in cases.iter().enumerate() {
        if i > 0 {
            body.push(',');
        }
        body.push_str(&format!(
            "\"{}\":{{\"filter-match\":{{\"status\":\"{}\"}}}}",
            name, status
        ));
    }
    format!("{{\"rust-suites\":{{\"vmm_tests::tests\":{{\"testcases\":{{{}}}}}}}}}", body)
}

const NONE: BuildSelections = BuildSelections {
    openhcl: false,
    openvmm: false,
    pipette_windows: false,
    pipette_linux: false,
    prep_steps: false,
    guest_test_uefi: false,
    tmks: false,
    tmk_vmm_windows: false,
    tmk_vmm_linux: false,
    vmgstool: false,
};

#[test]
fn only_guest_test_uefi_is_selected() {
    let matched = names(&["test_boot_uefi"]);
    let records = vec![record("test_boot_uefi", &["GUEST_TEST_UEFI_X64"], &[])];
    let plan = resolve(&matched, &records, HostPlatform::Linux);
    assert_eq!(plan, BuildSelections { guest_test_uefi: true, ..NONE });
}

#[test]
fn only_guest_test_uefi_is_selected_from_text() {
    let listing = listing(&[("test_boot_uefi", "matches")]);
    let manifest =
        "[{\"name\":\"test_boot_uefi\",\"required\":[\"GUEST_TEST_UEFI_X64\"],\"optional\":[]}]";
    let plan = resolve_build_plan(&listing, manifest, HostPlatform::Windows).unwrap();
    assert_eq!(plan, BuildSelections { guest_test_uefi: true, ..NONE });
}

#[test]
fn unmatched_record_selects_nothing() {
    let matched = names(&["test_boot_uefi"]);
    let records = vec![record("test_unrelated", &["OPENVMM_NATIVE", "PIPETTE_LINUX_X64"], &["VMGSTOOL_NATIVE"])];
    assert_eq!(resolve(&matched, &records, HostPlatform::Linux), NONE);
}

#[test]
fn unmatched_record_selects_nothing_from_text() {
    let listing = listing(&[("test_unrelated", "mismatch"), ("test_other", "matches")]);
    let manifest = "[{\"name\":\"test_unrelated\",\"required\":[\"OPENVMM_NATIVE\"],\"optional\":[\"VMGSTOOL_NATIVE\"]}]";
    let plan = resolve_build_plan(&listing, manifest, HostPlatform::Linux).unwrap();
    assert_eq!(plan, NONE);
}

#[test]
fn malformed_manifest_line_fails_with_that_line() {
    let listing = listing(&[("a", "matches")]);
    let good = "[{\"name\":\"a\",\"required\":[\"OPENVMM_NATIVE\"],\"optional\":[]}]";
    let bad = "[{\"name\":\"b\",\"required\":[";
    let manifest = format!("{}\n  {}  \n{}\n", good, bad, good);
    match resolve_build_plan(&listing, &manifest, HostPlatform::Linux) {
        Err(ResolveError::Parse(e)) => {
            assert_eq!(e.content, bad);
            assert_eq!(e.cause, "EOF while parsing a list at line 1 column 25");
        }
        other => panic!("expected a parse error, got {:?}", other),
    }
}

#[test]
fn empty_match_set_gives_the_default() {
    let records = vec![
        record("a", &["OPENVMM_NATIVE"], &["TMK_VMM_NATIVE"]),
        record("b", &["LATEST_CVM_X64"], &[]),
    ];
    let plan = resolve(&NameSet::new(), &records, HostPlatform::Windows);
    assert_eq!(plan, BuildSelections::default());
    assert_eq!(plan, NONE);
}

#[test]
fn resolving_twice_gives_the_same() {
    let listing = listing(&[("a", "matches"), ("b", "matches")]);
    let manifest = "[{\"name\":\"a\",\"required\":[\"OPENVMM_NATIVE\"],\"optional\":[\"TMK_VMM_NATIVE\"]}]\n[{\"name\":\"b\",\"required\":[\"LATEST_CVM_X64\"],\"optional\":[]}]";
    let first = resolve_build_plan(&listing, manifest, HostPlatform::Linux).unwrap();
    let second = resolve_build_plan(&listing, manifest, HostPlatform::Linux).unwrap();
    assert_eq!(first, second);
    assert_eq!(
        first,
        BuildSelections { openvmm: true, openhcl: true, tmks: true, tmk_vmm_linux: true, ..NONE }
    );
}

#[test]
fn failing_twice_gives_the_same_failure() {
    let first = resolve_build_plan("{", "", HostPlatform::Linux).unwrap_err();
    let second = resolve_build_plan("{", "", HostPlatform::Linux).unwrap_err();
    assert_eq!(first.message(), second.message());
}

#[test]
fn order_of_manifest_lines_does_not_matter() {
    let listing = listing(&[("a", "matches"), ("b", "matches")]);
    let one = "[{\"name\":\"a\",\"required\":[\"PIPETTE_WINDOWS_X64\"],\"optional\":[]}]";
    let two = "[{\"name\":\"b\",\"required\":[],\"optional\":[\"VMGSTOOL_NATIVE\"]}]";
    let forward = resolve_build_plan(&listing, &format!("{}\n{}", one, two), HostPlatform::Linux);
    let backward = resolve_build_plan(&listing, &format!("{}\n{}", two, one), HostPlatform::Linux);
    let expected = BuildSelections { pipette_windows: true, vmgstool: true, ..NONE };
    assert_eq!(forward.unwrap(), expected);
    assert_eq!(backward.unwrap(), expected);
}

#[test]
fn order_of_records_does_not_matter() {
    let matched = names(&["a", "b"]);
    let forward = vec![record("a", &["SIMPLE_TMK_X64"], &[]), record("b", &["OPENVMM_NATIVE"], &[])];
    let backward = vec![record("b", &["OPENVMM_NATIVE"], &[]), record("a", &["SIMPLE_TMK_X64"], &[])];
    let expected = BuildSelections { tmks: true, openvmm: true, ..NONE };
    assert_eq!(resolve(&matched, &forward, HostPlatform::Other), expected);
    assert_eq!(resolve(&matched, &backward, HostPlatform::Other), expected);
}

#[test]
fn order_of_listing_does_not_matter() {
    let manifest = "[{\"name\":\"a\",\"required\":[\"OPENVMM_NATIVE\"],\"optional\":[]},{\"name\":\"b\",\"required\":[\"VMGSTOOL_NATIVE\"],\"optional\":[]}]";
    let forward = "{\"rust-suites\":{\"s1\":{\"testcases\":{\"a\":{\"filter-match\":{\"status\":\"matches\"}}}},\"s2\":{\"testcases\":{\"b\":{\"filter-match\":{\"status\":\"matches\"}}}}}}";
    let backward = "{\"rust-suites\":{\"s2\":{\"testcases\":{\"b\":{\"filter-match\":{\"status\":\"matches\"}}}},\"s1\":{\"testcases\":{\"a\":{\"filter-match\":{\"status\":\"matches\"}}}}}}";
    let expected = BuildSelections { openvmm: true, vmgstool: true, ..NONE };
    assert_eq!(resolve_build_plan(forward, manifest, HostPlatform::Linux).unwrap(), expected);
    assert_eq!(resolve_build_plan(backward, manifest, HostPlatform::Linux).unwrap(), expected);
}

#[test]
fn unmatched_record_does_not_influence_the_plan() {
    let matched = names(&["a"]);
    let without = vec![record("a", &["OPENVMM_NATIVE"], &[])];
    let with = vec![
        record("skipped", &["LATEST_STANDARD_X64", "TMK_VMM_NATIVE"], &["PIPETTE_LINUX_AARCH64"]),
        record("a", &["OPENVMM_NATIVE"], &[]),
        record("skipped_too", &["GEN2_WINDOWS_DATA_CENTER_CORE2025_X64_PREPPED"], &[]),
    ];
    let expected = BuildSelections { openvmm: true, ..NONE };
    assert_eq!(resolve(&matched, &without, HostPlatform::Linux), expected);
    assert_eq!(resolve(&matched, &with, HostPlatform::Linux), expected);
}

#[test]
fn adding_an_identifier_never_clears_a_switch() {
    let all = [
        "PIPETTE_WINDOWS_X64",
        "OPENVMM_NATIVE",
        "LATEST_STANDARD_X64",
        "TMK_VMM_NATIVE",
        "SOMETHING_ELSE",
        "VMGSTOOL_NATIVE",
    ];
    let mut set = ArtifactSet::new();
    let mut before = select(&set, HostPlatform::Windows);
    assert_eq!(before, NONE);
    for name in all {
        set.insert(ArtifactIdentifier::new(name.to_string()));
        let after = select(&set, HostPlatform::Windows);
        assert!(!before.openhcl || after.openhcl);
        assert!(!before.openvmm || after.openvmm);
        assert!(!before.pipette_windows || after.pipette_windows);
        assert!(!before.pipette_linux || after.pipette_linux);
        assert!(!before.prep_steps || after.prep_steps);
        assert!(!before.guest_test_uefi || after.guest_test_uefi);
        assert!(!before.tmks || after.tmks);
        assert!(!before.tmk_vmm_windows || after.tmk_vmm_windows);
        assert!(!before.tmk_vmm_linux || after.tmk_vmm_linux);
        assert!(!before.vmgstool || after.vmgstool);
        before = after;
    }
    assert_eq!(
        before,
        BuildSelections {
            pipette_windows: true,
            openvmm: true,
            openhcl: true,
            tmks: true,
            tmk_vmm_windows: true,
            vmgstool: true,
            ..NONE
        }
    );
}

#[test]
fn native_runner_follows_the_host() {
    let set = ids(&["TMK_VMM_NATIVE"]);
    assert_eq!(
        select(&set, HostPlatform::Windows),
        BuildSelections { tmks: true, tmk_vmm_windows: true, ..NONE }
    );
    assert_eq!(
        select(&set, HostPlatform::Linux),
        BuildSelections { tmks: true, tmk_vmm_linux: true, ..NONE }
    );
    assert_eq!(select(&set, HostPlatform::Other), BuildSelections { tmks: true, ..NONE });
}

#[test]
fn required_and_optional_count_alike() {
    let matched = names(&["a"]);
    let as_required = vec![record("a", &["PIPETTE_LINUX_X64"], &[])];
    let as_optional = vec![record("a", &[], &["PIPETTE_LINUX_X64"])];
    let expected = BuildSelections { pipette_linux: true, ..NONE };
    assert_eq!(resolve(&matched, &as_required, HostPlatform::Linux), expected);
    assert_eq!(resolve(&matched, &as_optional, HostPlatform::Linux), expected);
}

#[test]
fn gather_keeps_required_and_optional_apart() {
    let matched = names(&["a", "b"]);
    let records = vec![
        record("a", &["X", "Y"], &["Z"]),
        record("b", &["Y"], &["Z", "W"]),
        record("c", &["V"], &["U"]),
    ];
    let found = gather(&matched, &records);
    assert_eq!(found.required.len(), 2);
    assert_eq!(found.optional.len(), 2);
    assert!(found.required.contains(&ArtifactIdentifier::new("X".to_string())));
    assert!(found.required.contains(&ArtifactIdentifier::new("Y".to_string())));
    assert!(!found.required.contains(&ArtifactIdentifier::new("V".to_string())));
    assert!(found.optional.contains(&ArtifactIdentifier::new("W".to_string())));
    assert!(!found.optional.contains(&ArtifactIdentifier::new("U".to_string())));
    let all = found.combined();
    assert_eq!(all.len(), 4);
    assert_eq!(all.get(0).name(), "W");
    assert_eq!(all.get(1).name(), "X");
    assert_eq!(all.get(2).name(), "Y");
    assert_eq!(all.get(3).name(), "Z");
}

#[test]
fn unknown_identifier_is_ignored() {
    let set = ids(&["NOT_IN_THE_TABLE", "guest_test_uefi_x64", "GUEST_TEST_UEFI_X64 "]);
    assert_eq!(select(&set, HostPlatform::Linux), NONE);
}

#[test]
fn prepped_disk_asks_for_prep_steps() {
    let set = ids(&["GEN2_WINDOWS_DATA_CENTER_CORE2025_X64_PREPPED"]);
    assert_eq!(select(&set, HostPlatform::Linux), BuildSelections { prep_steps: true, ..NONE });
}

#[test]
fn every_table_entry_sets_its_switches() {
    let cases: Vec<(&str, BuildSelections)> = vec![
        ("PIPETTE_WINDOWS_X64", BuildSelections { pipette_windows: true, ..NONE }),
        ("PIPETTE_WINDOWS_AARCH64", BuildSelections { pipette_windows: true, ..NONE }),
        ("PIPETTE_LINUX_X64", BuildSelections { pipette_linux: true, ..NONE }),
        ("PIPETTE_LINUX_AARCH64", BuildSelections { pipette_linux: true, ..NONE }),
        ("OPENVMM_NATIVE", BuildSelections { openvmm: true, ..NONE }),
        ("LATEST_STANDARD_X64", BuildSelections { openhcl: true, ..NONE }),
        ("LATEST_STANDARD_DEV_KERNEL_X64", BuildSelections { openhcl: true, ..NONE }),
        ("LATEST_CVM_X64", BuildSelections { openhcl: true, ..NONE }),
        ("LATEST_LINUX_DIRECT_TEST_X64", BuildSelections { openhcl: true, ..NONE }),
        ("LATEST_STANDARD_AARCH64", BuildSelections { openhcl: true, ..NONE }),
        ("LATEST_STANDARD_DEV_KERNEL_AARCH64", BuildSelections { openhcl: true, ..NONE }),
        ("RELEASE_25_05_STANDARD_X64", BuildSelections { openhcl: true, ..NONE }),
        ("RELEASE_25_05_LINUX_DIRECT_X64", BuildSelections { openhcl: true, ..NONE }),
        ("RELEASE_25_05_STANDARD_AARCH64", BuildSelections { openhcl: true, ..NONE }),
        ("GUEST_TEST_UEFI_X64", BuildSelections { guest_test_uefi: true, ..NONE }),
        ("GUEST_TEST_UEFI_AARCH64", BuildSelections { guest_test_uefi: true, ..NONE }),
        ("TMK_VMM_LINUX_X64_MUSL", BuildSelections { tmks: true, tmk_vmm_linux: true, ..NONE }),
        ("TMK_VMM_LINUX_AARCH64_MUSL", BuildSelections { tmks: true, tmk_vmm_linux: true, ..NONE }),
        ("SIMPLE_TMK_X64", BuildSelections { tmks: true, ..NONE }),
        ("SIMPLE_TMK_AARCH64", BuildSelections { tmks: true, ..NONE }),
        ("VMGSTOOL_NATIVE", BuildSelections { vmgstool: true, ..NONE }),
    ];
    for (name, expected) in cases {
        assert_eq!(select(&ids(&[name]), HostPlatform::Windows), expected, "{}", name);
    }
}

#[test]
fn listing_failure_comes_before_manifest_failure() {
    match resolve_build_plan("{}", "not json", HostPlatform::Linux) {
        Err(ResolveError::Schema(e)) => {
            assert_eq!(e.rule, SchemaRule::SuitesObject);
            assert_eq!(e.content, "{}");
        }
        other => panic!("expected a schema error, got {:?}", other),
    }
}

#[test]
fn process_failure_is_the_failure_of_the_resolution() {
    let failed = ProcessError { status: Some(101), output: "could not compile".to_string() };
    let listing = listing(&[("a", "matches")]);
    match resolve_from_runs(Ok(listing.clone()), Err(failed.clone()), HostPlatform::Linux) {
        Err(ResolveError::Process(e)) => {
            assert_eq!(e.status, Some(101));
            assert_eq!(e.output, "could not compile");
        }
        other => panic!("expected a process error, got {:?}", other),
    }
    let not_started = ProcessError { status: None, output: String::new() };
    match resolve_from_runs(Err(not_started), Err(failed), HostPlatform::Linux) {
        Err(ResolveError::Process(e)) => assert_eq!(e.status, None),
        other => panic!("expected a process error, got {:?}", other),
    }
    let manifest = "[{\"name\":\"a\",\"required\":[\"OPENVMM_NATIVE\"],\"optional\":[]}]";
    let plan = resolve_from_runs(Ok(listing), Ok(manifest.to_string()), HostPlatform::Linux);
    assert_eq!(plan.unwrap().selections, BuildSelections { openvmm: true, ..NONE });
}

#[test]
fn messages_name_the_failure() {
    let parse = resolve_build_plan("{", "", HostPlatform::Linux).unwrap_err();
    assert_eq!(
        parse.message(),
        "failed to parse: {\nerror: EOF while parsing an object at line 1 column 1"
    );
    let schema = resolve_build_plan("[]", "", HostPlatform::Linux).unwrap_err();
    assert_eq!(schema.message(), "missing rust-suites in: []");
    let process = ResolveError::Process(ProcessError { status: Some(1), output: "boom".to_string() });
    assert_eq!(process.message(), "process failed: boom");
}

#[test]
fn report_counts_what_the_plan_was_made_from() {
    let listing = listing(&[("a", "matches"), ("b", "matches"), ("c", "mismatch")]);
    let manifest = "[{\"name\":\"a\",\"required\":[\"OPENVMM_NATIVE\",\"GEN1_SOME_DISK\"],\"optional\":[\"VMGSTOOL_NATIVE\"]}]\n[{\"name\":\"b\",\"required\":[\"OPENVMM_NATIVE\"],\"optional\":[\"ANOTHER_UNKNOWN\"]},{\"name\":\"c\",\"required\":[\"LATEST_CVM_X64\"],\"optional\":[]}]";
    let report = resolve_with_report(&listing, manifest, HostPlatform::Linux).unwrap();
    assert_eq!(report.selections, BuildSelections { openvmm: true, vmgstool: true, ..NONE });
    assert_eq!(report.matched.len(), 2);
    assert!(report.matched.contains("a"));
    assert!(!report.matched.contains("c"));
    assert_eq!(report.requirements.required.len(), 2);
    assert_eq!(report.requirements.optional.len(), 2);
    assert_eq!(report.unlisted.len(), 2);
    assert_eq!(report.unlisted.get(0).name(), "ANOTHER_UNKNOWN");
    assert_eq!(report.unlisted.get(1).name(), "GEN1_SOME_DISK");
}

#[test]
fn unlisted_identifiers_are_told_apart() {
    let set = ids(&["OPENVMM_NATIVE", "openvmm_native", "", "TMK_VMM_NATIVE"]);
    let unknown = unlisted_of(&set);
    assert_eq!(unknown.len(), 2);
    assert_eq!(unknown.get(0).name(), "");
    assert_eq!(unknown.get(1).name(), "openvmm_native");
    assert_eq!(unlisted_of(&ArtifactSet::new()).len(), 0);
}

#[test]
fn table_lists_each_identifier_once() {
    let table = classification_table();
    assert_eq!(table.len(), 23);
    for (i, a) in table.iter().enumerate() {
        for b in &table[i + 1..] {
            assert_ne!(a.identifier, b.identifier);
        }
    }
    assert_eq!(table[17].identifier, "TMK_VMM_NATIVE");
    assert_eq!(table[17].class, ArtifactClass::TmkVmmNative);
}

#[test]
fn switches_are_read_and_set_by_name() {
    let all = [
        Toggle::Openhcl,
        Toggle::Openvmm,
        Toggle::PipetteWindows,
        Toggle::PipetteLinux,
        Toggle::PrepSteps,
        Toggle::GuestTestUefi,
        Toggle::Tmks,
        Toggle::TmkVmmWindows,
        Toggle::TmkVmmLinux,
        Toggle::Vmgstool,
    ];
    let mut plan = BuildSelections::new();
    for (n, t) in all.iter().enumerate() {
        for (m, u) in all.iter().enumerate() {
            assert_eq!(plan.is_set(*u), m < n);
        }
        plan.set(*t);
        plan.set(*t);
        assert!(plan.is_set(*t));
    }
    assert_eq!(
        plan,
        BuildSelections {
            openhcl: true,
            openvmm: true,
            pipette_windows: true,
            pipette_linux: true,
            prep_steps: true,
            guest_test_uefi: true,
            tmks: true,
            tmk_vmm_windows: true,
            tmk_vmm_linux: true,
            vmgstool: true,
        }
    );
    let mut linux = BuildSelections::new();
    linux.enable_class(ArtifactClass::TmkVmmNative, HostPlatform::Linux);
    assert_eq!(linux, BuildSelections { tmks: true, tmk_vmm_linux: true, ..NONE });
    linux.enable_class(ArtifactClass::PreppedTestDisk, HostPlatform::Linux);
    assert_eq!(linux, BuildSelections { tmks: true, tmk_vmm_linux: true, prep_steps: true, ..NONE });
}
