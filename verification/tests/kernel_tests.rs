use fedora_kernel_manager::kernel::{
    branch_sources_from_text, cpu_feature_level, cpu_feature_level_name, current_sched_badge,
    format_kernel_version, get_running_kernel_info, kernel_badges_from_db, kernel_branch,
    kernel_db_entries_from_text, kernel_offered, saved_branch_selects, version_badge_style,
    BranchError, KernelDbError, KernelVersion, RunningKernelInfo, SavedBranch,
};
use fedora_kernel_manager::scheduler::SchedExt;

fn info(version: &str) -> RunningKernelInfo {
    RunningKernelInfo { kernel: "6.8.5-301.fc40.x86_64".to_string(), version: version.to_string(), sched: "EEVDF?".to_string() }
}

#[test]
fn kernel_version_text() {
    assert_eq!(format_kernel_version(&KernelVersion { major: 6, minor: 8, patch: 0 }), "6.8");
    assert_eq!(format_kernel_version(&KernelVersion { major: 6, minor: 8, patch: 5 }), "6.8.5");
    assert_eq!(format_kernel_version(&KernelVersion { major: 10, minor: 0, patch: 12 }), "10.0.12");
}

#[test]
fn running_kernel_info_from_facts() {
    let i = get_running_kernel_info(
        Some("6.8.5-301.fc40.x86_64\n".to_string()),
        Some(KernelVersion { major: 6, minor: 8, patch: 5 }),
        &SchedExt::Inactive,
        false,
        "unknown",
    );
    assert_eq!(i.kernel, "6.8.5-301.fc40.x86_64");
    assert_eq!(i.version, "6.8.5");
    assert_eq!(i.sched, "EEVDF?");

    let j = get_running_kernel_info(None, None, &SchedExt::Inactive, false, "unknown");
    assert_eq!(j.kernel, "unknown");
    assert_eq!(j.version, "unknown");
    assert_eq!(j.sched, "CFS?");
}

#[test]
fn badges_from_branch_database() {
    let bs = kernel_badges_from_db("cachyos", r#"{"latest_version": "6.8.5", "kernels": []}"#, &info("6.8.5")).unwrap();
    assert_eq!(bs.len(), 5);
    assert_eq!(bs[0].label, "kernel_badge_branch_label");
    assert_eq!(bs[0].value, "cachyos");
    assert_eq!(bs[1].value, "6.8.5");
    assert_eq!(bs[2].label, "kernel_badge_running_version_label");
    assert_eq!(bs[2].style, "background-green-bg");
    assert_eq!(bs[3].value, "6.8.5-301.fc40.x86_64");
    assert_eq!(bs[3].style, "background-green-bg");
    assert_eq!(bs[4].value, "EEVDF?");
    assert_eq!(bs[4].style, "background-accent-bg");

    let old = kernel_badges_from_db("cachyos", r#"{"latest_version": "6.9.1"}"#, &info("6.8.5")).unwrap();
    assert_eq!(old[2].style, "background-red-bg");

    let missing = kernel_badges_from_db("b", r#"{"latest_version": 6}"#, &info("6.8.5")).unwrap();
    assert_eq!(missing[1].value, "Unknown");

    assert!(kernel_badges_from_db("b", "not json", &info("6.8.5")).is_none());
}

#[test]
fn version_style() {
    assert_eq!(version_badge_style("6.8", "6.8"), "background-green-bg");
    assert_eq!(version_badge_style("6.8", "6.9"), "background-red-bg");
}

#[test]
fn scheduler_badge() {
    let b = current_sched_badge(&info("6.8"));
    assert_eq!(b.label, "kernel_badge_running_sched_label");
    assert_eq!(b.value, "EEVDF?");
    assert_eq!(b.style, "background-accent-bg");
}

#[test]
fn kernels_of_a_database() {
    let db = r#"{"kernels": [
        {"name": "CachyOS", "main_package": "kernel-cachyos", "packages": "kernel-cachyos kernel-cachyos-devel", "min_x86_march": "3"},
        {"name": "LTS", "main_package": "kernel-lts", "packages": "kernel-lts", "min_x86_march": "x"},
        {"name": "Other", "packages": "p", "min_x86_march": "1"},
        {"name": "Plain", "main_package": "kernel", "packages": "kernel", "min_x86_march": "+1"}
    ]}"#;
    let es = kernel_db_entries_from_text(db).unwrap();
    assert_eq!(es.len(), 4);
    let first = es[0].as_ref().ok().unwrap();
    assert_eq!(first.name, "CachyOS");
    assert_eq!(first.main_package, "kernel-cachyos");
    assert_eq!(first.packages, "kernel-cachyos kernel-cachyos-devel");
    assert_eq!(first.min_x86_march, 3);
    assert!(matches!(es[1], Err(KernelDbError::InvalidMinX86March)));
    assert!(matches!(es[2], Err(KernelDbError::MissingMainPackage)));
    assert_eq!(es[3].as_ref().ok().unwrap().min_x86_march, 1);

    assert_eq!(kernel_db_entries_from_text(r#"{"kernels": {}}"#).unwrap().len(), 0);
    assert_eq!(kernel_db_entries_from_text(r#"[1, 2]"#).unwrap().len(), 0);
    assert!(kernel_db_entries_from_text("{").is_none());
}

#[test]
fn missing_kernel_fields() {
    let es = kernel_db_entries_from_text(r#"{"kernels": [{}, {"name": "a", "main_package": "b"}, {"name": "a", "main_package": "b", "packages": "c"}]}"#).unwrap();
    assert!(matches!(es[0], Err(KernelDbError::MissingName)));
    assert!(matches!(es[1], Err(KernelDbError::MissingPackages)));
    assert!(matches!(es[2], Err(KernelDbError::MissingMinX86March)));
}

#[test]
fn branches_of_the_branch_list() {
    let text = r#"{"branches": [
        {"name": "cachyos", "db_url": "https://example.org/db.json", "init_script": "true"},
        {"name": "broken", "init_script": "true"},
        {"name": "noscript", "db_url": "u"},
        {"db_url": "u"}
    ]}"#;
    let bs = branch_sources_from_text(text).unwrap();
    assert_eq!(bs.len(), 4);
    let b = bs[0].as_ref().ok().unwrap();
    assert_eq!(b.name, "cachyos");
    assert_eq!(b.db_url, "https://example.org/db.json");
    assert_eq!(b.init_script, "true");
    assert!(matches!(bs[1], Err(BranchError::MissingDbUrl)));
    assert!(matches!(bs[2], Err(BranchError::MissingInitScript)));
    assert!(matches!(bs[3], Err(BranchError::MissingName)));
    assert_eq!(branch_sources_from_text(r#"{"other": 1}"#).unwrap().len(), 0);
    assert!(branch_sources_from_text("").is_none());

    let source = match branch_sources_from_text(text).unwrap().remove(0) {
        Ok(s) => s,
        Err(_) => panic!("first branch is complete"),
    };
    let kb = kernel_branch(source, "{}".to_string());
    assert_eq!(kb.name, "cachyos");
    assert_eq!(kb.db, "{}");
}

#[test]
fn cpu_feature_level_from_loader_output() {
    let out = "  x86-64-v3 (supported, searched)\n  x86-64-v2 (supported, searched)\n";
    assert_eq!(cpu_feature_level_name(out), "x86-64-v3");
    assert_eq!(cpu_feature_level_name(""), "x86-64-v1");
    assert_eq!(cpu_feature_level_name("x86-64-v4 (supported, searched)(supported, searched)"), "x86-64-v4");
    assert_eq!(cpu_feature_level("x86-64-v4"), 4);
    assert_eq!(cpu_feature_level("x86-64-v3"), 3);
    assert_eq!(cpu_feature_level("x86-64-v2"), 2);
    assert_eq!(cpu_feature_level("x86-64-v1"), 1);
    assert_eq!(cpu_feature_level("haswell"), 1);
}

#[test]
fn kernels_offered_by_cpu_level() {
    assert!(kernel_offered(3, 3));
    assert!(kernel_offered(4, 1));
    assert!(!kernel_offered(2, 3));
}

#[test]
fn saved_branch_choice() {
    assert!(!saved_branch_selects(&None, "cachyos"));
    assert!(!saved_branch_selects(&Some(SavedBranch { content: "cachyos".to_string(), byte_len: 7 }), "cachyos"));
    assert!(!saved_branch_selects(&Some(SavedBranch { content: "other".to_string(), byte_len: 0 }), "cachyos"));
    assert!(saved_branch_selects(&Some(SavedBranch { content: String::new(), byte_len: 0 }), ""));
}
