use fedora_kernel_manager::scheduler::{
    bore_enabled, current_scx_scheduler, get_current_scheduler,
    scheduler_label_from, SchedExt, VersionOrder,
};

#[test]
fn version_comparison_decides_eevdf() {
    assert_eq!(get_current_scheduler("6.6.0", &SchedExt::Inactive, false), "EEVDF?");
    assert_eq!(get_current_scheduler("6.10", &SchedExt::Inactive, false), "EEVDF?");
    assert_eq!(get_current_scheduler("6.5.99", &SchedExt::Inactive, false), "CFS?");
    assert_eq!(get_current_scheduler("5.15", &SchedExt::Inactive, false), "CFS?");
}

#[test]
fn scheduler_from_system_facts() {
    assert_eq!(get_current_scheduler("6.8.5", &SchedExt::Inactive, false), "EEVDF?");
    assert_eq!(get_current_scheduler("6.6", &SchedExt::Inactive, false), "EEVDF?");
    assert_eq!(get_current_scheduler("6.1.10", &SchedExt::Inactive, false), "CFS?");
    assert_eq!(get_current_scheduler("unknown", &SchedExt::Inactive, false), "CFS?");
    assert_eq!(get_current_scheduler("6.1.10", &SchedExt::Inactive, true), "BORE");
    assert_eq!(
        get_current_scheduler("6.8", &SchedExt::Active { ops: Some("rusty_1.0".to_string()) }, true),
        "sched_ext: rusty_1.0"
    );
    assert_eq!(get_current_scheduler("6.8", &SchedExt::Active { ops: None }, false), "sched_ext: disabled");
}

#[test]
fn scheduler_label_from_order() {
    assert_eq!(scheduler_label_from(&SchedExt::Inactive, false, Some(VersionOrder::Greater)), "EEVDF?");
    assert_eq!(scheduler_label_from(&SchedExt::Inactive, false, Some(VersionOrder::Less)), "CFS?");
    assert_eq!(scheduler_label_from(&SchedExt::Inactive, false, None), "CFS?");
}

#[test]
fn bore_switch() {
    assert!(bore_enabled(Some("1".to_string())));
    assert!(!bore_enabled(Some("0".to_string())));
    assert!(!bore_enabled(Some("1\n".to_string())));
    assert!(!bore_enabled(None));
}

#[test]
fn running_scx_scheduler_name() {
    assert_eq!(current_scx_scheduler(Some("lavd".to_string())), "lavd");
    assert_eq!(current_scx_scheduler(None), "disabled");
}
