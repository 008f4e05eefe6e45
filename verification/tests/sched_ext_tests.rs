use fedora_kernel_manager::sched_ext::{
    apply_enabled, get_scx_flags, initial_scx_sched, is_running_scx_sched, ScxSched, ScxSchedMode,
};

fn scheds() -> Vec<ScxSched> {
    vec![
        ScxSched { name: "scx_rusty".to_string(), modes: vec![] },
        ScxSched {
            name: "scx_lavd".to_string(),
            modes: vec![ScxSchedMode { name: "powersave".to_string(), flags: "--powersave".to_string() }],
        },
        ScxSched { name: "scx_lavd".to_string(), modes: vec![] },
    ]
}

#[test]
fn scheduler_from_label() {
    let s = scheds();
    let found = ScxSched::get_sched_from_name("sched_ext: scx_lavd", &s).unwrap();
    assert_eq!(found.name, "scx_lavd");
    assert_eq!(found.modes.len(), 1);
    assert_eq!(found.modes[0].flags, "--powersave");
    assert!(ScxSched::get_sched_from_name("sched_ext: scx_bpfland", &s).is_none());
    assert!(ScxSched::get_sched_from_name("BORE", &s).is_none());
    assert!(ScxSched::get_sched_from_name("EEVDF?", &s).is_none());
}

#[test]
fn initial_selection() {
    let s = scheds();
    assert_eq!(initial_scx_sched("sched_ext: scx_rusty", &s).name, "scx_rusty");
    let d = initial_scx_sched("CFS?", &s);
    assert_eq!(d.name, "scx_disabled");
    assert!(d.modes.is_empty());
    assert_eq!(initial_scx_sched("sched_ext: nothing", &s).name, "scx_disabled");
}

#[test]
fn apply_button() {
    assert!(apply_enabled("scx_rusty", "sched_ext: rusty"));
    assert!(!apply_enabled("EEVDF?", "EEVDF?"));
}

#[test]
fn running_scheduler_in_the_list() {
    assert!(is_running_scx_sched("rusty", "scx_rusty"));
    assert!(!is_running_scx_sched("rusty\n", "scx_rusty"));
    assert!(!is_running_scx_sched("lavd", "scx_rusty"));
}

#[test]
fn flags_from_the_defaults_file() {
    let lines = vec![
        "# SCX_FLAGS=commented".to_string(),
        "".to_string(),
        "SCX_SCHEDULER=scx_rusty".to_string(),
        "  SCX_FLAGS= -k  --slice-us 5000  ".to_string(),
        "SCX_FLAGS=second".to_string(),
    ];
    assert_eq!(get_scx_flags(Some(lines)), "-k  --slice-us 5000");
    assert_eq!(get_scx_flags(Some(vec!["SCX_FLAGS=a=b".to_string()])), "a=b");
    assert_eq!(get_scx_flags(Some(vec!["SCX_SCHEDULER=x".to_string()])), "");
    assert_eq!(get_scx_flags(Some(vec![])), "");
    assert_eq!(get_scx_flags(None), "");
}
