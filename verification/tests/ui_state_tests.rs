use fedora_kernel_manager::actions::{
    kernel_page_title, package_controls, reboot_requested, scx_change_dialog_keys, status_message, DialogBody,
    ModifyDialog,
};
use fedora_kernel_manager::banner::{BannerState, BannerTitle};
use fedora_kernel_manager::search::{matches_lowercased, row_visible};

#[test]
fn search_rows() {
    assert!(row_visible("", "anything", "else"));
    assert!(row_visible("LTS", "kernel-lts", ""));
    assert!(row_visible("cachy", "Other", "CachyOS kernel"));
    assert!(row_visible("ÄB", "xäbx", ""));
    assert!(!row_visible("xyz", "kernel-lts", "LTS kernel"));
    assert!(matches_lowercased("abc", "def", "ef"));
    assert!(!matches_lowercased("abc", "def", "EF"));
}

#[test]
fn dialog_of_a_package_change() {
    let d = ModifyDialog::new();
    let running = d.on_started();
    assert_eq!(running, ModifyDialog { ok_enabled: false, reboot_enabled: false, body: DialogBody::Empty });
    assert_eq!(running.on_finished(true), ModifyDialog { ok_enabled: true, reboot_enabled: true, body: DialogBody::Succeeded });
    assert_eq!(running.on_finished(false), ModifyDialog { ok_enabled: true, reboot_enabled: false, body: DialogBody::Failed });
    let c = package_controls(true);
    assert!(c.installed_icon && c.remove_enabled && !c.install_enabled);
    let c = package_controls(false);
    assert!(!c.installed_icon && !c.remove_enabled && c.install_enabled);
    assert!(reboot_requested("kernel_install_dialog_reboot"));
    assert!(!reboot_requested("kernel_install_dialog_ok"));
}

#[test]
fn status_texts() {
    assert_eq!(status_message("Scheduler changed", "scx_rusty"), "Scheduler changed: scx_rusty");
    assert_eq!(kernel_page_title("Kernels of", "cachyos"), "Kernels of cachyos");
    let (h, b) = scx_change_dialog_keys(false);
    assert_eq!(h, "sched_ext_cmd_status_dialog_heading_failed");
    assert_eq!(b, "sched_ext_cmd_status_dialog_body_failed");
    assert_eq!(scx_change_dialog_keys(true).0, "sched_ext_cmd_status_dialog_heading_success");
}

#[test]
fn banner_starts_hidden() {
    let b = BannerState::new();
    assert_eq!(b, BannerState { title: BannerTitle::Unset, revealed: false });
    assert_eq!(b.on_connectivity(true), b);
}

#[test]
fn banner_follows_connectivity() {
    let b = BannerState::new();
    let off = b.on_connectivity(false);
    assert_eq!(off, BannerState { title: BannerTitle::NoInternet, revealed: true });
    assert_eq!(off.on_connectivity(false), off);
    let on = off.on_connectivity(true);
    assert_eq!(on, BannerState { title: BannerTitle::NoInternet, revealed: false });
    assert_eq!(on.on_connectivity(true), on);
}

#[test]
fn branch_list_error_stays() {
    let e = BannerState::new().on_branches_unavailable();
    assert_eq!(e, BannerState { title: BannerTitle::UrlError, revealed: true });
    assert_eq!(e.on_connectivity(false), e);
    assert_eq!(e.on_connectivity(true), e);
}
