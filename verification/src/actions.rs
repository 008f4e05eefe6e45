//! The controls of a kernel package row and of the dialog that follows an
//! install or a removal, and the result dialog of a scheduler change.

use vstd::prelude::*;

use crate::text::str_equal;

verus! {

/// What a kernel package row enables for the package's install state: the
/// "installed" icon and the install and remove buttons.
pub struct PackageControls {
    pub installed_icon: bool,
    pub install_enabled: bool,
    pub remove_enabled: bool,
}

/// An installed package shows its icon and can be removed; a package that is
/// not installed can be installed.
pub fn package_controls(installed: bool) -> (r: PackageControls)
    ensures
        r.installed_icon == installed,
        r.install_enabled == !installed,
        r.remove_enabled == installed,
{
    PackageControls { installed_icon: installed, install_enabled: !installed, remove_enabled: installed }
}

/// The text of the install dialog.
#[derive(PartialEq, Eq, Structural, Clone, Copy, Debug)]
pub enum DialogBody {
    Empty,
    Succeeded,
    Failed,
}

/// The install dialog: whether its "OK" and "reboot" responses are enabled, and
/// its text.
#[derive(PartialEq, Eq, Structural, Clone, Copy, Debug)]
pub struct ModifyDialog {
    pub ok_enabled: bool,
    pub reboot_enabled: bool,
    pub body: DialogBody,
}

/// The dialog once the package change has finished: "OK" is enabled, "reboot"
/// only after a success, and the text tells the outcome.
pub open spec fn finished_dialog(success: bool) -> ModifyDialog {
    ModifyDialog {
        ok_enabled: true,
        reboot_enabled: success,
        body: if success {
            DialogBody::Succeeded
        } else {
            DialogBody::Failed
        },
    }
}

impl ModifyDialog {
    /// The dialog as it is built: both responses enabled, no text.
    pub fn new() -> (r: ModifyDialog)
        ensures
            r == (ModifyDialog { ok_enabled: true, reboot_enabled: true, body: DialogBody::Empty }),
    {
        ModifyDialog { ok_enabled: true, reboot_enabled: true, body: DialogBody::Empty }
    }

    /// The dialog while a package change runs: no response enabled, no text.
    pub fn on_started(&self) -> (r: ModifyDialog)
        ensures
            r == (ModifyDialog { ok_enabled: false, reboot_enabled: false, body: DialogBody::Empty }),
    {
        ModifyDialog { ok_enabled: false, reboot_enabled: false, body: DialogBody::Empty }
    }

    /// The dialog after the package change finished.
    pub fn on_finished(&self, success: bool) -> (r: ModifyDialog)
        ensures
            r == finished_dialog(success),
    {
        if success {
            ModifyDialog { ok_enabled: true, reboot_enabled: true, body: DialogBody::Succeeded }
        } else {
            ModifyDialog { ok_enabled: true, reboot_enabled: false, body: DialogBody::Failed }
        }
    }
}

/// Whatever the dialog showed before, a finished change can be acknowledged,
/// and a reboot is offered exactly when the change succeeded.
pub proof fn lemma_finish_offers_reboot_on_success(success: bool)
    ensures
        finished_dialog(success).ok_enabled,
        finished_dialog(success).reboot_enabled == success,
        (finished_dialog(success).body == DialogBody::Succeeded) == success,
{
}

/// The dialog's answer asks for a reboot.
pub fn reboot_requested(response: &str) -> (r: bool)
    ensures
        r == (response@ == "kernel_install_dialog_reboot"@),
{
    str_equal(response, "kernel_install_dialog_reboot")
}

/// The translation keys of the heading and the text of the dialog that tells
/// how a scheduler change went.
pub fn scx_change_dialog_keys(success: bool) -> (r: (String, String))
    ensures
        success ==> r.0@ == "sched_ext_cmd_status_dialog_heading_success"@ && r.1@
            == "sched_ext_cmd_status_dialog_body_success"@,
        !success ==> r.0@ == "sched_ext_cmd_status_dialog_heading_failed"@ && r.1@
            == "sched_ext_cmd_status_dialog_body_failed"@,
{
    if success {
        (
            "sched_ext_cmd_status_dialog_heading_success".to_owned(),
            "sched_ext_cmd_status_dialog_body_success".to_owned(),
        )
    } else {
        (
            "sched_ext_cmd_status_dialog_heading_failed".to_owned(),
            "sched_ext_cmd_status_dialog_body_failed".to_owned(),
        )
    }
}

/// A text followed by `": "` and a scheduler name, as the scheduler change
/// dialog writes it.
pub fn status_message(text: &str, sched_name: &str) -> (r: String)
    ensures
        r@ == text@ + ": "@ + sched_name@,
{
    let mut s = text.to_owned();
    s.append(": ");
    s.append(sched_name);
    s
}

/// The heading of the kernel package page: its label, a space and the branch name.
pub fn kernel_page_title(label: &str, branch_name: &str) -> (r: String)
    ensures
        r@ == label@ + " "@ + branch_name@,
{
    let mut s = label.to_owned();
    s.append(" ");
    s.append(branch_name);
    s
}

} // verus!
