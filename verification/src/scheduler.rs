//! Which CPU scheduler the running kernel uses, as far as the system shows it.

use vstd::prelude::*;

use crate::text::str_equal;

verus! {

/// How one version string relates to another.
pub enum VersionOrder {
    Less,
    Equal,
    Greater,
}

/// What `version_compare::compare` returns for two version strings: the order
/// of the first to the second, or `None` where either is not a valid version.
pub uninterp spec fn spec_version_compare(a: Seq<char>, b: Seq<char>) -> Option<VersionOrder>;

/// Trusted: `version_compare::compare(a, b)`, which splits both strings into
/// numeric and textual parts and compares them part by part. Its three results
/// map to `Less`, `Equal` and `Greater`, its error (either string not a version)
/// to `None`; the contract names that outcome `spec_version_compare`.
#[verifier::external_body]
pub(crate) fn compare_versions(a: &str, b: &str) -> (r: Option<VersionOrder>)
    ensures
        r == spec_version_compare(a@, b@),
{
    match version_compare::compare(a, b) {
        Ok(version_compare::Cmp::Lt) => Some(VersionOrder::Less),
        Ok(version_compare::Cmp::Eq) => Some(VersionOrder::Equal),
        Ok(version_compare::Cmp::Gt) => Some(VersionOrder::Greater),
        Ok(_) | Err(()) => None,
    }
}

/// Whether the kernel runs a sched_ext scheduler (its `ops` file exists) and,
/// if so, what reading that file gave.
pub enum SchedExt {
    Inactive,
    Active { ops: Option<String> },
}

/// The name of the sched_ext scheduler: the `ops` file's text, or `disabled`
/// when it could not be read.
pub open spec fn ops_name(ops: Option<String>) -> Seq<char> {
    match ops {
        Some(s) => s@,
        None => "disabled"@,
    }
}

/// A version order at least as high as the version it was compared with.
pub open spec fn at_least(order: Option<VersionOrder>) -> bool {
    order == Some(VersionOrder::Equal) || order == Some(VersionOrder::Greater)
}

/// The scheduler label: the sched_ext scheduler when one is active, else BORE
/// when the BORE switch is on, else EEVDF for kernels from 6.6 on (`order` is the
/// running version compared with "6.6"), else CFS.
pub open spec fn scheduler_label(sched_ext: SchedExt, bore: bool, order: Option<VersionOrder>) -> Seq<char> {
    match sched_ext {
        SchedExt::Active { ops } => "sched_ext: "@ + ops_name(ops),
        SchedExt::Inactive => if bore {
            "BORE"@
        } else if at_least(order) {
            "EEVDF?"@
        } else {
            "CFS?"@
        },
    }
}

/// The name of the running sched_ext scheduler, `disabled` where its `ops` file
/// could not be read.
pub fn current_scx_scheduler(ops: Option<String>) -> (r: String)
    ensures
        r@ == ops_name(ops),
{
    match ops {
        Some(s) => s,
        None => "disabled".to_owned(),
    }
}

/// The BORE switch is on: `sysctl -n kernel.sched_bore` ran and printed `1`.
pub fn bore_enabled(sysctl_output: Option<String>) -> (r: bool)
    ensures
        r == (sysctl_output matches Some(t) && t@ == "1"@),
{
    match sysctl_output {
        Some(t) => str_equal(t.as_str(), "1"),
        None => false,
    }
}

/// The scheduler label from what the system shows and from the running version
/// compared with "6.6".
pub fn scheduler_label_from(sched_ext: &SchedExt, bore: bool, order: Option<VersionOrder>) -> (r: String)
    ensures
        r@ == scheduler_label(*sched_ext, bore, order),
{
    match sched_ext {
        SchedExt::Active { ops } => {
            let mut s = "sched_ext: ".to_owned();
            match ops {
                Some(o) => s.append(o.as_str()),
                None => s.append("disabled"),
            }
            s
        },
        SchedExt::Inactive => {
            if bore {
                "BORE".to_owned()
            } else {
                match order {
                    Some(VersionOrder::Equal) | Some(VersionOrder::Greater) => "EEVDF?".to_owned(),
                    _ => "CFS?".to_owned(),
                }
            }
        },
    }
}

/// The scheduler that the running kernel uses, given the kernel version string,
/// the sched_ext state and the BORE switch.
pub fn get_current_scheduler(version: &str, sched_ext: &SchedExt, bore: bool) -> (r: String)
    ensures
        r@ == scheduler_label(*sched_ext, bore, spec_version_compare(version@, "6.6"@)),
{
    let order = match sched_ext {
        SchedExt::Inactive if !bore => compare_versions(version, "6.6"),
        _ => None,
    };
    scheduler_label_from(sched_ext, bore, order)
}


/// With no sched_ext scheduler active and the BORE switch on, the label is
/// `BORE` whatever the kernel version.
pub proof fn lemma_bore_wins_over_version(order: Option<VersionOrder>)
    ensures
        scheduler_label(SchedExt::Inactive, true, order) == "BORE"@,
{
}

/// With no sched_ext scheduler and BORE off, the label is `EEVDF?` for a
/// kernel from 6.6 on and `CFS?` for an older or unreadable version.
pub proof fn lemma_version_decides_without_bore()
    ensures
        scheduler_label(SchedExt::Inactive, false, Some(VersionOrder::Greater)) == "EEVDF?"@,
        scheduler_label(SchedExt::Inactive, false, Some(VersionOrder::Equal)) == "EEVDF?"@,
        scheduler_label(SchedExt::Inactive, false, Some(VersionOrder::Less)) == "CFS?"@,
        scheduler_label(SchedExt::Inactive, false, None) == "CFS?"@,
{
}

/// An active sched_ext scheduler is named whatever the BORE switch and the
/// kernel version: `sched_ext: ` followed by its name, `disabled` when its
/// name could not be read.
pub proof fn lemma_sched_ext_wins(ops: Option<String>, bore: bool, order: Option<VersionOrder>)
    ensures
        ops matches Some(o) ==> scheduler_label(SchedExt::Active { ops }, bore, order) == "sched_ext: "@ + o@,
        ops is None ==> scheduler_label(SchedExt::Active { ops }, bore, order) == "sched_ext: "@ + "disabled"@,
{
}

} // verus!
