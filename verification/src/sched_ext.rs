//! The sched_ext schedulers: which one runs, which one the page selects, and
//! the extra flags saved for them.

use vstd::prelude::*;

use crate::scheduler::{ops_name, scheduler_label, SchedExt, VersionOrder};
use crate::text::{has_prefix, starts_with, str_equal, strip_prefix, trim, trim_seq};

verus! {

/// A mode of a sched_ext scheduler and the flags that select it.
pub struct ScxSchedMode {
    pub name: String,
    pub flags: String,
}

/// A sched_ext scheduler and its modes.
pub struct ScxSched {
    pub name: String,
    pub modes: Vec<ScxSchedMode>,
}

impl ScxSchedMode {
    /// A copy of the mode.
    pub fn copy(&self) -> (r: ScxSchedMode)
        ensures
            r == *self,
    {
        ScxSchedMode { name: self.name.clone(), flags: self.flags.clone() }
    }
}

impl ScxSched {
    /// A copy of the scheduler with all its modes.
    pub fn copy(&self) -> (r: ScxSched)
        ensures
            r.name == self.name,
            r.modes@ == self.modes@,
    {
        let mut modes: Vec<ScxSchedMode> = Vec::new();
        let mut i: usize = 0;
        while i < self.modes.len()
            invariant
                i <= self.modes@.len(),
                modes@ == self.modes@.take(i as int),
            decreases self.modes@.len() - i,
        {
            modes.push(self.modes[i].copy());
            i = i + 1;
            proof {
                assert(modes@ =~= self.modes@.take(i as int));
            }
        }
        assert(self.modes@.take(i as int) =~= self.modes@);
        ScxSched { name: self.name.clone(), modes }
    }

    /// The scheduler named by a scheduler label: for a label
    /// `sched_ext: NAME`, the first scheduler of `scheds` called `NAME`; for any
    /// label that does not start with `sched_ext:`, none.
    pub fn get_sched_from_name(name: &str, scheds: &Vec<ScxSched>) -> (r: Option<ScxSched>)
        requires
            has_prefix(name@, "sched_ext:"@) ==> has_prefix(name@, "sched_ext: "@),
        ensures
            !has_prefix(name@, "sched_ext:"@) ==> r is None,
            has_prefix(name@, "sched_ext:"@) ==> sched_found(
                scheds@,
                name@.subrange(11, name@.len() as int),
                r,
            ),
    {
        proof {
            reveal_strlit("sched_ext: ");
        }
        if !starts_with(name, "sched_ext:") {
            return None;
        }
        let wanted = match strip_prefix(name, "sched_ext: ") {
            Some(w) => w,
            None => return None,
        };
        let mut i: usize = 0;
        while i < scheds.len()
            invariant
                i <= scheds@.len(),
                has_prefix(name@, "sched_ext:"@),
                name@.len() >= 11,
                wanted@ == name@.subrange(11, name@.len() as int),
                forall|k: int| 0 <= k < i ==> #[trigger] scheds@[k].name@ != wanted@,
            decreases scheds@.len() - i,
        {
            if str_equal(scheds[i].name.as_str(), wanted.as_str()) {
                let found = scheds[i].copy();
                assert(sched_found(scheds@, wanted@, Some(found)));
                return Some(found);
            }
            i = i + 1;
        }
        None
    }
}

/// `r` is (a copy of) the first scheduler of `scheds` called `wanted`, or none
/// when no scheduler has that name.
pub open spec fn sched_found(scheds: Seq<ScxSched>, wanted: Seq<char>, r: Option<ScxSched>) -> bool {
    match r {
        Some(s) => exists|i: int|
            0 <= i < scheds.len() && scheds[i].name@ == wanted && s.name == scheds[i].name
                && s.modes@ == scheds[i].modes@ && forall|k: int|
                0 <= k < i ==> #[trigger] scheds[k].name@ != wanted,
        None => forall|k: int| 0 <= k < scheds.len() ==> #[trigger] scheds[k].name@ != wanted,
    }
}

/// The scheduler that the page selects at first: the one named by the running
/// scheduler label, or `scx_disabled` without modes.
pub fn initial_scx_sched(current_sched: &str, scheds: &Vec<ScxSched>) -> (r: ScxSched)
    requires
        has_prefix(current_sched@, "sched_ext:"@) ==> has_prefix(current_sched@, "sched_ext: "@),
    ensures
        has_prefix(current_sched@, "sched_ext:"@) && sched_found(
            scheds@,
            current_sched@.subrange(11, current_sched@.len() as int),
            Some(r),
        ) || (r.name@ == "scx_disabled"@ && r.modes@.len() == 0 && (has_prefix(
            current_sched@,
            "sched_ext:"@,
        ) ==> sched_found(
            scheds@,
            current_sched@.subrange(11, current_sched@.len() as int),
            None,
        ))),
{
    match ScxSched::get_sched_from_name(current_sched, scheds) {
        Some(s) => s,
        None => ScxSched { name: "scx_disabled".to_owned(), modes: Vec::new() },
    }
}

/// The apply button is enabled when the selected scheduler differs from the
/// running one.
pub fn apply_enabled(selected: &str, current_sched: &str) -> (r: bool)
    ensures
        r == (selected@ != current_sched@),
{
    !str_equal(selected, current_sched)
}

/// The scheduler of the list is the running one: its name is `scx_` followed by
/// the running scheduler's name.
pub fn is_running_scx_sched(current_ops: &str, sched_name: &str) -> (r: bool)
    ensures
        r == ("scx_"@ + current_ops@ == sched_name@),
{
    let mut full = "scx_".to_owned();
    full.append(current_ops);
    str_equal(full.as_str(), sched_name)
}

/// The index of the line that sets the flags: the first whose trimmed text
/// starts with `SCX_FLAGS=`, or the number of lines when none does.
pub open spec fn flags_line_index(lines: Seq<String>) -> int
    decreases lines.len(),
{
    if lines.len() == 0 {
        0
    } else if has_prefix(trim_seq(lines[0]@), "SCX_FLAGS="@) {
        0
    } else {
        1 + flags_line_index(lines.drop_first())
    }
}

/// The extra scheduler flags of `/etc/default/scx`: the value after the first
/// `=` of the first line whose trimmed text starts with `SCX_FLAGS=` (blank and
/// comment lines never do), trimmed; empty when the file could not be opened or
/// has no such line.
pub open spec fn scx_flags(lines: Option<Seq<String>>) -> Seq<char> {
    match lines {
        None => Seq::empty(),
        Some(ls) => {
            let i = flags_line_index(ls);
            if i < ls.len() {
                let t = trim_seq(ls[i]@);
                trim_seq(t.subrange(10, t.len() as int))
            } else {
                Seq::empty()
            }
        },
    }
}

proof fn lemma_flags_line_index(lines: Seq<String>, i: int)
    requires
        0 <= i <= lines.len(),
        forall|k: int| 0 <= k < i ==> !has_prefix(trim_seq(#[trigger] lines[k]@), "SCX_FLAGS="@),
        i == lines.len() || has_prefix(trim_seq(lines[i]@), "SCX_FLAGS="@),
    ensures
        flags_line_index(lines) == i,
    decreases i,
{
    if i > 0 {
        let t = lines.drop_first();
        assert forall|k: int| 0 <= k < i - 1 implies !has_prefix(
            trim_seq(#[trigger] t[k]@),
            "SCX_FLAGS="@,
        ) by {
            assert(t[k] == lines[k + 1]);
        }
        assert(i - 1 == t.len() || t[i - 1] == lines[i]);
        lemma_flags_line_index(t, i - 1);
    }
}

/// Reads the extra scheduler flags from the lines of `/etc/default/scx`
/// (`None` when the file could not be opened).
pub fn get_scx_flags(lines: Option<Vec<String>>) -> (r: String)
    ensures
        r@ == scx_flags(
            match lines {
                Some(ls) => Some(ls@),
                None => None,
            },
        ),
{
    let ls = match lines {
        Some(ls) => ls,
        None => return String::new(),
    };
    proof {
        reveal_strlit("SCX_FLAGS=");
    }
    let mut i: usize = 0;
    while i < ls.len()
        invariant
            i <= ls@.len(),
            lines == Some(ls),
            "SCX_FLAGS="@.len() == 10,
            forall|k: int| 0 <= k < i ==> !has_prefix(trim_seq(#[trigger] ls@[k]@), "SCX_FLAGS="@),
        decreases ls@.len() - i,
    {
        let t = trim(ls[i].as_str());
        match strip_prefix(t.as_str(), "SCX_FLAGS=") {
            Some(value) => {
                proof {
                    lemma_flags_line_index(ls@, i as int);
                }
                return trim(value.as_str());
            },
            None => {},
        }
        i = i + 1;
    }
    proof {
        lemma_flags_line_index(ls@, i as int);
    }
    String::new()
}

/// The label of a running sched_ext scheduler leads back to it: the label
/// meets what `ScxSched::get_sched_from_name` asks of a `sched_ext:` label, and
/// the name that is then looked up is the running scheduler's name.
pub proof fn lemma_label_names_running_sched(ops: Option<String>, bore: bool, order: Option<VersionOrder>)
    ensures
        has_prefix(scheduler_label(SchedExt::Active { ops }, bore, order), "sched_ext:"@),
        has_prefix(scheduler_label(SchedExt::Active { ops }, bore, order), "sched_ext: "@),
        ({
            let l = scheduler_label(SchedExt::Active { ops }, bore, order);
            l.subrange(11, l.len() as int) == ops_name(ops)
        }),
{
    reveal_strlit("sched_ext: ");
    reveal_strlit("sched_ext:");
    let l = scheduler_label(SchedExt::Active { ops }, bore, order);
    assert(l.subrange(0, 10) =~= "sched_ext:"@);
    assert(l.subrange(0, 11) =~= "sched_ext: "@);
    assert(l.subrange(11, l.len() as int) =~= ops_name(ops));
}

/// The labels of the other schedulers (BORE, EEVDF, CFS) name no sched_ext
/// scheduler, so the scheduler page then selects none of the list.
pub proof fn lemma_other_labels_name_no_sched(bore: bool, order: Option<VersionOrder>)
    ensures
        !has_prefix(scheduler_label(SchedExt::Inactive, bore, order), "sched_ext:"@),
{
    reveal_strlit("sched_ext:");
    reveal_strlit("BORE");
    reveal_strlit("EEVDF?");
    reveal_strlit("CFS?");
    let l = scheduler_label(SchedExt::Inactive, bore, order);
    if l.len() >= 10 {
        assert(l.subrange(0, 10)[0] == l[0]);
    }
}


/// When the first line of the file is, trimmed, `SCX_FLAGS=` followed by a value
/// without surrounding white space, that value is the flags; a file that could
/// not be opened, or that has no lines, gives no flags.
pub proof fn lemma_flags_from_first_line(lines: Seq<String>, value: Seq<char>)
    requires
        lines.len() > 0,
        trim_seq(lines[0]@) == "SCX_FLAGS="@ + value,
        trim_seq(value) == value,
    ensures
        scx_flags(Some(lines)) == value,
        scx_flags(None) == Seq::<char>::empty(),
        scx_flags(Some(Seq::<String>::empty())) == Seq::<char>::empty(),
{
    reveal_strlit("SCX_FLAGS=");
    let t = trim_seq(lines[0]@);
    assert(t.subrange(0, 10) =~= "SCX_FLAGS="@);
    assert(flags_line_index(lines) == 0);
    assert(t.subrange(10, t.len() as int) =~= value);
}

} // verus!
