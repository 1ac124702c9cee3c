//! Check states of checkboxes and how a click spreads through nested ones.
use vstd::prelude::*;

verus! {

/// The state of a checkbox.
#[derive(Clone, Copy, PartialEq, Eq, Structural)]
pub enum CheckStatus {
    Checked,
    Indeterminate,
    Unchecked,
}

impl Default for CheckStatus {
    fn default() -> (s: Self)
        ensures
            s == CheckStatus::Unchecked,
    {
        CheckStatus::Unchecked
    }
}

/// The state a clicked checkbox takes. A checked (or partly checked) box
/// becomes what its parent says, or unchecked without a parent; an unchecked
/// box becomes its fixed state if it has one, else what its parent says, or
/// checked without a parent. A box fixed to the state it would leave keeps it.
pub open spec fn clicked_status(
    current: CheckStatus,
    always: Option<CheckStatus>,
    parent: Option<CheckStatus>,
) -> CheckStatus {
    match current {
        CheckStatus::Checked | CheckStatus::Indeterminate => if always != Some(CheckStatus::Checked)
            && always != Some(CheckStatus::Indeterminate) {
            match parent {
                Some(p) => p,
                None => CheckStatus::Unchecked,
            }
        } else {
            current
        },
        CheckStatus::Unchecked => if always != Some(CheckStatus::Unchecked) {
            match always {
                Some(a) => a,
                None => match parent {
                    Some(p) => p,
                    None => CheckStatus::Checked,
                },
            }
        } else {
            current
        },
    }
}

fn is_status(s: Option<CheckStatus>, t: CheckStatus) -> (b: bool)
    ensures
        b == (s == Some(t)),
{
    match (s, t) {
        (Some(CheckStatus::Checked), CheckStatus::Checked) => true,
        (Some(CheckStatus::Indeterminate), CheckStatus::Indeterminate) => true,
        (Some(CheckStatus::Unchecked), CheckStatus::Unchecked) => true,
        _ => false,
    }
}

/// The state of a checkbox after the user clicks it.
pub fn click_status(
    current: CheckStatus,
    always: Option<CheckStatus>,
    parent: Option<CheckStatus>,
) -> (s: CheckStatus)
    ensures
        s == clicked_status(current, always, parent),
{
    match current {
        CheckStatus::Checked | CheckStatus::Indeterminate => {
            if !is_status(always, CheckStatus::Checked) && !is_status(
                always,
                CheckStatus::Indeterminate,
            ) {
                match parent {
                    Some(p) => p,
                    None => CheckStatus::Unchecked,
                }
            } else {
                current
            }
        },
        CheckStatus::Unchecked => {
            if !is_status(always, CheckStatus::Unchecked) {
                match always {
                    Some(a) => a,
                    None => match parent {
                        Some(p) => p,
                        None => CheckStatus::Checked,
                    },
                }
            } else {
                current
            }
        },
    }
}

/// The state a checkbox below a changed parent takes: its fixed state, else
/// its preset, else the parent's state.
pub fn inherited_status(
    always: Option<CheckStatus>,
    preset: Option<CheckStatus>,
    parent: CheckStatus,
) -> (s: CheckStatus)
    ensures
        s == (match always {
            Some(a) => a,
            None => match preset {
                Some(p) => p,
                None => parent,
            },
        }),
{
    match always {
        Some(a) => a,
        None => match preset {
            Some(p) => p,
            None => parent,
        },
    }
}

/// The state a radio item reports: checked once an option is selected.
pub fn radio_status(selected_is_empty: bool) -> (s: CheckStatus)
    ensures
        s == (if selected_is_empty {
            CheckStatus::Unchecked
        } else {
            CheckStatus::Checked
        }),
{
    if selected_is_empty {
        CheckStatus::Unchecked
    } else {
        CheckStatus::Checked
    }
}

/// Every child reports `t`.
pub open spec fn all_report(children: Seq<Option<CheckStatus>>, t: CheckStatus) -> bool {
    forall|i: int| 0 <= i < children.len() ==> children[i] == Some(t)
}

/// The state a parent takes from what its children report: none when there
/// are no children, checked when all are checked, unchecked when all are
/// unchecked, partly checked otherwise.
pub open spec fn children_status(children: Seq<Option<CheckStatus>>) -> Option<CheckStatus> {
    if children.len() == 0 {
        None
    } else if all_report(children, CheckStatus::Checked) {
        Some(CheckStatus::Checked)
    } else if all_report(children, CheckStatus::Unchecked) {
        Some(CheckStatus::Unchecked)
    } else {
        Some(CheckStatus::Indeterminate)
    }
}

/// The state a parent takes from the states its children report.
pub fn aggregate_children(children: &[Option<CheckStatus>]) -> (r: Option<CheckStatus>)
    ensures
        r == children_status(children@),
{
    let n = children.len();
    if n == 0 {
        return None;
    }
    let mut all_checked = true;
    let mut all_unchecked = true;
    let mut i: usize = 0;
    while i < n
        invariant
            0 <= i <= n,
            n == children@.len(),
            all_checked == all_report(children@.take(i as int), CheckStatus::Checked),
            all_unchecked == all_report(children@.take(i as int), CheckStatus::Unchecked),
        decreases n - i,
    {
        let c = children[i];
        let ghost t = children@.take(i + 1);
        assert(t.drop_last() =~= children@.take(i as int));
        assert(t[i as int] == c);
        proof {
            let p = children@.take(i as int);
            assert forall|x: CheckStatus| all_report(t, x) <==> (all_report(p, x) && c == Some(x)) by {
                if all_report(t, x) {
                    assert forall|k: int| 0 <= k < p.len() implies p[k] == Some(x) by {
                        assert(t[k] == p[k]);
                    }
                    assert(t[i as int] == Some(x));
                }
                if all_report(p, x) && c == Some(x) {
                    assert forall|k: int| 0 <= k < t.len() implies t[k] == Some(x) by {
                        if k < i {
                            assert(t[k] == p[k]);
                        }
                    }
                }
            }
        }
        all_checked = all_checked && is_status(c, CheckStatus::Checked);
        all_unchecked = all_unchecked && is_status(c, CheckStatus::Unchecked);
        i = i + 1;
    }
    assert(children@.take(n as int) =~= children@);
    if all_checked {
        Some(CheckStatus::Checked)
    } else if all_unchecked {
        Some(CheckStatus::Unchecked)
    } else {
        Some(CheckStatus::Indeterminate)
    }
}

/// Clicking a free checkbox without a parent toggles it: an unchecked box
/// becomes checked, and a checked or partly checked box becomes unchecked.
pub proof fn law_click_toggles_free_box(current: CheckStatus)
    ensures
        clicked_status(current, None, None) == (if current == CheckStatus::Unchecked {
            CheckStatus::Checked
        } else {
            CheckStatus::Unchecked
        }),
{
}

/// A box fixed to a state shows that state after any click.
pub proof fn law_fixed_box_keeps_state(current: CheckStatus, always: CheckStatus, parent: Option<CheckStatus>)
    requires
        current == always,
    ensures
        clicked_status(current, Some(always), parent) == always,
{
}

/// A parent's state follows its children's: when all children agree on
/// checked or unchecked the parent takes that state, and it is partly
/// checked exactly when they do not all agree on one of them.
pub proof fn law_parent_follows_children(children: Seq<Option<CheckStatus>>, t: CheckStatus)
    requires
        children.len() > 0,
        t != CheckStatus::Indeterminate,
        all_report(children, t),
    ensures
        children_status(children) == Some(t),
{
    if t == CheckStatus::Unchecked {
        assert(children[0] == Some(CheckStatus::Unchecked));
    }
}

/// What a parent shows is what its children report: checked only when
/// every child reports checked, unchecked only when every child reports
/// unchecked, partly checked when there are children and they do neither,
/// and nothing when there are none.
pub proof fn law_parent_state_from_children(children: Seq<Option<CheckStatus>>)
    ensures
        children_status(children) == Some(CheckStatus::Checked) <==> (children.len() > 0 && forall|
            i: int,
        | 0 <= i < children.len() ==> #[trigger] children[i] == Some(CheckStatus::Checked)),
        children_status(children) == Some(CheckStatus::Unchecked) <==> (children.len() > 0 && forall|
            i: int,
        | 0 <= i < children.len() ==> #[trigger] children[i] == Some(CheckStatus::Unchecked)),
        children_status(children) == Some(CheckStatus::Indeterminate) <==> (children.len() > 0 && (
        exists|i: int| 0 <= i < children.len() && #[trigger] children[i] != Some(CheckStatus::Checked))
            && (exists|j: int|
            0 <= j < children.len() && #[trigger] children[j] != Some(CheckStatus::Unchecked))),
        children_status(children) is None <==> children.len() == 0,
{
    if children.len() > 0 {
        if children[0] == Some(CheckStatus::Checked) {
            assert(children[0] != Some(CheckStatus::Unchecked));
        } else {
            assert(children[0] != Some(CheckStatus::Checked));
        }
    }
}

} // verus!