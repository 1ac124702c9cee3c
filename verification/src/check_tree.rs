//! A click on a checkbox of a form whose checkboxes nest: the clicked box
//! changes, the boxes below a changed box follow it, and every box that
//! shows its children takes the state its children report.
//!
//! The boxes are held in a list in which every box comes after its parent,
//! so that a box's parent is found by its position.
use vstd::prelude::*;

use crate::checkbox::{CheckStatus, click_status, clicked_status};

verus! {

/// A checkbox of a form: its state, the state it is fixed to (if any), the
/// state it starts from below a changed parent (if any), and the position
/// of its parent (none for a box at the top of the form).
#[derive(Clone, Copy, PartialEq, Eq, Structural)]
pub struct CheckNode {
    pub status: CheckStatus,
    pub always: Option<CheckStatus>,
    pub preset: Option<CheckStatus>,
    pub parent: Option<usize>,
}

/// Every box comes after its parent.
pub open spec fn well_formed(nodes: Seq<CheckNode>) -> bool {
    forall|i: int| 0 <= i < nodes.len() ==> (#[trigger] nodes[i].parent matches Some(p) ==> p < i)
}

/// A box shows its children when it is checked or partly checked.
pub open spec fn opens(s: CheckStatus) -> bool {
    s == CheckStatus::Checked || s == CheckStatus::Indeterminate
}

/// The state a box is given, before its children are heard: the clicked box
/// changes as a click changes it; a box below a box that was given a state
/// takes its fixed state, else its preset, else that state; other boxes are
/// given none.
pub open spec fn given_status(nodes: Seq<CheckNode>, click: int, i: int) -> Option<CheckStatus>
    decreases i,
{
    if i < 0 || i >= nodes.len() {
        None
    } else {
        let from_parent = match nodes[i].parent {
            Some(p) => if p < i {
                given_status(nodes, click, p as int)
            } else {
                None
            },
            None => None,
        };
        if i == click {
            Some(clicked_status(nodes[i].status, nodes[i].always, from_parent))
        } else {
            match from_parent {
                Some(s) => Some(
                    match nodes[i].always {
                        Some(a) => a,
                        None => match nodes[i].preset {
                            Some(q) => q,
                            None => s,
                        },
                    },
                ),
                None => None,
            }
        }
    }
}

/// The state of a box before its children are heard.
pub open spec fn first_status(nodes: Seq<CheckNode>, click: int, i: int) -> CheckStatus {
    match given_status(nodes, click, i) {
        Some(s) => s,
        None => nodes[i].status,
    }
}

/// The box is reached by the click: it is at the top of the form, or its
/// parent is reached and shows its children.
pub open spec fn reached(nodes: Seq<CheckNode>, click: int, i: int) -> bool
    decreases i,
{
    if i < 0 || i >= nodes.len() {
        false
    } else {
        match nodes[i].parent {
            Some(p) => p < i && reached(nodes, click, p as int) && opens(
                first_status(nodes, click, p as int),
            ),
            None => true,
        }
    }
}

/// Some box at or after `from` is a child of box `i`.
pub open spec fn has_child_from(nodes: Seq<CheckNode>, i: int, from: int) -> bool {
    exists|j: int| from <= j < nodes.len() && #[trigger] nodes[j].parent == Some(i as usize)
}

/// Every child of box `i` at or after `from` ends up in the state `t`.
pub open spec fn children_end_in(nodes: Seq<CheckNode>, click: int, i: int, from: int, t: CheckStatus) -> bool
    decreases nodes.len() - i, nodes.len() - from,
{
    if from <= i || from >= nodes.len() {
        true
    } else {
        (nodes[from].parent == Some(i as usize) ==> final_status(nodes, click, from) == t)
            && children_end_in(nodes, click, i, from + 1, t)
    }
}

/// The state a box ends up in: a box not reached keeps its state; a
/// reached box that shows children takes the state they report (checked
/// when all end checked, unchecked when all end unchecked, partly checked
/// otherwise); any other reached box keeps the state it was given.
pub open spec fn final_status(nodes: Seq<CheckNode>, click: int, i: int) -> CheckStatus
    decreases nodes.len() - i, nodes.len() + 1,
{
    if i < 0 || i >= nodes.len() {
        CheckStatus::Unchecked
    } else if !reached(nodes, click, i) {
        nodes[i].status
    } else if opens(first_status(nodes, click, i)) && has_child_from(nodes, i, i + 1) {
        if children_end_in(nodes, click, i, i + 1, CheckStatus::Checked) {
            CheckStatus::Checked
        } else if children_end_in(nodes, click, i, i + 1, CheckStatus::Unchecked) {
            CheckStatus::Unchecked
        } else {
            CheckStatus::Indeterminate
        }
    } else {
        first_status(nodes, click, i)
    }
}

fn same_status(a: CheckStatus, b: CheckStatus) -> (r: bool)
    ensures
        r == (a == b),
{
    match (a, b) {
        (CheckStatus::Checked, CheckStatus::Checked) => true,
        (CheckStatus::Unchecked, CheckStatus::Unchecked) => true,
        (CheckStatus::Indeterminate, CheckStatus::Indeterminate) => true,
        _ => false,
    }
}

fn is_open(s: CheckStatus) -> (r: bool)
    ensures
        r == opens(s),
{
    match s {
        CheckStatus::Checked | CheckStatus::Indeterminate => true,
        CheckStatus::Unchecked => false,
    }
}

proof fn lemma_has_child_step(nodes: Seq<CheckNode>, i: int, from: int)
    requires
        0 <= from < nodes.len(),
    ensures
        has_child_from(nodes, i, from) == (nodes[from].parent == Some(i as usize)
            || has_child_from(nodes, i, from + 1)),
{
    if has_child_from(nodes, i, from) {
        let j = choose|j: int| from <= j < nodes.len() && #[trigger] nodes[j].parent == Some(i as usize);
        if j != from {
            assert(from + 1 <= j);
        }
    }
    if has_child_from(nodes, i, from + 1) {
        let j = choose|j: int| from + 1 <= j < nodes.len() && #[trigger] nodes[j].parent == Some(i as usize);
        assert(from <= j);
    }
}

/// The states of the boxes after a click on the box at `click`.
pub fn propagate(nodes: &Vec<CheckNode>, click: usize) -> (r: Vec<CheckStatus>)
    requires
        well_formed(nodes@),
    ensures
        r@.len() == nodes@.len(),
        forall|i: int| 0 <= i < nodes@.len() ==> r@[i] == final_status(nodes@, click as int, i),
{
    let n = nodes.len();
    let ghost ns = nodes@;
    // from the top down: the state each box is given and whether it is reached
    let mut given: Vec<Option<CheckStatus>> = Vec::new();
    let mut first: Vec<CheckStatus> = Vec::new();
    let mut reach: Vec<bool> = Vec::new();
    let mut i: usize = 0;
    while i < n
        invariant
            0 <= i <= n,
            n == ns.len(),
            ns == nodes@,
            well_formed(ns),
            given@.len() == i && first@.len() == i && reach@.len() == i,
            forall|k: int| 0 <= k < i ==> given@[k] == given_status(ns, click as int, k),
            forall|k: int| 0 <= k < i ==> first@[k] == first_status(ns, click as int, k),
            forall|k: int| 0 <= k < i ==> reach@[k] == reached(ns, click as int, k),
        decreases n - i,
    {
        let node = nodes[i];
        assert(node.parent matches Some(p) ==> p < i);
        let from_parent = match node.parent {
            Some(p) => given[p],
            None => None,
        };
        let g = if i == click {
            Some(click_status(node.status, node.always, from_parent))
        } else {
            match from_parent {
                Some(s) => Some(
                    match node.always {
                        Some(a) => a,
                        None => match node.preset {
                            Some(q) => q,
                            None => s,
                        },
                    },
                ),
                None => None,
            }
        };
        let f = match g {
            Some(s) => s,
            None => node.status,
        };
        let r = match node.parent {
            Some(p) => reach[p] && is_open(first[p]),
            None => true,
        };
        given.push(g);
        first.push(f);
        reach.push(r);
        i = i + 1;
    }
    // from the bottom up: the state each box ends up in
    let mut finals: Vec<CheckStatus> = Vec::new();
    let mut k: usize = 0;
    while k < n
        invariant
            0 <= k <= n,
            n == ns.len(),
            ns == nodes@,
            given@.len() == n && first@.len() == n && reach@.len() == n,
            forall|q: int| 0 <= q < n ==> first@[q] == first_status(ns, click as int, q),
            forall|q: int| 0 <= q < n ==> reach@[q] == reached(ns, click as int, q),
            finals@.len() == k,
        decreases n - k,
    {
        finals.push(CheckStatus::Unchecked);
        k = k + 1;
    }
    let mut i: usize = n;
    while i > 0
        invariant
            0 <= i <= n,
            n == ns.len(),
            ns == nodes@,
            first@.len() == n && reach@.len() == n && finals@.len() == n,
            forall|q: int| 0 <= q < n ==> first@[q] == first_status(ns, click as int, q),
            forall|q: int| 0 <= q < n ==> reach@[q] == reached(ns, click as int, q),
            forall|q: int| i <= q < n ==> finals@[q] == final_status(ns, click as int, q),
        decreases i,
    {
        i = i - 1;
        let ghost c = click as int;
        let ghost ii = i as int;
        let fin = if !reach[i] {
            nodes[i].status
        } else if is_open(first[i]) {
            // hear the children, from the last to the first
            let mut any = false;
            let mut all_checked = true;
            let mut all_unchecked = true;
            let mut j: usize = n;
            proof {
                assert(!has_child_from(ns, ii, n as int));
            }
            while j > i + 1
                invariant
                    i < j <= n,
                    n == ns.len(),
                    ns == nodes@,
                    finals@.len() == n,
                    ii == i as int,
                    forall|q: int| i < q < n ==> finals@[q] == final_status(ns, c, q),
                    any == has_child_from(ns, ii, j as int),
                    all_checked == children_end_in(ns, c, ii, j as int, CheckStatus::Checked),
                    all_unchecked == children_end_in(ns, c, ii, j as int, CheckStatus::Unchecked),
                decreases j,
            {
                j = j - 1;
                proof {
                    lemma_has_child_step(ns, ii, j as int);
                }
                let child = match nodes[j].parent {
                    Some(p) => p == i,
                    None => false,
                };
                assert(child == (ns[j as int].parent == Some(i)));
                if child {
                    any = true;
                    all_checked = all_checked && same_status(finals[j], CheckStatus::Checked);
                    all_unchecked = all_unchecked && same_status(finals[j], CheckStatus::Unchecked);
                }
            }
            if any {
                if all_checked {
                    CheckStatus::Checked
                } else if all_unchecked {
                    CheckStatus::Unchecked
                } else {
                    CheckStatus::Indeterminate
                }
            } else {
                first[i]
            }
        } else {
            first[i]
        };
        finals.set(i, fin);
    }
    finals
}

/// Every child of box `i` at or after `from` is in the state `t` now.
pub open spec fn children_are(nodes: Seq<CheckNode>, i: int, from: int, t: CheckStatus) -> bool
    decreases nodes.len() - from,
{
    if from <= i || from >= nodes.len() {
        true
    } else {
        (nodes[from].parent == Some(i as usize) ==> nodes[from].status == t) && children_are(
            nodes,
            i,
            from + 1,
            t,
        )
    }
}

/// The form agrees with itself: every box at the top of the form, or below
/// a box that shows its children, and that shows children of its own, is in
/// the state its children report.
pub open spec fn consistent(nodes: Seq<CheckNode>) -> bool {
    forall|i: int|
        0 <= i < nodes.len() && #[trigger] reached(nodes, nodes.len() as int, i) && opens(nodes[i].status)
            && has_child_from(nodes, i, i + 1) ==> nodes[i].status == (if children_are(
            nodes,
            i,
            i + 1,
            CheckStatus::Checked,
        ) {
            CheckStatus::Checked
        } else if children_are(nodes, i, i + 1, CheckStatus::Unchecked) {
            CheckStatus::Unchecked
        } else {
            CheckStatus::Indeterminate
        })
}

proof fn lemma_no_click_gives_nothing(nodes: Seq<CheckNode>, click: int, i: int)
    requires
        click < 0 || click >= nodes.len(),
    ensures
        given_status(nodes, click, i) is None,
    decreases i,
{
    if 0 <= i < nodes.len() {
        if let Some(p) = nodes[i].parent {
            if p < i {
                lemma_no_click_gives_nothing(nodes, click, p as int);
            }
        }
    }
}

proof fn lemma_reached_without_click(nodes: Seq<CheckNode>, click: int, i: int)
    requires
        click < 0 || click >= nodes.len(),
    ensures
        reached(nodes, click, i) == reached(nodes, nodes.len() as int, i),
    decreases i,
{
    if 0 <= i < nodes.len() {
        if let Some(p) = nodes[i].parent {
            if p < i {
                lemma_reached_without_click(nodes, click, p as int);
                lemma_no_click_gives_nothing(nodes, click, p as int);
                lemma_no_click_gives_nothing(nodes, nodes.len() as int, p as int);
            }
        }
    }
}

proof fn lemma_children_agree(nodes: Seq<CheckNode>, click: int, i: int, from: int, t: CheckStatus)
    requires
        0 <= i < nodes.len(),
        forall|j: int| i < j < nodes.len() ==> #[trigger] final_status(nodes, click, j) == nodes[j].status,
    ensures
        children_end_in(nodes, click, i, from, t) == children_are(nodes, i, from, t),
    decreases nodes.len() - from,
{
    if from > i && from < nodes.len() {
        lemma_children_agree(nodes, click, i, from + 1, t);
        assert(final_status(nodes, click, from) == nodes[from].status);
    }
}

proof fn lemma_unchanged_from(nodes: Seq<CheckNode>, click: int, i: int)
    requires
        click < 0 || click >= nodes.len(),
        consistent(nodes),
        0 <= i <= nodes.len(),
    ensures
        forall|j: int| i <= j < nodes.len() ==> #[trigger] final_status(nodes, click, j) == nodes[j].status,
    decreases nodes.len() - i,
{
    if i < nodes.len() {
        lemma_unchanged_from(nodes, click, i + 1);
        lemma_no_click_gives_nothing(nodes, click, i);
        lemma_reached_without_click(nodes, click, i);
        if reached(nodes, click, i) && opens(nodes[i].status) && has_child_from(nodes, i, i + 1) {
            lemma_children_agree(nodes, click, i, i + 1, CheckStatus::Checked);
            lemma_children_agree(nodes, click, i, i + 1, CheckStatus::Unchecked);
            assert(reached(nodes, nodes.len() as int, i));
        }
        assert(final_status(nodes, click, i) == nodes[i].status);
    }
}

/// A form that agrees with itself is left as it is when no box is clicked.
pub proof fn law_no_click_changes_nothing(nodes: Seq<CheckNode>, click: int)
    requires
        consistent(nodes),
        click < 0 || click >= nodes.len(),
    ensures
        forall|i: int| 0 <= i < nodes.len() ==> #[trigger] final_status(nodes, click, i) == nodes[i].status,
{
    lemma_unchanged_from(nodes, click, 0);
}

/// After a click, every reached box that shows children is in the state its
/// children end up in: checked when all of them are, unchecked when all of
/// them are, partly checked otherwise.
pub proof fn law_shown_boxes_follow_their_children(nodes: Seq<CheckNode>, click: int, i: int)
    requires
        0 <= i < nodes.len(),
        reached(nodes, click, i),
        opens(first_status(nodes, click, i)),
        has_child_from(nodes, i, i + 1),
    ensures
        (final_status(nodes, click, i) == CheckStatus::Checked) == children_end_in(
            nodes,
            click,
            i,
            i + 1,
            CheckStatus::Checked,
        ),
        (final_status(nodes, click, i) == CheckStatus::Unchecked) == (!children_end_in(
            nodes,
            click,
            i,
            i + 1,
            CheckStatus::Checked,
        ) && children_end_in(nodes, click, i, i + 1, CheckStatus::Unchecked)),
{
}

/// Boxes the click does not reach keep their state.
pub proof fn law_unreached_boxes_keep_their_state(nodes: Seq<CheckNode>, click: int, i: int)
    requires
        0 <= i < nodes.len(),
        !reached(nodes, click, i),
    ensures
        final_status(nodes, click, i) == nodes[i].status,
{
}

} // verus!
