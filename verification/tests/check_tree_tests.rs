use frontary::CheckStatus;
use frontary::check_tree::{CheckNode, propagate};

use CheckStatus::{Checked, Indeterminate, Unchecked};

fn node(status: CheckStatus, parent: Option<usize>) -> CheckNode {
    CheckNode { status, always: None, preset: None, parent }
}

fn form(statuses: [CheckStatus; 4]) -> Vec<CheckNode> {
    vec![
        node(statuses[0], None),
        node(statuses[1], Some(0)),
        node(statuses[2], Some(0)),
        node(statuses[3], Some(1)),
    ]
}

#[test]
fn checking_a_parent_checks_everything_below() {
    let r = propagate(&form([Unchecked; 4]), 0);
    assert!(r == vec![Checked, Checked, Checked, Checked]);
}

#[test]
fn unchecking_a_leaf_updates_its_ancestors() {
    let r = propagate(&form([Checked; 4]), 3);
    assert!(r == vec![Indeterminate, Unchecked, Checked, Unchecked]);
}

#[test]
fn fixed_and_preset_boxes() {
    let mut f = form([Unchecked; 4]);
    f[2].always = Some(Unchecked);
    let r = propagate(&f, 0);
    assert!(r == vec![Indeterminate, Checked, Unchecked, Checked]);
    f[3].preset = Some(Unchecked);
    let r = propagate(&f, 0);
    assert!(r == vec![Unchecked, Unchecked, Unchecked, Unchecked]);
}

#[test]
fn unchecked_boxes_hide_their_children() {
    let f = form([Checked, Unchecked, Checked, Checked]);
    let r = propagate(&f, 2);
    assert!(r == vec![Unchecked, Unchecked, Unchecked, Checked]);
}

#[test]
fn no_click_leaves_a_consistent_form() {
    let f = form([Indeterminate, Checked, Unchecked, Checked]);
    let r = propagate(&f, 99);
    assert!(r == vec![Indeterminate, Checked, Unchecked, Checked]);
}
