//! Which required fields of a form are missing when it is saved.
//!
//! The fields are held in a list in which every field comes after the
//! checkbox it belongs to (if any), so that its parent is found by position.
use vstd::prelude::*;

use crate::checkbox::CheckStatus;
use crate::config::InputSecondId;
use crate::model::ViewString;

verus! {

/// A field of a form as the check of required fields sees it: whether it is
/// required, whether it is empty, its state when it is a checkbox, and the
/// position of the checkbox it belongs to.
#[derive(Clone, Copy, PartialEq, Eq, Structural)]
pub struct FormField {
    pub required: bool,
    pub empty: bool,
    pub checkbox: Option<CheckStatus>,
    pub parent: Option<usize>,
}

/// A field is asked for: it is at the top of the form or its checkbox is
/// checked.
pub open spec fn asked_for(fields: Seq<FormField>, i: int) -> bool {
    match fields[i].parent {
        Some(p) => p < fields.len() && fields[p as int].checkbox == Some(CheckStatus::Checked),
        None => true,
    }
}

/// A required field that is asked for and empty is missing.
pub open spec fn missing(fields: Seq<FormField>, i: int) -> bool {
    asked_for(fields, i) && fields[i].required && fields[i].empty
}

/// The positions of the missing fields, in order.
pub fn missing_fields(fields: &Vec<FormField>) -> (r: Vec<usize>)
    ensures
        forall|k: int| 0 <= k < r@.len() ==> r@[k] < fields@.len() && missing(fields@, r@[k] as int),
        forall|i: int| 0 <= i < fields@.len() && missing(fields@, i) ==> r@.contains(i as usize),
        forall|a: int, b: int| 0 <= a < b < r@.len() ==> r@[a] < r@[b],
{
    let mut r: Vec<usize> = Vec::new();
    let mut i: usize = 0;
    while i < fields.len()
        invariant
            0 <= i <= fields@.len(),
            forall|k: int| 0 <= k < r@.len() ==> r@[k] < i && missing(fields@, r@[k] as int),
            forall|j: int| 0 <= j < i && missing(fields@, j) ==> r@.contains(j as usize),
            forall|a: int, b: int| 0 <= a < b < r@.len() ==> r@[a] < r@[b],
        decreases fields@.len() - i,
    {
        let f = fields[i];
        let asked = match f.parent {
            Some(p) => p < fields.len() && match fields[p].checkbox {
                Some(CheckStatus::Checked) => true,
                _ => false,
            },
            None => true,
        };
        if asked && f.required && f.empty {
            let ghost before = r@;
            r.push(i);
            proof {
                assert forall|j: int| 0 <= j < i + 1 && missing(fields@, j) implies r@.contains(j as usize) by {
                    if j < i {
                        let k = choose|k: int| 0 <= k < before.len() && before[k] == j as usize;
                        assert(r@[k] == j as usize);
                    } else {
                        assert(r@[r@.len() - 1] == i);
                    }
                }
            }
        } else {
            proof {
                assert forall|j: int| 0 <= j < i + 1 && missing(fields@, j) implies r@.contains(j as usize) by {
                    if j == i {
                        assert(!missing(fields@, j));
                    }
                }
            }
        }
        i = i + 1;
    }
    r
}

/// A list of select boxes is missing input when nothing is selected at all,
/// or a required box (by position) has nothing selected.
pub open spec fn selections_missing(selected: Seq<Seq<Seq<char>>>, required: Seq<bool>) -> bool {
    ||| selected.len() == 0
    ||| exists|k: int|
        0 <= k < selected.len() && k < required.len() && (#[trigger] selected[k]).len() == 0
            && required[k]
}

/// Whether a list of select boxes is missing input.
pub fn vec_select_missing(selected: &Vec<Vec<String>>, required: &Vec<bool>) -> (b: bool)
    ensures
        b == selections_missing(selected@.map_values(|v: Vec<String>| v@.map_values(|s: String| s@)), required@),
{
    let ghost views = selected@.map_values(|v: Vec<String>| v@.map_values(|s: String| s@));
    if selected.len() == 0 {
        return true;
    }
    let mut k: usize = 0;
    while k < selected.len() && k < required.len()
        invariant
            0 <= k <= selected@.len(),
            views == selected@.map_values(|v: Vec<String>| v@.map_values(|s: String| s@)),
            forall|q: int| 0 <= q < k ==> !((#[trigger] views[q]).len() == 0 && required@[q]),
        decreases selected@.len() - k,
    {
        if selected[k].len() == 0 && required[k] {
            assert(views[k as int].len() == 0);
            return true;
        }
        k = k + 1;
    }
    false
}

/// A password is missing when a new item is being added and none is typed
/// (an item being edited keeps its password when none is typed).
pub fn password_missing(adding: bool, empty: bool) -> (b: bool)
    ensures
        b == (adding && empty),
{
    adding && empty
}

/// A group of hosts and networks is missing when it is empty and the check
/// of what was typed into it found nothing wrong or has not run.
pub fn host_network_missing(empty: bool, checked: Option<Option<bool>>) -> (b: bool)
    ensures
        b == (empty && match checked {
            Some(Some(v)) => v,
            Some(None) => true,
            None => false,
        }),
{
    empty && match checked {
        Some(Some(v)) => v,
        Some(None) => true,
        None => false,
    }
}

/// The key of the item being edited: the second-layer item when one is
/// edited (none when one is added), otherwise the item of the form.
pub fn editing_key(second: &Option<InputSecondId>, input_id: &Option<String>) -> (r: Option<String>)
    ensures
        r == match *second {
            Some(InputSecondId::Add) => None,
            Some(InputSecondId::Edit(k)) => Some(k),
            None => *input_id,
        },
{
    match second {
        Some(InputSecondId::Add) => None,
        Some(InputSecondId::Edit(k)) => Some(k.clone()),
        None => match input_id {
            Some(k) => Some(k.clone()),
            None => None,
        },
    }
}

/// Another row, not the one being edited, holds the raw text `value` in the
/// column of a field that must be unique. `rows` holds each row's key and,
/// when that column is a text column, its text.
pub open spec fn text_taken(value: Seq<char>, rows: Seq<(String, Option<ViewString>)>, editing: Option<String>) -> bool {
    exists|k: int| 0 <= k < rows.len() && #[trigger] row_takes(rows[k], value, editing)
}

/// The row is not the one being edited and holds the raw text `value`.
pub open spec fn row_takes(row: (String, Option<ViewString>), value: Seq<char>, editing: Option<String>) -> bool {
    &&& match editing {
        Some(e) => row.0@ != e@,
        None => true,
    }
    &&& match row.1 {
        Some(ViewString::Raw(t)) => t@ == value,
        _ => false,
    }
}

/// Whether the text `value` of a field that must be unique is taken by
/// another row.
pub fn text_conflicts(value: &String, rows: &Vec<(String, Option<ViewString>)>, editing: &Option<String>) -> (b: bool)
    ensures
        b == text_taken(value@, rows@, *editing),
{
    let mut k: usize = 0;
    while k < rows.len()
        invariant
            0 <= k <= rows@.len(),
            forall|q: int| 0 <= q < k ==> !#[trigger] row_takes(rows@[q], value@, *editing),
        decreases rows@.len() - k,
    {
        let other_row = match editing {
            Some(e) => rows[k].0 != *e,
            None => true,
        };
        if other_row {
            if let Some(ViewString::Raw(t)) = &rows[k].1 {
                if *t == *value {
                    assert(row_takes(rows@[k as int], value@, *editing));
                    return true;
                }
            }
        }
        k = k + 1;
    }
    false
}

} // verus!
