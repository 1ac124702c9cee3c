//! The input form: what each input of the user and each request to save does
//! to the values entered and to the messages shown beside them.
//!
//! The form's items are held in a list; an item names a field by its
//! position. The form's checkboxes are held apart, as a tree of boxes (see
//! `check_tree`), and a checkbox item names its box by position.
use vstd::prelude::*;

use crate::check_tree::{final_status, propagate, well_formed, CheckNode};
use crate::checkbox::CheckStatus;
use crate::comparison::{law_comparison_kind_text_identifies, comparison_kind_text, value_kind_text, Comparison, ComparisonKind, Value, ValueKind};
use crate::comparison_input::{
    chosen_comparison_kind, chosen_value_kind, comparison_template, empty_value, input_comparison_value,
    ComparisonBuffer,
};
use crate::items::{InputNic, InputTagGroup};
use crate::network::InputHostNetworkGroup;
use crate::ip::{host_key, network_key};
use crate::network::{sort_hosts, sort_networks, sorted_by};
use crate::sorting::{no_repeats, same_members, string_views};
use crate::password::first_broken_rule;
use crate::password::InvalidPasswordKind;
use crate::required::{
    asked_for, missing, missing_fields, selections_missing, vec_select_missing, FormField,
};
use crate::verification::{
    nic_check, nic_complete, trim_nics, verify_nic, verify_password, InvalidMessage, NicCheck,
    Verification,
};

verus! {

/// The value entered into one field of the form.
pub enum InputItem {
    Text(String),
    Password(String),
    Unsigned32(Option<u32>),
    Unsigned8(Option<u8>),
    /// A checkbox, by its position among the form's boxes.
    Checkbox(usize),
    HostNetworkGroup(InputHostNetworkGroup),
    Nic(Vec<InputNic>),
    /// The id chosen in a select box, if any.
    SelectSingle(Option<String>),
    /// The ids chosen in a box that allows several.
    SelectMultiple(Vec<String>),
    /// The option chosen among radio buttons (empty when none is).
    Radio(String),
    /// The ids chosen in each of a row of select boxes.
    VecSelect(Vec<Vec<String>>),
    Tag(InputTagGroup),
    /// The rows of a group of fields.
    Group(Vec<Vec<GroupCell>>),
    /// A comparison, once it is complete.
    Comparison(Option<Comparison>),
}

/// The value entered into one cell of a group of fields.
pub enum GroupCell {
    Text(String),
    Unsigned32(Option<u32>),
    SelectSingle(Option<String>),
    SelectMultiple(Vec<String>),
    HostNetworkGroup(InputHostNetworkGroup),
}

/// A cell holds nothing.
pub open spec fn cell_empty(c: GroupCell) -> bool {
    match c {
        GroupCell::Text(t) => t@.len() == 0,
        GroupCell::Unsigned32(v) => v is None,
        GroupCell::SelectSingle(v) => v is None,
        GroupCell::SelectMultiple(v) => v@.len() == 0,
        GroupCell::HostNetworkGroup(g) => group_empty(g),
    }
}

/// Every cell of every row holds nothing.
pub open spec fn rows_inside_empty(rows: Seq<Vec<GroupCell>>) -> bool {
    forall|r: int, c: int| 0 <= r < rows.len() && 0 <= c < rows[r]@.len() ==> cell_empty(
        #[trigger] rows[r]@[c],
    )
}

/// Which messages for the tag list the page is to be sent.
#[derive(Clone, Copy, Debug, PartialEq, Eq, Structural)]
pub enum TagNotice {
    AddTag,
    EditTag,
    DeleteTag,
}

/// How a field is checked: whether it is required, whether its text must
/// differ from that of every other entry, the checkbox item it belongs to,
/// and the bounds of a number.
#[derive(Clone, Copy, PartialEq, Eq, Structural)]
pub struct FieldRule {
    pub required: bool,
    pub unique: bool,
    pub parent: Option<usize>,
    pub low: u32,
    pub high: u32,
}

/// The state of the form.
pub struct InputForm {
    /// The values entered, one per field.
    pub items: Vec<InputItem>,
    /// How each field is checked.
    pub rules: Vec<FieldRule>,
    /// For each field, the texts the other entries already hold in it.
    pub taken: Vec<Vec<String>>,
    /// The confirmation typed for each password field.
    pub confirmations: Vec<Option<String>>,
    /// The form's checkboxes.
    pub checks: Vec<CheckNode>,
    /// Whether a new entry is being added (an empty password then counts as
    /// missing; when editing, it means the password stays).
    pub adding: bool,
    /// The fields shown as required and missing.
    pub required_msg: Vec<usize>,
    /// The fields shown as holding a text another entry holds.
    pub unique_msg: Vec<usize>,
    /// The fields shown as holding a wrong value, with the reason.
    pub verify_msg: Vec<(usize, InvalidMessage)>,
    /// The network interfaces shown as wrong: field, row and what is wrong.
    pub nic_msg: Vec<(usize, usize, NicCheck)>,
    /// The host and network fields being checked before saving, with their
    /// outcome so far (`None` while it is not known).
    pub host_checks: Vec<(usize, Option<bool>)>,
    /// Whether saving waits for the host and network fields to be checked.
    pub verifying_host_networks: bool,
    /// For each field of select boxes, which boxes must hold a choice.
    pub vec_required: Vec<Vec<bool>>,
    /// The most rows a group of fields holds.
    pub max_group_rows: usize,
    /// The cells of groups shown as required and missing: field, row, column.
    pub cell_required_msg: Vec<(usize, usize, usize)>,
    /// The change of the tag list handed to the page: a new tag, an edited
    /// one and a deleted one.
    pub tag_out: InputTagGroup,
    /// The messages for the tag list the last tag input asks to be sent.
    pub tag_notices: Vec<TagNotice>,
    /// For each field, the values of a comparison entered so far.
    pub comparison_buffers: Vec<ComparisonBuffer>,
}

/// What the form asks of the page it stands in.
#[derive(Clone, Copy, Debug, PartialEq, Eq, Structural)]
pub enum FormRequest {
    /// Leave the form.
    Escape,
    /// Send the form `FormMessage::Save`.
    Save,
    /// The entered values are complete and valid: store them.
    Submit,
    /// A group of fields lost its last row: send the form
    /// `FormMessage::InputGroupAdd` for it with a fresh row.
    AddGroupRow(usize),
}

/// What the form does after a message: whether it is drawn again, and what
/// it asks of its page.
#[derive(Clone, Copy, Debug, PartialEq, Eq, Structural)]
pub struct FormAction {
    pub render: bool,
    pub request: Option<FormRequest>,
}

/// What the user did in the form.
pub enum FormMessage {
    Escape,
    TrySave,
    Save,
    InputText(usize, String),
    InputPassword(usize, String),
    InputConfirmPassword(usize, String),
    InputUnsigned32(usize, Option<u32>),
    InputUnsigned8(usize, Option<u8>),
    InvalidInput,
    InputHostNetworkGroup(usize, InputHostNetworkGroup),
    WrongHostNetworkGroup(usize),
    RightHostNetworkGroup(usize, InputHostNetworkGroup),
    /// A click on a checkbox, by its position among the form's boxes.
    ClickCheckbox(usize),
    InputNicName(usize, usize, String),
    InputNicInterface(usize, usize, String),
    InputNicGateway(usize, usize, String),
    InputNicAdd(usize, usize),
    InputNicDelete(usize, usize),
    /// What a select box holds chosen (`None` when its list is not opened).
    InputSingleSelect(usize, Option<Vec<String>>),
    /// What a box that allows several holds chosen (`None` when its list is
    /// not opened, which chooses every id of the list given with it).
    InputMultipleSelect(usize, Option<Vec<String>>, Vec<String>),
    /// The option chosen among radio buttons.
    InputRadio(usize, String),
    /// What the select box at column `col` of a row of boxes holds chosen
    /// (`None` when its list is not opened).
    InputVecSelect(usize, usize, Option<Vec<String>>),
    /// The tags as the tag input holds them.
    InputTagGroup(usize, InputTagGroup),
    /// A new row, preset, for a group of fields.
    InputGroupAdd(usize, Vec<GroupCell>),
    /// Deletes a row of a group of fields; the flag says the group is required.
    InputGroupDelete(usize, usize, bool),
    /// A kind of value was chosen for a comparison: what was entered is cleared.
    InputComparisonValueKind(usize),
    /// A kind of comparison was chosen: what the select boxes of the kind
    /// of value and of the kind of comparison hold.
    InputComparisonKind(usize, Option<Vec<String>>, Option<Vec<String>>),
    /// A value of a comparison was entered at a place (0 for the first),
    /// with what the select box of the kind of comparison holds.
    InputComparisonValue(usize, usize, Value, Option<Vec<String>>),
}

/// The form's lists agree in length and its boxes come after their parents.
pub open spec fn form_wf(f: InputForm) -> bool {
    &&& f.rules@.len() == f.items@.len()
    &&& f.taken@.len() == f.items@.len()
    &&& f.confirmations@.len() == f.items@.len()
    &&& well_formed(f.checks@)
    &&& f.vec_required@.len() == f.items@.len()
    &&& f.comparison_buffers@.len() == f.items@.len()
}

/// The state of the box at `k` (unchecked when there is no such box).
pub open spec fn status_of(checks: Seq<CheckNode>, k: int) -> CheckStatus {
    if 0 <= k < checks.len() {
        checks[k].status
    } else {
        CheckStatus::Unchecked
    }
}

/// The last outcome recorded for the field `id`.
pub open spec fn host_check_of(v: Seq<(usize, Option<bool>)>, id: usize) -> Option<Option<bool>>
    decreases v.len(),
{
    if v.len() == 0 {
        None
    } else if v.last().0 == id {
        Some(v.last().1)
    } else {
        host_check_of(v.drop_last(), id)
    }
}

/// A network interface holds some input.
pub open spec fn nic_filled(n: InputNic) -> bool {
    n.name@.len() > 0 || n.interface@.len() > 0 || n.gateway@.len() > 0
}

/// A host and network group holds nothing.
pub open spec fn group_empty(g: InputHostNetworkGroup) -> bool {
    g.hosts@.len() == 0 && g.networks@.len() == 0 && g.ranges@.len() == 0
}

/// The field `i` counts as empty for the check of required fields.
pub open spec fn item_empty(f: InputForm, i: int) -> bool {
    match f.items@[i] {
        InputItem::Text(s) => s@.len() == 0,
        InputItem::Password(p) => f.adding && p@.len() == 0,
        InputItem::Unsigned32(v) => v is None,
        InputItem::Unsigned8(v) => v is None,
        InputItem::Checkbox(k) => status_of(f.checks@, k as int) == CheckStatus::Unchecked,
        InputItem::HostNetworkGroup(g) => group_empty(g) && match host_check_of(
            f.host_checks@,
            i as usize,
        ) {
            Some(Some(ok)) => ok,
            Some(None) => true,
            None => false,
        },
        InputItem::Nic(rows) => forall|j: int| 0 <= j < rows@.len() ==> !nic_filled(#[trigger] rows@[j]),
        InputItem::SelectSingle(v) => v is None,
        InputItem::SelectMultiple(v) => v@.len() == 0,
        InputItem::Radio(s) => s@.len() == 0,
        InputItem::VecSelect(v) => selections_missing(
            v@.map_values(|w: Vec<String>| w@.map_values(|t: String| t@)),
            f.vec_required@[i]@,
        ),
        InputItem::Tag(t) => t.empty(),
        InputItem::Group(rows) => rows@.len() == 0,
        InputItem::Comparison(c) => c is None,
    }
}

/// The field `i` as the check of required fields sees it.
pub open spec fn field_at(f: InputForm, i: int) -> FormField {
    FormField {
        required: f.rules@[i].required,
        empty: item_empty(f, i),
        checkbox: match f.items@[i] {
            InputItem::Checkbox(k) => Some(status_of(f.checks@, k as int)),
            _ => None,
        },
        parent: f.rules@[i].parent,
    }
}

/// The fields of the form as the check of required fields sees them.
pub open spec fn fields_of(f: InputForm) -> Seq<FormField> {
    Seq::new(f.items@.len(), |i: int| field_at(f, i))
}

/// The field `i` must be unique and another entry holds its text.
pub open spec fn not_unique(f: InputForm, i: int) -> bool {
    &&& f.rules@[i].unique
    &&& f.items@[i] matches InputItem::Text(s)
    &&& f.taken@[i]@.map_values(|t: String| t@).contains(s@)
}

/// The fields among the first `n` that are not unique, in order.
pub open spec fn not_unique_upto(f: InputForm, n: int) -> Seq<usize>
    decreases n,
{
    if n <= 0 {
        Seq::empty()
    } else if not_unique(f, n - 1) {
        not_unique_upto(f, n - 1).push((n - 1) as usize)
    } else {
        not_unique_upto(f, n - 1)
    }
}

/// What is wrong with the value of the field `i`: a number out of its
/// bounds, or a password that does not match its confirmation or breaks a
/// rule. Only fields that are asked for are checked.
pub open spec fn item_problem(f: InputForm, i: int) -> Option<InvalidMessage> {
    if !asked_for(fields_of(f), i) {
        None
    } else {
        match f.items@[i] {
            InputItem::Unsigned32(Some(v)) => if f.rules@[i].low <= v && v <= f.rules@[i].high {
                None
            } else {
                Some(InvalidMessage::InvalidInput)
            },
            InputItem::Password(p) => match f.confirmations@[i] {
                Some(c) => if p@ == c@ {
                    match first_broken_rule(p@) {
                        Some(k) => Some(InvalidMessage::InvalidPassword(k)),
                        None => None,
                    }
                } else {
                    Some(InvalidMessage::InvalidPassword(InvalidPasswordKind::NotMatch))
                },
                None => None,
            },
            _ => None,
        }
    }
}

/// The problems of the first `n` fields, in order.
pub open spec fn problems_upto(f: InputForm, n: int) -> Seq<(usize, InvalidMessage)>
    decreases n,
{
    if n <= 0 {
        Seq::empty()
    } else {
        match item_problem(f, n - 1) {
            Some(m) => problems_upto(f, n - 1).push(((n - 1) as usize, m)),
            None => problems_upto(f, n - 1),
        }
    }
}

/// Nothing is wrong with a network interface.
pub open spec fn nic_fine(c: NicCheck) -> bool {
    c.name is None && c.interface is None && c.gateway is None
}

/// The check of a network interface.
pub open spec fn check_of(n: InputNic) -> NicCheck {
    nic_check(n.name@, n.interface@, n.gateway@)
}

/// The wrong interfaces among the first `n` rows of the field `i`.
pub open spec fn row_problems(i: usize, rows: Seq<InputNic>, n: int) -> Seq<(usize, usize, NicCheck)>
    decreases n,
{
    if n <= 0 {
        Seq::empty()
    } else if nic_fine(check_of(rows[n - 1])) {
        row_problems(i, rows, n - 1)
    } else {
        row_problems(i, rows, n - 1).push((i, (n - 1) as usize, check_of(rows[n - 1])))
    }
}

/// The wrong interfaces of the field `i` (only when it is asked for).
pub open spec fn field_nic_problems(f: InputForm, i: int) -> Seq<(usize, usize, NicCheck)> {
    match f.items@[i] {
        InputItem::Nic(rows) => if asked_for(fields_of(f), i) {
            row_problems(i as usize, rows@, rows@.len() as int)
        } else {
            Seq::empty()
        },
        _ => Seq::empty(),
    }
}

/// The wrong interfaces of the first `n` fields, in order.
pub open spec fn nic_problems_upto(f: InputForm, n: int) -> Seq<(usize, usize, NicCheck)>
    decreases n,
{
    if n <= 0 {
        Seq::empty()
    } else {
        nic_problems_upto(f, n - 1) + field_nic_problems(f, n - 1)
    }
}

/// The items with the incomplete network interfaces dropped.
pub open spec fn items_trimmed(old_items: Seq<InputItem>, new_items: Seq<InputItem>) -> bool {
    &&& new_items.len() == old_items.len()
    &&& forall|i: int|
        0 <= i < old_items.len() ==> match #[trigger] old_items[i] {
            InputItem::Nic(rows) => new_items[i] matches InputItem::Nic(t) && t@ == rows@.filter(
                |n: InputNic| nic_complete(n),
            ),
            _ => new_items[i] == old_items[i],
        }
}

/// The host and network fields that are asked for, each with no outcome yet.
pub open spec fn host_checks_reset(f: InputForm, n: int) -> Seq<(usize, Option<bool>)>
    decreases n,
{
    if n <= 0 {
        Seq::empty()
    } else if f.items@[n - 1] is HostNetworkGroup && asked_for(fields_of(f), n - 1) {
        host_checks_reset(f, n - 1).push(((n - 1) as usize, None))
    } else {
        host_checks_reset(f, n - 1)
    }
}

/// The messages with those of `id` dropped.
pub open spec fn without_id(v: Seq<usize>, id: usize) -> Seq<usize> {
    v.filter(|x: usize| x != id)
}

/// The required message of `id` is dropped unless the new value is empty.
pub open spec fn required_after(v: Seq<usize>, id: usize, empty: bool) -> Seq<usize> {
    if empty {
        v
    } else {
        without_id(v, id)
    }
}

/// The interface messages with those of row `row` of field `id` dropped.
pub open spec fn nic_msg_without(v: Seq<(usize, usize, NicCheck)>, id: usize, row: usize) -> Seq<
    (usize, usize, NicCheck),
> {
    v.filter(|e: (usize, usize, NicCheck)| !(e.0 == id && e.1 == row))
}

/// The recorded outcomes with that of `id` set to `ok`.
pub open spec fn host_checks_set(v: Seq<(usize, Option<bool>)>, id: usize, ok: bool) -> Seq<(usize, Option<bool>)> {
    v.filter(|e: (usize, Option<bool>)| e.0 != id).push((id, Some(ok)))
}

/// Every recorded outcome is known and good.
pub open spec fn all_hosts_right(v: Seq<(usize, Option<bool>)>) -> bool {
    forall|k: int| 0 <= k < v.len() ==> #[trigger] v[k].1 == Some(true)
}

/// Only the items and the listed messages differ between `a` and `b`.
pub open spec fn frame(a: InputForm, b: InputForm) -> bool {
    &&& b.rules == a.rules
    &&& b.taken == a.taken
    &&& b.adding == a.adding
    &&& b.vec_required == a.vec_required
    &&& b.max_group_rows == a.max_group_rows
}

/// The marks of group cells and what is handed to the page of tags are
/// unchanged.
pub open spec fn side_kept(a: InputForm, b: InputForm) -> bool {
    &&& b.cell_required_msg == a.cell_required_msg
    &&& b.tag_out == a.tag_out
    &&& b.tag_notices == a.tag_notices
}

/// Where the mark of a group cell goes when row `row` of the group `id`,
/// `width` cells wide and one of `len` rows, is deleted: the marks of the
/// row are dropped and those of the rows below it move up one row.
pub open spec fn mark_after_delete(m: (usize, usize, usize), id: usize, row: usize, width: nat, len: nat) -> Option<(usize, usize, usize)> {
    if m.0 == id && m.2 < width {
        if m.1 == row {
            None
        } else if row < m.1 && m.1 < len {
            Some((m.0, (m.1 - 1) as usize, m.2))
        } else {
            Some(m)
        }
    } else {
        Some(m)
    }
}

/// The marks of group cells after a row is deleted, in order.
pub open spec fn marks_after_delete(v: Seq<(usize, usize, usize)>, id: usize, row: usize, width: nat, len: nat) -> Seq<(usize, usize, usize)>
    decreases v.len(),
{
    if v.len() == 0 {
        Seq::empty()
    } else {
        let p = marks_after_delete(v.drop_last(), id, row, width, len);
        match mark_after_delete(v.last(), id, row, width, len) {
            Some(m) => p.push(m),
            None => p,
        }
    }
}

/// The select box holds first the name of the kind of value `k`.
pub open spec fn names_value_kind(sel: Option<Vec<String>>, k: ValueKind) -> bool {
    sel matches Some(v) && v@.len() > 0 && v@[0]@ == value_kind_text(k)
}

/// The select box holds first the name of the kind of comparison `k`.
pub open spec fn names_comparison_kind(sel: Option<Vec<String>>, k: ComparisonKind) -> bool {
    sel matches Some(v) && v@.len() > 0 && v@[0]@ == comparison_kind_text(k)
}

/// The comparison buffers of the form with that of `id` emptied.
pub open spec fn buffer_cleared(a: Seq<ComparisonBuffer>, b: Seq<ComparisonBuffer>, id: int) -> bool {
    &&& b.len() == a.len()
    &&& forall|k: int| 0 <= k < a.len() && k != id ==> #[trigger] b[k] == a[k]
    &&& 0 <= id < a.len() ==> (b[id].first is None && b[id].second is None)
}

/// `id` added to the list unless it is there already.
pub open spec fn set_insert(v: Seq<usize>, id: usize) -> Seq<usize> {
    if v.contains(id) {
        v
    } else {
        v.push(id)
    }
}

/// A new tag is handed on when its name is not empty.
pub open spec fn tag_new_sent(t: InputTagGroup) -> bool {
    t.new matches Some(x) && x@.len() > 0
}

/// An edit is handed on when both the key and the new name are not empty.
pub open spec fn tag_edit_sent(t: InputTagGroup) -> bool {
    t.edit matches Some(e) && e.0@.len() > 0 && e.1@.len() > 0
}

/// A deletion is handed on when its key is not empty.
pub open spec fn tag_delete_sent(t: InputTagGroup) -> bool {
    t.delete matches Some(x) && x@.len() > 0
}

/// The messages for the tag list that the tags `t` ask for, in order.
pub open spec fn tag_notices_of(t: InputTagGroup) -> Seq<TagNotice> {
    (if tag_new_sent(t) { seq![TagNotice::AddTag] } else { Seq::empty() }) + (if tag_edit_sent(t) {
        seq![TagNotice::EditTag]
    } else {
        Seq::empty()
    }) + (if tag_delete_sent(t) { seq![TagNotice::DeleteTag] } else { Seq::empty() })
}

/// A row of a group can be deleted: it is there (deleting a missing row
/// panics).
pub open spec fn message_defined(f: InputForm, msg: FormMessage) -> bool {
    match msg {
        FormMessage::InputGroupDelete(id, row, _) => (id < f.items@.len() && f.items@[id as int] is Group)
            ==> (f.items@[id as int] matches InputItem::Group(rows) && row < rows@.len()),
        _ => true,
    }
}

// ---------------------------------------------------------------------------
// small steps

fn without_id_exec(v: &Vec<usize>, id: usize) -> (r: Vec<usize>)
    ensures
        r@ == without_id(v@, id),
{
    let mut r: Vec<usize> = Vec::new();
    let mut i: usize = 0;
    while i < v.len()
        invariant
            i <= v@.len(),
            r@ == without_id(v@.take(i as int), id),
        decreases v@.len() - i,
    {
        proof {
            reveal(Seq::filter);
            assert(v@.take(i + 1).drop_last() =~= v@.take(i as int));
        }
        if v[i] != id {
            r.push(v[i]);
        }
        i = i + 1;
    }
    proof {
        assert(v@.take(v@.len() as int) =~= v@);
    }
    r
}

fn nic_msg_without_exec(v: &Vec<(usize, usize, NicCheck)>, id: usize, row: usize) -> (r: Vec<
    (usize, usize, NicCheck),
>)
    ensures
        r@ == nic_msg_without(v@, id, row),
{
    let mut r: Vec<(usize, usize, NicCheck)> = Vec::new();
    let mut i: usize = 0;
    while i < v.len()
        invariant
            i <= v@.len(),
            r@ == nic_msg_without(v@.take(i as int), id, row),
        decreases v@.len() - i,
    {
        proof {
            reveal(Seq::filter);
            assert(v@.take(i + 1).drop_last() =~= v@.take(i as int));
        }
        let e = v[i];
        if !(e.0 == id && e.1 == row) {
            r.push(e);
        }
        i = i + 1;
    }
    proof {
        assert(v@.take(v@.len() as int) =~= v@);
    }
    r
}

fn host_checks_set_exec(v: &Vec<(usize, Option<bool>)>, id: usize, ok: bool) -> (r: Vec<(usize, Option<bool>)>)
    ensures
        r@ == host_checks_set(v@, id, ok),
{
    let mut r: Vec<(usize, Option<bool>)> = Vec::new();
    let mut i: usize = 0;
    while i < v.len()
        invariant
            i <= v@.len(),
            r@ == host_checks_set(v@.take(i as int), id, true).drop_last(),
        decreases v@.len() - i,
    {
        proof {
            reveal(Seq::filter);
            assert(v@.take(i + 1).drop_last() =~= v@.take(i as int));
        }
        let e = v[i];
        if e.0 != id {
            r.push(e);
        }
        i = i + 1;
    }
    proof {
        assert(v@.take(v@.len() as int) =~= v@);
    }
    r.push((id, Some(ok)));
    r
}

fn all_hosts_right_exec(v: &Vec<(usize, Option<bool>)>) -> (b: bool)
    ensures
        b == all_hosts_right(v@),
{
    let mut i: usize = 0;
    while i < v.len()
        invariant
            i <= v@.len(),
            forall|k: int| 0 <= k < i ==> #[trigger] v@[k].1 == Some(true),
        decreases v@.len() - i,
    {
        match v[i].1 {
            Some(true) => {},
            _ => {
                return false;
            },
        }
        i = i + 1;
    }
    true
}

fn host_check_exec(v: &Vec<(usize, Option<bool>)>, id: usize) -> (r: Option<Option<bool>>)
    ensures
        r == host_check_of(v@, id),
{
    let mut r: Option<Option<bool>> = None;
    let mut i: usize = 0;
    while i < v.len()
        invariant
            i <= v@.len(),
            r == host_check_of(v@.take(i as int), id),
        decreases v@.len() - i,
    {
        proof {
            assert(v@.take(i + 1).drop_last() =~= v@.take(i as int));
        }
        if v[i].0 == id {
            r = Some(v[i].1);
        }
        i = i + 1;
    }
    proof {
        assert(v@.take(v@.len() as int) =~= v@);
    }
    r
}

fn status_at(checks: &Vec<CheckNode>, k: usize) -> (s: CheckStatus)
    ensures
        s == status_of(checks@, k as int),
{
    if k < checks.len() {
        checks[k].status
    } else {
        CheckStatus::Unchecked
    }
}

fn item_is_empty(f: &InputForm, i: usize) -> (b: bool)
    requires
        i < f.items@.len(),
        form_wf(*f),
    ensures
        b == item_empty(*f, i as int),
{
    let item = &f.items[i];
    assert(*item == f.items@[i as int]);
    match item {
        InputItem::Text(s) => {
            let b = s.as_str().is_empty();
            assert(b == (s@.len() == 0));
            b
        },
        InputItem::Password(p) => {
            let b = p.as_str().is_empty();
            f.adding && b
        },
        InputItem::Unsigned32(v) => v.is_none(),
        InputItem::Unsigned8(v) => v.is_none(),
        InputItem::Checkbox(k) => {
            let st = status_at(&f.checks, *k);
            match st {
                CheckStatus::Unchecked => true,
                _ => false,
            }
        },
        InputItem::HostNetworkGroup(g) => {
            let empty = g.hosts.len() == 0 && g.networks.len() == 0 && g.ranges.len() == 0;
            let found = host_check_exec(&f.host_checks, i);
            let pending = match found {
                Some(Some(ok)) => ok,
                Some(None) => true,
                None => false,
            };
            empty && pending
        },
        InputItem::Nic(rows) => {
            let mut j: usize = 0;
            while j < rows.len()
                invariant
                    j <= rows@.len(),
                    f.items@[i as int] == InputItem::Nic(*rows),
                    forall|q: int| 0 <= q < j ==> !nic_filled(#[trigger] rows@[q]),
                decreases rows@.len() - j,
            {
                let n = &rows[j];
                if !n.name.as_str().is_empty() || !n.interface.as_str().is_empty()
                    || !n.gateway.as_str().is_empty() {
                    assert(nic_filled(rows@[j as int]));
                    assert(f.items@[i as int] matches InputItem::Nic(r) && r@[j as int] == rows@[j as int]);
                    assert(!item_empty(*f, i as int));
                    return false;
                }
                j = j + 1;
            }
            true
        },
        InputItem::SelectSingle(v) => v.is_none(),
        InputItem::SelectMultiple(v) => v.len() == 0,
        InputItem::Radio(s) => s.as_str().is_empty(),
        InputItem::VecSelect(v) => vec_select_missing(v, &f.vec_required[i]),
        InputItem::Tag(t) => t.is_empty(),
        InputItem::Group(rows) => rows.len() == 0,
        InputItem::Comparison(c) => c.is_none(),
    }
}

/// The fields of the form as the check of required fields sees them.
pub fn form_fields(f: &InputForm) -> (r: Vec<FormField>)
    requires
        form_wf(*f),
    ensures
        r@ == fields_of(*f),
{
    let mut r: Vec<FormField> = Vec::new();
    let mut i: usize = 0;
    while i < f.items.len()
        invariant
            form_wf(*f),
            i <= f.items@.len(),
            r@ == fields_of(*f).take(i as int),
        decreases f.items@.len() - i,
    {
        let checkbox = match &f.items[i] {
            InputItem::Checkbox(k) => Some(status_at(&f.checks, *k)),
            _ => None,
        };
        let rule = f.rules[i];
        let field = FormField {
            required: rule.required,
            empty: item_is_empty(f, i),
            checkbox,
            parent: rule.parent,
        };
        r.push(field);
        proof {
            assert(fields_of(*f).take(i + 1) =~= fields_of(*f).take(i as int).push(field_at(*f, i as int)));
        }
        i = i + 1;
    }
    proof {
        assert(fields_of(*f).take(f.items@.len() as int) =~= fields_of(*f));
    }
    r
}

fn is_asked(fields: &Vec<FormField>, i: usize) -> (b: bool)
    requires
        i < fields@.len(),
    ensures
        b == asked_for(fields@, i as int),
{
    match fields[i].parent {
        Some(p) => p < fields.len() && match fields[p].checkbox {
            Some(CheckStatus::Checked) => true,
            _ => false,
        },
        None => true,
    }
}

fn holds_string(v: &Vec<String>, s: &String) -> (b: bool)
    ensures
        b == v@.map_values(|t: String| t@).contains(s@),
{
    let mut j: usize = 0;
    while j < v.len()
        invariant
            j <= v@.len(),
            forall|q: int| 0 <= q < j ==> v@[q]@ != s@,
        decreases v@.len() - j,
    {
        if v[j] == *s {
            assert(v@.map_values(|t: String| t@)[j as int] == s@);
            return true;
        }
        j = j + 1;
    }
    proof {
        let m = v@.map_values(|t: String| t@);
        if m.contains(s@) {
            let q = choose|q: int| 0 <= q < m.len() && #[trigger] m[q] == s@;
            assert(v@[q]@ == s@);
        }
    }
    false
}

/// The fields whose text must be unique and is held by another entry.
pub fn not_unique_fields(f: &InputForm) -> (r: Vec<usize>)
    requires
        form_wf(*f),
    ensures
        r@ == not_unique_upto(*f, f.items@.len() as int),
{
    let mut r: Vec<usize> = Vec::new();
    let mut i: usize = 0;
    while i < f.items.len()
        invariant
            form_wf(*f),
            i <= f.items@.len(),
            r@ == not_unique_upto(*f, i as int),
        decreases f.items@.len() - i,
    {
        let bad = match &f.items[i] {
            InputItem::Text(s) => f.rules[i].unique && holds_string(&f.taken[i], s),
            _ => false,
        };
        if bad {
            r.push(i);
        }
        i = i + 1;
    }
    r
}

/// The fields holding a wrong number or password, with the reason.
pub fn item_problems(f: &InputForm, fields: &Vec<FormField>) -> (r: Vec<(usize, InvalidMessage)>)
    requires
        form_wf(*f),
        fields@ == fields_of(*f),
    ensures
        r@ == problems_upto(*f, f.items@.len() as int),
{
    let mut r: Vec<(usize, InvalidMessage)> = Vec::new();
    let mut i: usize = 0;
    while i < f.items.len()
        invariant
            form_wf(*f),
            fields@ == fields_of(*f),
            i <= f.items@.len(),
            r@ == problems_upto(*f, i as int),
        decreases f.items@.len() - i,
    {
        let problem: Option<InvalidMessage> = if !is_asked(fields, i) {
            None
        } else {
            match &f.items[i] {
                InputItem::Unsigned32(Some(v)) => {
                    let rule = f.rules[i];
                    if rule.low <= *v && *v <= rule.high {
                        None
                    } else {
                        Some(InvalidMessage::InvalidInput)
                    }
                },
                InputItem::Password(p) => match &f.confirmations[i] {
                    Some(c) => match verify_password(p.as_str(), c.as_str()) {
                        Verification::Invalid(m) => Some(m),
                        Verification::Valid => None,
                    },
                    None => None,
                },
                _ => None,
            }
        };
        assert(problem == item_problem(*f, i as int));
        match problem {
            Some(m) => {
                r.push((i, m));
            },
            None => {},
        }
        i = i + 1;
    }
    r
}

fn rows_problems(i: usize, rows: &Vec<InputNic>, out: &mut Vec<(usize, usize, NicCheck)>)
    ensures
        final(out)@ == old(out)@ + row_problems(i, rows@, rows@.len() as int),
{
    let ghost start = out@;
    let mut j: usize = 0;
    while j < rows.len()
        invariant
            j <= rows@.len(),
            out@ == start + row_problems(i, rows@, j as int),
        decreases rows@.len() - j,
    {
        let c = verify_nic(&rows[j]);
        if !(c.name.is_none() && c.interface.is_none() && c.gateway.is_none()) {
            out.push((i, j, c));
            proof {
                assert(start + row_problems(i, rows@, j + 1) =~= (start + row_problems(i, rows@, j as int)).push((i, j, c)));
            }
        }
        j = j + 1;
    }
}

/// The wrong network interfaces of the fields asked for, in order.
pub fn nic_problems(f: &InputForm, fields: &Vec<FormField>) -> (r: Vec<(usize, usize, NicCheck)>)
    requires
        form_wf(*f),
        fields@ == fields_of(*f),
    ensures
        r@ == nic_problems_upto(*f, f.items@.len() as int),
{
    let mut r: Vec<(usize, usize, NicCheck)> = Vec::new();
    let mut i: usize = 0;
    while i < f.items.len()
        invariant
            form_wf(*f),
            fields@ == fields_of(*f),
            i <= f.items@.len(),
            r@ == nic_problems_upto(*f, i as int),
        decreases f.items@.len() - i,
    {
        let ghost before = r@;
        match &f.items[i] {
            InputItem::Nic(rows) => {
                if is_asked(fields, i) {
                    rows_problems(i, rows, &mut r);
                } else {
                    assert(r@ =~= before + Seq::<(usize, usize, NicCheck)>::empty());
                }
            },
            _ => {
                assert(r@ =~= before + Seq::<(usize, usize, NicCheck)>::empty());
            },
        }
        i = i + 1;
    }
    r
}

fn trim_items(items: &mut Vec<InputItem>)
    ensures
        items_trimmed(old(items)@, final(items)@),
{
    let ghost start = items@;
    let mut i: usize = 0;
    while i < items.len()
        invariant
            i <= items@.len(),
            items@.len() == start.len(),
            forall|k: int|
                0 <= k < start.len() ==> match #[trigger] start[k] {
                    InputItem::Nic(rows) => if k < i {
                        items@[k] matches InputItem::Nic(t) && t@ == rows@.filter(
                            |n: InputNic| nic_complete(n),
                        )
                    } else {
                        items@[k] == start[k]
                    },
                    _ => items@[k] == start[k],
                },
        decreases items@.len() - i,
    {
        let trimmed: Option<Vec<InputNic>> = match &items[i] {
            InputItem::Nic(rows) => Some(trim_nics(rows)),
            _ => None,
        };
        match trimmed {
            Some(t) => {
                let ghost before = items@;
                let _ = items.remove(i);
                items.insert(i, InputItem::Nic(t));
                proof {
                    assert(items@ =~= before.update(i as int, InputItem::Nic(t)));
                }
            },
            None => {},
        }
        i = i + 1;
    }
}

fn push_all(v: &mut Vec<usize>, w: &Vec<usize>)
    ensures
        final(v)@ == old(v)@ + w@,
{
    let ghost start = v@;
    let mut i: usize = 0;
    while i < w.len()
        invariant
            i <= w@.len(),
            v@ == start + w@.take(i as int),
        decreases w@.len() - i,
    {
        v.push(w[i]);
        proof {
            assert(start + w@.take(i + 1) =~= (start + w@.take(i as int)).push(w@[i as int]));
        }
        i = i + 1;
    }
    proof {
        assert(w@.take(w@.len() as int) =~= w@);
    }
}

fn host_checks_reset_exec(f: &InputForm, fields: &Vec<FormField>) -> (r: Vec<(usize, Option<bool>)>)
    requires
        form_wf(*f),
        fields@ == fields_of(*f),
    ensures
        r@ == host_checks_reset(*f, f.items@.len() as int),
{
    let mut r: Vec<(usize, Option<bool>)> = Vec::new();
    let mut i: usize = 0;
    while i < f.items.len()
        invariant
            form_wf(*f),
            fields@ == fields_of(*f),
            i <= f.items@.len(),
            r@ == host_checks_reset(*f, i as int),
        decreases f.items@.len() - i,
    {
        let host = match &f.items[i] {
            InputItem::HostNetworkGroup(_) => true,
            _ => false,
        };
        if host && is_asked(fields, i) {
            r.push((i, None));
        }
        i = i + 1;
    }
    r
}

/// Replaces the item at `id`.
fn set_item(items: &mut Vec<InputItem>, id: usize, item: InputItem)
    requires
        id < old(items)@.len(),
    ensures
        final(items)@ == old(items)@.update(id as int, item),
{
    let ghost before = items@;
    let _ = items.remove(id);
    items.insert(id, item);
    assert(items@ =~= before.update(id as int, item));
}

/// Which part of a network interface is typed into.
pub open spec fn nic_edited(n: InputNic, part: int, text: String) -> InputNic {
    if part == 0 {
        InputNic { name: text, interface: n.interface, gateway: n.gateway }
    } else if part == 1 {
        InputNic { name: n.name, interface: text, gateway: n.gateway }
    } else {
        InputNic { name: n.name, interface: n.interface, gateway: text }
    }
}

/// The rows of a network field after typing into part `part` of row `row`
/// (nothing changes for a row that is not there).
pub open spec fn rows_edited(rows: Seq<InputNic>, row: int, part: int, text: String) -> Seq<InputNic> {
    if 0 <= row < rows.len() {
        rows.update(row, nic_edited(rows[row], part, text))
    } else {
        rows
    }
}

/// A row with nothing typed in.
pub open spec fn nic_blank(n: InputNic) -> bool {
    n.name@.len() == 0 && n.interface@.len() == 0 && n.gateway@.len() == 0
}

/// The rows of a network field after deleting row `row` (nothing is deleted
/// for a row that is not there): an emptied list keeps one empty row.
pub open spec fn rows_deleted(rows: Seq<InputNic>, row: int, new_rows: Seq<InputNic>) -> bool {
    let rest = if 0 <= row < rows.len() {
        rows.remove(row)
    } else {
        rows
    };
    if rest.len() == 0 {
        new_rows.len() == 1 && nic_blank(new_rows[0])
    } else {
        new_rows == rest
    }
}

/// `s` lists the missing fields of `fields`, each once, in order (as
/// `missing_fields` gives them).
pub open spec fn missing_list(fields: Seq<FormField>, s: Seq<usize>) -> bool {
    &&& forall|k: int| 0 <= k < s.len() ==> s[k] < fields.len() && missing(fields, s[k] as int)
    &&& forall|i: int| 0 <= i < fields.len() && missing(fields, i) ==> s.contains(i as usize)
    &&& forall|a: int, b: int| 0 <= a < b < s.len() ==> s[a] < s[b]
}

/// `v` is `old` followed by the missing fields of `fields`.
pub open spec fn required_added(old: Seq<usize>, fields: Seq<FormField>, v: Seq<usize>) -> bool {
    &&& v.len() >= old.len()
    &&& v.take(old.len() as int) == old
    &&& missing_list(fields, v.skip(old.len() as int))
}

/// `h` is the group `g` with its hosts and networks sorted and without
/// duplicates (see `sort_hosts` and `sort_networks`); its ranges as given.
pub open spec fn group_sorted(g: InputHostNetworkGroup, h: InputHostNetworkGroup) -> bool {
    &&& sorted_by(string_views(h.hosts@), |s: Seq<char>| host_key(s))
    &&& no_repeats(string_views(h.hosts@))
    &&& same_members(string_views(h.hosts@), string_views(g.hosts@))
    &&& sorted_by(string_views(h.networks@), |s: Seq<char>| network_key(s))
    &&& no_repeats(string_views(h.networks@))
    &&& same_members(string_views(h.networks@), string_views(g.networks@))
    &&& h.ranges == g.ranges
}

/// Only the item at `id` may differ.
pub open spec fn others_kept(a: Seq<InputItem>, b: Seq<InputItem>, id: int) -> bool {
    &&& b.len() == a.len()
    &&& forall|k: int| 0 <= k < a.len() && k != id ==> #[trigger] b[k] == a[k]
}

/// The entered values and the boxes are unchanged.
pub open spec fn same_values(a: InputForm, b: InputForm) -> bool {
    b.items == a.items && b.confirmations == a.confirmations && b.checks == a.checks
}

/// Every message and the waiting for host checks are unchanged.
pub open spec fn same_messages(a: InputForm, b: InputForm) -> bool {
    &&& b.required_msg == a.required_msg
    &&& b.unique_msg == a.unique_msg
    &&& b.verify_msg == a.verify_msg
    &&& b.nic_msg == a.nic_msg
    &&& b.host_checks == a.host_checks
    &&& b.verifying_host_networks == a.verifying_host_networks
}

/// Drawn again, asking nothing.
pub open spec fn redraw() -> FormAction {
    FormAction { render: true, request: None }
}

/// The result of typing `text` into part `part` of row `row` of the network
/// field `id`.
pub open spec fn nic_typed(a: InputForm, b: InputForm, id: usize, row: usize, part: int, text: String) -> bool {
    &&& others_kept(a.items@, b.items@, id as int)
    &&& id < a.items@.len() ==> (a.items@[id as int] matches InputItem::Nic(rows) ==> (
    b.items@[id as int] matches InputItem::Nic(r) && r@ == rows_edited(rows@, row as int, part, text)))
    &&& !(id < a.items@.len() && a.items@[id as int] is Nic) ==> b.items == a.items
    &&& b.confirmations == a.confirmations && b.checks == a.checks
    &&& b.required_msg@ == required_after(a.required_msg@, id, text@.len() == 0)
    &&& b.nic_msg@ == nic_msg_without(a.nic_msg@, id, row)
    &&& b.unique_msg == a.unique_msg && b.verify_msg == a.verify_msg
    &&& b.host_checks == a.host_checks && b.verifying_host_networks == a.verifying_host_networks
}

/// The id a select box takes from what is chosen: the first one, if any.
pub open spec fn single_chosen(buf: Option<Vec<String>>) -> Option<String> {
    match buf {
        Some(v) => if v@.len() > 0 {
            Some(v@[0])
        } else {
            None
        },
        None => None,
    }
}

/// Nothing is chosen (a list that is not opened counts as not empty).
pub open spec fn buffer_empty(buf: Option<Vec<String>>) -> bool {
    match buf {
        Some(v) => v@.len() == 0,
        None => false,
    }
}

/// What the form does with a message: `b` is the form after `msg` arrives
/// at `a`, and `act` what it then does.
pub open spec fn form_step(a: InputForm, msg: FormMessage, b: InputForm, act: FormAction) -> bool {
    let n = a.items@.len() as int;
    &&& frame(a, b)
    &&& !(msg is InputTagGroup || msg is InputGroupDelete) ==> side_kept(a, b)
    &&& !(msg is InputComparisonValueKind || msg is InputComparisonKind || msg is InputComparisonValue)
        ==> b.comparison_buffers == a.comparison_buffers
    &&& match msg {
        FormMessage::Escape => same_values(a, b) && same_messages(a, b) && act == FormAction {
            render: true,
            request: Some(FormRequest::Escape),
        },
        FormMessage::TrySave => {
            &&& same_values(a, b)
            &&& b.host_checks@ == host_checks_reset(a, n)
            &&& b.verifying_host_networks == (b.host_checks@.len() > 0)
            &&& b.required_msg == a.required_msg && b.unique_msg == a.unique_msg
            &&& b.verify_msg == a.verify_msg && b.nic_msg == a.nic_msg
            &&& act == if b.verifying_host_networks {
                redraw()
            } else {
                FormAction { render: false, request: Some(FormRequest::Save) }
            }
        },
        FormMessage::Save => {
            let added = b.required_msg@.skip(a.required_msg@.len() as int);
            let ok = added.len() == 0 && not_unique_upto(a, n).len() == 0 && problems_upto(a, n).len()
                == 0 && nic_problems_upto(a, n).len() == 0;
            &&& required_added(a.required_msg@, fields_of(a), b.required_msg@)
            &&& b.unique_msg@ == a.unique_msg@ + not_unique_upto(a, n)
            &&& b.verify_msg@ == problems_upto(a, n)
            &&& b.nic_msg@ == nic_problems_upto(a, n)
            &&& b.confirmations == a.confirmations && b.checks == a.checks
            &&& b.host_checks == a.host_checks
            &&& b.verifying_host_networks == a.verifying_host_networks
            &&& if ok {
                items_trimmed(a.items@, b.items@) && act == FormAction {
                    render: true,
                    request: Some(FormRequest::Submit),
                }
            } else {
                b.items == a.items && act == redraw()
            }
        },
        FormMessage::InputText(id, t) => {
            &&& if id < n {
                b.items@ == a.items@.update(id as int, InputItem::Text(t))
            } else {
                b.items == a.items
            }
            &&& b.required_msg@ == required_after(a.required_msg@, id, t@.len() == 0)
            &&& b.unique_msg@ == without_id(a.unique_msg@, id)
            &&& b.confirmations == a.confirmations && b.checks == a.checks
            &&& b.verify_msg == a.verify_msg && b.nic_msg == a.nic_msg
            &&& b.host_checks == a.host_checks && b.verifying_host_networks == a.verifying_host_networks
            &&& act == redraw()
        },
        FormMessage::InputPassword(id, t) => {
            &&& if id < n {
                b.items@ == a.items@.update(id as int, InputItem::Password(t))
            } else {
                b.items == a.items
            }
            &&& b.required_msg@ == required_after(a.required_msg@, id, t@.len() == 0)
            &&& b.unique_msg == a.unique_msg
            &&& b.confirmations == a.confirmations && b.checks == a.checks
            &&& b.verify_msg == a.verify_msg && b.nic_msg == a.nic_msg
            &&& b.host_checks == a.host_checks && b.verifying_host_networks == a.verifying_host_networks
            &&& act == redraw()
        },
        FormMessage::InputConfirmPassword(id, t) => {
            &&& b.items == a.items && b.checks == a.checks
            &&& if id < n {
                b.confirmations@ == a.confirmations@.update(id as int, Some(t))
            } else {
                b.confirmations == a.confirmations
            }
            &&& b.required_msg@ == required_after(a.required_msg@, id, t@.len() == 0)
            &&& b.unique_msg == a.unique_msg
            &&& b.verify_msg == a.verify_msg && b.nic_msg == a.nic_msg
            &&& b.host_checks == a.host_checks && b.verifying_host_networks == a.verifying_host_networks
            &&& act == redraw()
        },
        FormMessage::InputUnsigned32(id, v) => {
            &&& if id < n {
                b.items@ == a.items@.update(id as int, InputItem::Unsigned32(v))
            } else {
                b.items == a.items
            }
            &&& b.required_msg@ == without_id(a.required_msg@, id)
            &&& b.unique_msg@ == without_id(a.unique_msg@, id)
            &&& b.confirmations == a.confirmations && b.checks == a.checks
            &&& b.verify_msg == a.verify_msg && b.nic_msg == a.nic_msg
            &&& b.host_checks == a.host_checks && b.verifying_host_networks == a.verifying_host_networks
            &&& act == redraw()
        },
        FormMessage::InputUnsigned8(id, v) => {
            &&& if id < n {
                b.items@ == a.items@.update(id as int, InputItem::Unsigned8(v))
            } else {
                b.items == a.items
            }
            &&& b.required_msg@ == without_id(a.required_msg@, id)
            &&& b.unique_msg@ == without_id(a.unique_msg@, id)
            &&& b.confirmations == a.confirmations && b.checks == a.checks
            &&& b.verify_msg == a.verify_msg && b.nic_msg == a.nic_msg
            &&& b.host_checks == a.host_checks && b.verifying_host_networks == a.verifying_host_networks
            &&& act == redraw()
        },
        FormMessage::InvalidInput => same_values(a, b) && same_messages(a, b) && act == FormAction {
            render: false,
            request: None,
        },
        FormMessage::InputHostNetworkGroup(id, g) => {
            &&& others_kept(a.items@, b.items@, id as int)
            &&& id < n ==> (b.items@[id as int] matches InputItem::HostNetworkGroup(h) && group_sorted(g, h))
            &&& id >= n ==> b.items == a.items
            &&& b.required_msg@ == required_after(a.required_msg@, id, group_empty(g))
            &&& b.unique_msg == a.unique_msg
            &&& b.confirmations == a.confirmations && b.checks == a.checks
            &&& b.verify_msg == a.verify_msg && b.nic_msg == a.nic_msg
            &&& b.host_checks == a.host_checks && b.verifying_host_networks == a.verifying_host_networks
            &&& act == redraw()
        },
        FormMessage::WrongHostNetworkGroup(id) => {
            &&& same_values(a, b)
            &&& b.host_checks@ == host_checks_set(a.host_checks@, id, false)
            &&& required_added(without_id(a.required_msg@, id), fields_of(b), b.required_msg@)
            &&& b.unique_msg@ == a.unique_msg@ + not_unique_upto(a, n)
            &&& b.verify_msg == a.verify_msg && b.nic_msg == a.nic_msg
            &&& b.verifying_host_networks == a.verifying_host_networks
            &&& act == redraw()
        },
        FormMessage::RightHostNetworkGroup(id, g) => {
            &&& others_kept(a.items@, b.items@, id as int)
            &&& id < n ==> (b.items@[id as int] matches InputItem::HostNetworkGroup(h) && group_sorted(g, h))
            &&& id >= n ==> b.items == a.items
            &&& b.host_checks@ == host_checks_set(a.host_checks@, id, true)
            &&& b.required_msg@ == required_after(a.required_msg@, id, group_empty(g))
            &&& b.unique_msg == a.unique_msg
            &&& b.confirmations == a.confirmations && b.checks == a.checks
            &&& b.verify_msg == a.verify_msg && b.nic_msg == a.nic_msg
            &&& if all_hosts_right(b.host_checks@) {
                !b.verifying_host_networks && act == FormAction {
                    render: true,
                    request: Some(FormRequest::Save),
                }
            } else {
                b.verifying_host_networks == a.verifying_host_networks && act == redraw()
            }
        },
        FormMessage::ClickCheckbox(k) => {
            &&& b.items == a.items && b.confirmations == a.confirmations
            &&& same_messages(a, b)
            &&& b.checks@.len() == a.checks@.len()
            &&& forall|i: int|
                0 <= i < a.checks@.len() ==> {
                    &&& #[trigger] b.checks@[i].parent == a.checks@[i].parent
                    &&& b.checks@[i].always == a.checks@[i].always
                    &&& b.checks@[i].preset == a.checks@[i].preset
                    &&& b.checks@[i].status == if k < a.checks@.len() {
                        final_status(a.checks@, k as int, i)
                    } else {
                        a.checks@[i].status
                    }
                }
            &&& act == redraw()
        },
        FormMessage::InputNicName(id, row, t) => nic_typed(a, b, id, row, 0, t) && act == redraw(),
        FormMessage::InputNicInterface(id, row, t) => nic_typed(a, b, id, row, 1, t) && act == redraw(),
        FormMessage::InputNicGateway(id, row, t) => nic_typed(a, b, id, row, 2, t) && act == redraw(),
        FormMessage::InputNicAdd(id, row) => {
            &&& others_kept(a.items@, b.items@, id as int)
            &&& id < n ==> (a.items@[id as int] matches InputItem::Nic(rows) ==> (
            b.items@[id as int] matches InputItem::Nic(r) && r@.len() == rows@.len() + 1
                && r@.take(rows@.len() as int) == rows@ && nic_blank(r@.last())))
            &&& !(id < n && a.items@[id as int] is Nic) ==> b.items == a.items
            &&& b.confirmations == a.confirmations && b.checks == a.checks
            &&& b.nic_msg@ == nic_msg_without(a.nic_msg@, id, row)
            &&& b.required_msg == a.required_msg && b.unique_msg == a.unique_msg
            &&& b.verify_msg == a.verify_msg
            &&& b.host_checks == a.host_checks && b.verifying_host_networks == a.verifying_host_networks
            &&& act == redraw()
        },
        FormMessage::InputSingleSelect(id, buf) => {
            &&& if id < n {
                b.items@ == a.items@.update(id as int, InputItem::SelectSingle(single_chosen(buf)))
            } else {
                b.items == a.items
            }
            &&& b.required_msg@ == required_after(a.required_msg@, id, buffer_empty(buf))
            &&& b.unique_msg == a.unique_msg
            &&& b.confirmations == a.confirmations && b.checks == a.checks
            &&& b.verify_msg == a.verify_msg && b.nic_msg == a.nic_msg
            &&& b.host_checks == a.host_checks && b.verifying_host_networks == a.verifying_host_networks
            &&& act == redraw()
        },
        FormMessage::InputMultipleSelect(id, buf, list) => {
            &&& others_kept(a.items@, b.items@, id as int)
            &&& id < n ==> (b.items@[id as int] matches InputItem::SelectMultiple(v) && v == match buf {
                Some(c) => c,
                None => list,
            })
            &&& id >= n ==> b.items == a.items
            &&& b.required_msg@ == required_after(a.required_msg@, id, buffer_empty(buf))
            &&& b.unique_msg == a.unique_msg
            &&& b.confirmations == a.confirmations && b.checks == a.checks
            &&& b.verify_msg == a.verify_msg && b.nic_msg == a.nic_msg
            &&& b.host_checks == a.host_checks && b.verifying_host_networks == a.verifying_host_networks
            &&& act == redraw()
        },
        FormMessage::InputRadio(id, sel) => {
            &&& if id < n && a.items@[id as int] is Radio {
                b.items@ == a.items@.update(id as int, InputItem::Radio(sel))
            } else {
                b.items == a.items
            }
            &&& b.required_msg@ == required_after(a.required_msg@, id, sel@.len() == 0)
            &&& b.unique_msg == a.unique_msg
            &&& b.confirmations == a.confirmations && b.checks == a.checks
            &&& b.verify_msg == a.verify_msg && b.nic_msg == a.nic_msg
            &&& b.host_checks == a.host_checks && b.verifying_host_networks == a.verifying_host_networks
            &&& act == redraw()
        },
        FormMessage::InputVecSelect(id, col, buf) => {
            &&& others_kept(a.items@, b.items@, id as int)
            &&& b.unique_msg == a.unique_msg
            &&& b.confirmations == a.confirmations && b.checks == a.checks
            &&& b.verify_msg == a.verify_msg && b.nic_msg == a.nic_msg
            &&& b.host_checks == a.host_checks && b.verifying_host_networks == a.verifying_host_networks
            &&& act == redraw()
            &&& if buf is Some && id < n && (a.items@[id as int] matches InputItem::VecSelect(v) && col
                < v@.len()) {
                &&& a.items@[id as int] matches InputItem::VecSelect(v) && b.items@[id as int] matches InputItem::VecSelect(w)
                    && w@ == v@.update(col as int, buf->0)
                &&& b.required_msg@ == required_after(a.required_msg@, id, buf->0@.len() == 0)
            } else {
                b.items == a.items && b.required_msg == a.required_msg
            }
        },
        FormMessage::InputTagGroup(id, t) => {
            &&& if id < n {
                b.items@ == a.items@.update(id as int, InputItem::Tag(t))
            } else {
                b.items == a.items
            }
            &&& b.required_msg@ == required_after(a.required_msg@, id, t.old@.len() == 0)
            &&& b.tag_out.old == a.tag_out.old
            &&& b.tag_out.new == if tag_new_sent(t) { t.new } else { a.tag_out.new }
            &&& b.tag_out.edit == if tag_edit_sent(t) { t.edit } else { a.tag_out.edit }
            &&& b.tag_out.delete == if tag_delete_sent(t) { t.delete } else { a.tag_out.delete }
            &&& b.tag_notices@ == tag_notices_of(t)
            &&& b.cell_required_msg == a.cell_required_msg
            &&& b.unique_msg == a.unique_msg
            &&& b.confirmations == a.confirmations && b.checks == a.checks
            &&& b.verify_msg == a.verify_msg && b.nic_msg == a.nic_msg
            &&& b.host_checks == a.host_checks && b.verifying_host_networks == a.verifying_host_networks
            &&& act == FormAction { render: false, request: None }
        },
        FormMessage::InputGroupAdd(id, row) => {
            &&& others_kept(a.items@, b.items@, id as int)
            &&& same_messages(a, b)
            &&& b.confirmations == a.confirmations && b.checks == a.checks
            &&& if id < n && a.items@[id as int] is Group {
                &&& a.items@[id as int] matches InputItem::Group(rows)
                &&& if rows@.len() == a.max_group_rows {
                    b.items == a.items && act == FormAction { render: false, request: None }
                } else {
                    b.items@[id as int] matches InputItem::Group(r) && r@ == rows@.push(row) && act
                        == redraw()
                }
            } else {
                b.items == a.items && act == redraw()
            }
        },
        FormMessage::InputGroupDelete(id, row, required) => {
            &&& others_kept(a.items@, b.items@, id as int)
            &&& b.unique_msg == a.unique_msg
            &&& b.verify_msg == a.verify_msg && b.nic_msg == a.nic_msg
            &&& b.host_checks == a.host_checks && b.verifying_host_networks == a.verifying_host_networks
            &&& b.confirmations == a.confirmations && b.checks == a.checks
            &&& b.tag_out == a.tag_out && b.tag_notices == a.tag_notices
            &&& if id < n && a.items@[id as int] is Group {
                &&& a.items@[id as int] matches InputItem::Group(rows)
                &&& b.items@[id as int] matches InputItem::Group(r)
                &&& r@ == rows@.remove(row as int)
                &&& b.cell_required_msg@ == marks_after_delete(
                    a.cell_required_msg@,
                    id,
                    row,
                    rows@[row as int]@.len(),
                    rows@.len(),
                )
                &&& b.required_msg@ == if required && rows_inside_empty(rows@.remove(row as int)) {
                    set_insert(a.required_msg@, id)
                } else {
                    a.required_msg@
                }
                &&& act == if rows@.len() == 1 {
                    FormAction { render: true, request: Some(FormRequest::AddGroupRow(id)) }
                } else {
                    redraw()
                }
            } else {
                &&& b.items == a.items
                &&& b.required_msg == a.required_msg && b.cell_required_msg == a.cell_required_msg
                &&& act == redraw()
            }
        },
        FormMessage::InputComparisonValueKind(id) => {
            &&& if id < n {
                b.items@ == a.items@.update(id as int, InputItem::Comparison(None))
            } else {
                b.items == a.items
            }
            &&& buffer_cleared(a.comparison_buffers@, b.comparison_buffers@, id as int)
            &&& same_messages(a, b)
            &&& b.confirmations == a.confirmations && b.checks == a.checks
            &&& act == redraw()
        },
        FormMessage::InputComparisonKind(id, vs, cs) => {
            &&& same_messages(a, b)
            &&& b.confirmations == a.confirmations && b.checks == a.checks
            &&& act == redraw()
            &&& if forall|k: ValueKind| !#[trigger] names_value_kind(vs, k) {
                b.items == a.items && b.comparison_buffers == a.comparison_buffers
            } else {
                &&& buffer_cleared(a.comparison_buffers@, b.comparison_buffers@, id as int)
                &&& others_kept(a.items@, b.items@, id as int)
                &&& id >= n ==> b.items == a.items
                &&& id < n ==> (b.items@[id as int] matches InputItem::Comparison(opt) && if forall|
                    c: ComparisonKind,
                | !#[trigger] names_comparison_kind(cs, c) {
                    opt is None
                } else {
                    opt matches Some(cm) && names_comparison_kind(cs, cm.kind()) && names_value_kind(
                        vs,
                        cm.first_value().kind(),
                    ) && cm.second_value() == (if cm.kind().is_range() {
                        Some(cm.first_value())
                    } else {
                        None
                    })
                })
            }
        },
        FormMessage::InputComparisonValue(id, index, value, cs) => {
            &&& b.unique_msg == a.unique_msg
            &&& b.confirmations == a.confirmations && b.checks == a.checks
            &&& b.verify_msg == a.verify_msg && b.nic_msg == a.nic_msg
            &&& b.host_checks == a.host_checks && b.verifying_host_networks == a.verifying_host_networks
            &&& act == redraw()
            &&& if forall|c: ComparisonKind| !#[trigger] names_comparison_kind(cs, c) {
                b.items == a.items && b.comparison_buffers == a.comparison_buffers && b.required_msg
                    == a.required_msg
            } else if id < n {
                let buf = b.comparison_buffers@[id as int];
                let complete = buf.first is Some && (buf.second is Some || !(exists|c: ComparisonKind|
                    #[trigger] names_comparison_kind(cs, c) && c.is_range()));
                &&& b.comparison_buffers@.len() == a.comparison_buffers@.len()
                &&& forall|k: int|
                    0 <= k < n && k != id ==> #[trigger] b.comparison_buffers@[k]
                        == a.comparison_buffers@[k]
                &&& buf.first == if index == 0 {
                    Some(value)
                } else {
                    a.comparison_buffers@[id as int].first
                }
                &&& buf.second == if index == 0 {
                    a.comparison_buffers@[id as int].second
                } else {
                    Some(value)
                }
                &&& if complete && a.items@[id as int] is Comparison {
                    &&& others_kept(a.items@, b.items@, id as int)
                    &&& b.items@[id as int] matches InputItem::Comparison(Some(cm))
                    &&& names_comparison_kind(cs, cm.kind())
                    &&& Some(cm.first_value()) == buf.first
                    &&& cm.second_value() == if cm.kind().is_range() {
                        buf.second
                    } else {
                        None
                    }
                    &&& b.required_msg@ == without_id(a.required_msg@, id)
                } else {
                    b.items == a.items && b.required_msg == a.required_msg
                }
            } else {
                b.items == a.items && b.comparison_buffers == a.comparison_buffers && b.required_msg
                    == a.required_msg
            }
        },
        FormMessage::InputNicDelete(id, row) => {
            &&& others_kept(a.items@, b.items@, id as int)
            &&& id < n ==> (a.items@[id as int] matches InputItem::Nic(rows) ==> (
            b.items@[id as int] matches InputItem::Nic(r) && rows_deleted(rows@, row as int, r@)))
            &&& !(id < n && a.items@[id as int] is Nic) ==> b.items == a.items
            &&& b.confirmations == a.confirmations && b.checks == a.checks
            &&& b.nic_msg@ == nic_msg_without(a.nic_msg@, id, row)
            &&& b.required_msg == a.required_msg && b.unique_msg == a.unique_msg
            &&& b.verify_msg == a.verify_msg
            &&& b.host_checks == a.host_checks && b.verifying_host_networks == a.verifying_host_networks
            &&& act == redraw()
        },
    }
}

/// A value that holds nothing: an empty text or password (a password only
/// when a new entry is added), a number not entered, nothing chosen, no
/// tags, no comparison, a group without rows, network interfaces all left
/// empty, or an unchecked box.
pub open spec fn holds_nothing(f: InputForm, i: int) -> bool {
    match f.items@[i] {
        InputItem::Text(s) => s@.len() == 0,
        InputItem::Password(p) => f.adding && p@.len() == 0,
        InputItem::Unsigned32(v) => v is None,
        InputItem::Unsigned8(v) => v is None,
        InputItem::SelectSingle(v) => v is None,
        InputItem::SelectMultiple(v) => v@.len() == 0,
        InputItem::Radio(s) => s@.len() == 0,
        InputItem::VecSelect(v) => v@.len() == 0,
        InputItem::Tag(t) => t.old@.len() == 0 && t.new is None && t.edit is None && t.delete is None,
        InputItem::Comparison(c) => c is None,
        InputItem::Group(rows) => rows@.len() == 0,
        InputItem::Nic(rows) => forall|j: int|
            0 <= j < rows@.len() ==> (#[trigger] rows@[j]).name@.len() == 0 && rows@[j].interface@.len()
                == 0 && rows@[j].gateway@.len() == 0,
        InputItem::Checkbox(k) => k >= f.checks@.len() || f.checks@[k as int].status
            == CheckStatus::Unchecked,
        InputItem::HostNetworkGroup(_) => false,
    }
}

/// Saving a form with a required field at its top level that holds nothing
/// marks that field as missing and does not submit the form.
pub proof fn law_empty_required_field_blocks_saving(a: InputForm, b: InputForm, act: FormAction, i: int)
    requires
        form_wf(a),
        form_step(a, FormMessage::Save, b, act),
        0 <= i < a.items@.len(),
        a.rules@[i].required,
        a.rules@[i].parent is None,
        holds_nothing(a, i),
    ensures
        b.required_msg@.contains(i as usize),
        act.request != Some(FormRequest::Submit),
{
    let f = fields_of(a);
    assert(f[i] == field_at(a, i));
    if a.items@[i] is VecSelect {
        let v = a.items@[i]->VecSelect_0;
        assert(v@.map_values(|w: Vec<String>| w@.map_values(|t: String| t@)).len() == 0);
    }
    assert(item_empty(a, i));
    assert(missing(f, i));
    let n = a.required_msg@.len() as int;
    let added = b.required_msg@.skip(n);
    assert(added.contains(i as usize));
    let k = choose|k: int| 0 <= k < added.len() && added[k] == i as usize;
    assert(b.required_msg@[n + k] == i as usize);
}

/// Saving submits the form only when no field was found missing: every
/// field at the top level that is required and holds nothing stops it.
pub proof fn law_submit_only_when_complete(a: InputForm, b: InputForm, act: FormAction)
    requires
        form_wf(a),
        form_step(a, FormMessage::Save, b, act),
        act.request == Some(FormRequest::Submit),
    ensures
        forall|i: int|
            0 <= i < a.items@.len() && a.rules@[i].required && a.rules@[i].parent is None ==> !holds_nothing(
                a,
                i,
            ),
{
    assert forall|i: int|
        0 <= i < a.items@.len() && a.rules@[i].required && a.rules@[i].parent is None implies !holds_nothing(
            a,
            i,
        ) by {
        if holds_nothing(a, i) {
            law_empty_required_field_blocks_saving(a, b, act, i);
        }
    }
}

proof fn lemma_problems_listed(f: InputForm, n: int, i: int)
    requires
        0 <= i < n,
        item_problem(f, i) is Some,
    ensures
        problems_upto(f, n).contains((i as usize, item_problem(f, i).unwrap())),
    decreases n,
{
    let p = problems_upto(f, n - 1);
    if i < n - 1 {
        lemma_problems_listed(f, n - 1, i);
        let k = choose|k: int| 0 <= k < p.len() && p[k] == (i as usize, item_problem(f, i).unwrap());
        match item_problem(f, n - 1) {
            Some(m) => {
                assert(problems_upto(f, n)[k] == p[k]);
            },
            None => {},
        }
    } else {
        assert(problems_upto(f, n)[p.len() as int] == (i as usize, item_problem(f, i).unwrap()));
    }
}

proof fn lemma_not_unique_listed(f: InputForm, n: int, i: int)
    requires
        0 <= i < n,
        not_unique(f, i),
    ensures
        not_unique_upto(f, n).contains(i as usize),
    decreases n,
{
    let p = not_unique_upto(f, n - 1);
    if i < n - 1 {
        lemma_not_unique_listed(f, n - 1, i);
        let k = choose|k: int| 0 <= k < p.len() && p[k] == i as usize;
        if not_unique(f, n - 1) {
            assert(not_unique_upto(f, n)[k] == p[k]);
        }
    } else {
        assert(not_unique_upto(f, n)[p.len() as int] == i as usize);
    }
}

/// Saving a form whose top-level number lies outside its bounds, or whose
/// top-level password differs from its confirmation, reports the field
/// with the reason and does not submit the form.
pub proof fn law_wrong_values_block_saving(a: InputForm, b: InputForm, act: FormAction, i: int)
    requires
        form_wf(a),
        form_step(a, FormMessage::Save, b, act),
        0 <= i < a.items@.len(),
        a.rules@[i].parent is None,
    ensures
        (a.items@[i] matches InputItem::Unsigned32(Some(v)) && (v < a.rules@[i].low || v
            > a.rules@[i].high)) ==> b.verify_msg@.contains((i as usize, InvalidMessage::InvalidInput))
            && act.request != Some(FormRequest::Submit),
        (a.items@[i] matches InputItem::Password(p) && a.confirmations@[i] matches Some(c) && p@ != c@)
            ==> b.verify_msg@.contains(
            (i as usize, InvalidMessage::InvalidPassword(InvalidPasswordKind::NotMatch)),
        ) && act.request != Some(FormRequest::Submit),
{
    let n = a.items@.len() as int;
    assert(fields_of(a)[i] == field_at(a, i));
    assert(asked_for(fields_of(a), i));
    if item_problem(a, i) is Some {
        lemma_problems_listed(a, n, i);
    }
}

/// Saving a form whose field must be unique but holds a text another entry
/// holds marks the field and does not submit the form.
pub proof fn law_taken_text_blocks_saving(a: InputForm, b: InputForm, act: FormAction, i: int)
    requires
        form_wf(a),
        form_step(a, FormMessage::Save, b, act),
        0 <= i < a.items@.len(),
        a.rules@[i].unique,
        a.items@[i] matches InputItem::Text(s) && exists|k: int|
            0 <= k < a.taken@[i]@.len() && (#[trigger] a.taken@[i]@[k])@ == s@,
    ensures
        b.unique_msg@.contains(i as usize),
        act.request != Some(FormRequest::Submit),
{
    let n = a.items@.len() as int;
    let s = a.items@[i]->Text_0;
    let k = choose|k: int| 0 <= k < a.taken@[i]@.len() && (#[trigger] a.taken@[i]@[k])@ == s@;
    assert(a.taken@[i]@.map_values(|t: String| t@)[k] == s@);
    assert(not_unique(a, i));
    lemma_not_unique_listed(a, n, i);
    let u = not_unique_upto(a, n);
    let q = choose|q: int| 0 <= q < u.len() && u[q] == i as usize;
    assert(b.unique_msg@[a.unique_msg@.len() + q] == i as usize);
}

// ---------------------------------------------------------------------------
// the steps

fn sorted_group(g: InputHostNetworkGroup) -> (h: InputHostNetworkGroup)
    ensures
        group_sorted(g, h),
{
    let mut h = g;
    sort_hosts(&mut h.hosts);
    sort_networks(&mut h.networks);
    h
}

fn blank_nic() -> (n: InputNic)
    ensures
        nic_blank(n),
{
    InputNic { name: String::new(), interface: String::new(), gateway: String::new() }
}

fn nic_rows_edit(rows: &mut Vec<InputNic>, row: usize, part: u8, text: String)
    ensures
        final(rows)@ == rows_edited(old(rows)@, row as int, part as int, text),
{
    if row < rows.len() {
        let ghost before = rows@;
        let n = rows.remove(row);
        let m = if part == 0 {
            InputNic { name: text, interface: n.interface, gateway: n.gateway }
        } else if part == 1 {
            InputNic { name: n.name, interface: text, gateway: n.gateway }
        } else {
            InputNic { name: n.name, interface: n.interface, gateway: text }
        };
        rows.insert(row, m);
        assert(rows@ =~= before.update(row as int, m));
    }
}

fn edit_nic_item(items: &mut Vec<InputItem>, id: usize, row: usize, part: u8, text: String)
    ensures
        others_kept(old(items)@, final(items)@, id as int),
        id < old(items)@.len() ==> (old(items)@[id as int] matches InputItem::Nic(rows) ==> (
        final(items)@[id as int] matches InputItem::Nic(r) && r@ == rows_edited(
            rows@,
            row as int,
            part as int,
            text,
        ))),
        !(id < old(items)@.len() && old(items)@[id as int] is Nic) ==> *final(items) == *old(items),
{
    if id < items.len() {
        let is_nic = match &items[id] {
            InputItem::Nic(_) => true,
            _ => false,
        };
        if is_nic {
            let ghost before = items@;
            let it = items.remove(id);
            let new_it = match it {
                InputItem::Nic(mut rows) => {
                    nic_rows_edit(&mut rows, row, part, text);
                    InputItem::Nic(rows)
                },
                other => other,
            };
            items.insert(id, new_it);
            assert(items@ =~= before.update(id as int, new_it));
        }
    }
}

fn add_nic_row(items: &mut Vec<InputItem>, id: usize)
    ensures
        others_kept(old(items)@, final(items)@, id as int),
        id < old(items)@.len() ==> (old(items)@[id as int] matches InputItem::Nic(rows) ==> (
        final(items)@[id as int] matches InputItem::Nic(r) && r@.len() == rows@.len() + 1
            && r@.take(rows@.len() as int) == rows@ && nic_blank(r@.last()))),
        !(id < old(items)@.len() && old(items)@[id as int] is Nic) ==> *final(items) == *old(items),
{
    if id < items.len() {
        let is_nic = match &items[id] {
            InputItem::Nic(_) => true,
            _ => false,
        };
        if is_nic {
            let ghost before = items@;
            let it = items.remove(id);
            let new_it = match it {
                InputItem::Nic(mut rows) => {
                    let ghost r0 = rows@;
                    rows.push(blank_nic());
                    assert(rows@.take(r0.len() as int) =~= r0);
                    InputItem::Nic(rows)
                },
                other => other,
            };
            items.insert(id, new_it);
            assert(items@ =~= before.update(id as int, new_it));
        }
    }
}

fn delete_nic_row(items: &mut Vec<InputItem>, id: usize, row: usize)
    ensures
        others_kept(old(items)@, final(items)@, id as int),
        id < old(items)@.len() ==> (old(items)@[id as int] matches InputItem::Nic(rows) ==> (
        final(items)@[id as int] matches InputItem::Nic(r) && rows_deleted(rows@, row as int, r@))),
        !(id < old(items)@.len() && old(items)@[id as int] is Nic) ==> *final(items) == *old(items),
{
    if id < items.len() {
        let is_nic = match &items[id] {
            InputItem::Nic(_) => true,
            _ => false,
        };
        if is_nic {
            let ghost before = items@;
            let it = items.remove(id);
            let new_it = match it {
                InputItem::Nic(mut rows) => {
                    if row < rows.len() {
                        let _ = rows.remove(row);
                    }
                    if rows.len() == 0 {
                        rows.push(blank_nic());
                    }
                    InputItem::Nic(rows)
                },
                other => other,
            };
            items.insert(id, new_it);
            assert(items@ =~= before.update(id as int, new_it));
        }
    }
}

fn click_checks(checks: &Vec<CheckNode>, k: usize) -> (r: Vec<CheckNode>)
    requires
        well_formed(checks@),
        k < checks@.len(),
    ensures
        r@.len() == checks@.len(),
        forall|i: int|
            0 <= i < checks@.len() ==> {
                &&& #[trigger] r@[i].parent == checks@[i].parent
                &&& r@[i].always == checks@[i].always
                &&& r@[i].preset == checks@[i].preset
                &&& r@[i].status == final_status(checks@, k as int, i)
            },
{
    let st = propagate(checks, k);
    let mut r: Vec<CheckNode> = Vec::new();
    let mut i: usize = 0;
    while i < checks.len()
        invariant
            i <= checks@.len(),
            st@.len() == checks@.len(),
            forall|q: int| 0 <= q < checks@.len() ==> st@[q] == final_status(checks@, k as int, q),
            r@.len() == i,
            forall|q: int|
                0 <= q < i ==> {
                    &&& #[trigger] r@[q].parent == checks@[q].parent
                    &&& r@[q].always == checks@[q].always
                    &&& r@[q].preset == checks@[q].preset
                    &&& r@[q].status == final_status(checks@, k as int, q)
                },
        decreases checks@.len() - i,
    {
        let c = checks[i];
        r.push(CheckNode { status: st[i], always: c.always, preset: c.preset, parent: c.parent });
        i = i + 1;
    }
    r
}

fn step_save(form: &mut InputForm) -> (act: FormAction)
    requires
        form_wf(*old(form)),
    ensures
        form_wf(*final(form)),
        form_step(*old(form), FormMessage::Save, *final(form), act),
{
    let fields = form_fields(form);
    let missing = missing_fields(&fields);
    let dup = not_unique_fields(form);
    let probs = item_problems(form, &fields);
    let nics = nic_problems(form, &fields);
    let ok = missing.len() == 0 && dup.len() == 0 && probs.len() == 0 && nics.len() == 0;
    let ghost req0 = form.required_msg@;
    push_all(&mut form.required_msg, &missing);
    push_all(&mut form.unique_msg, &dup);
    form.verify_msg = probs;
    form.nic_msg = nics;
    proof {
        assert(form.required_msg@.take(req0.len() as int) =~= req0);
        assert(form.required_msg@.skip(req0.len() as int) =~= missing@);
    }
    if ok {
        trim_items(&mut form.items);
        FormAction { render: true, request: Some(FormRequest::Submit) }
    } else {
        FormAction { render: true, request: None }
    }
}

fn step_try_save(form: &mut InputForm) -> (act: FormAction)
    requires
        form_wf(*old(form)),
    ensures
        form_wf(*final(form)),
        form_step(*old(form), FormMessage::TrySave, *final(form), act),
{
    let fields = form_fields(form);
    let hc = host_checks_reset_exec(form, &fields);
    let verifying = hc.len() > 0;
    form.host_checks = hc;
    form.verifying_host_networks = verifying;
    if verifying {
        FormAction { render: true, request: None }
    } else {
        FormAction { render: false, request: Some(FormRequest::Save) }
    }
}

fn step_wrong_host(form: &mut InputForm, id: usize) -> (act: FormAction)
    requires
        form_wf(*old(form)),
    ensures
        form_wf(*final(form)),
        form_step(*old(form), FormMessage::WrongHostNetworkGroup(id), *final(form), act),
{
    let dup = not_unique_fields(form);
    form.host_checks = host_checks_set_exec(&form.host_checks, id, false);
    form.required_msg = without_id_exec(&form.required_msg, id);
    let ghost mid = *form;
    let fields = form_fields(form);
    let missing = missing_fields(&fields);
    let ghost req0 = form.required_msg@;
    push_all(&mut form.required_msg, &missing);
    push_all(&mut form.unique_msg, &dup);
    proof {
        assert(fields_of(*form) =~= fields_of(mid));
        assert(form.required_msg@.take(req0.len() as int) =~= req0);
        assert(form.required_msg@.skip(req0.len() as int) =~= missing@);
    }
    FormAction { render: true, request: None }
}

fn step_right_host(form: &mut InputForm, id: usize, g: InputHostNetworkGroup) -> (act: FormAction)
    requires
        form_wf(*old(form)),
    ensures
        form_wf(*final(form)),
        form_step(*old(form), FormMessage::RightHostNetworkGroup(id, g), *final(form), act),
{
    form.host_checks = host_checks_set_exec(&form.host_checks, id, true);
    let empty = g.hosts.len() == 0 && g.networks.len() == 0 && g.ranges.len() == 0;
    if id < form.items.len() {
        let h = sorted_group(g);
        set_item(&mut form.items, id, InputItem::HostNetworkGroup(h));
    }
    if !empty {
        form.required_msg = without_id_exec(&form.required_msg, id);
    }
    if all_hosts_right_exec(&form.host_checks) {
        form.verifying_host_networks = false;
        FormAction { render: true, request: Some(FormRequest::Save) }
    } else {
        FormAction { render: true, request: None }
    }
}

fn cell_is_empty(c: &GroupCell) -> (b: bool)
    ensures
        b == cell_empty(*c),
{
    match c {
        GroupCell::Text(t) => t.as_str().is_empty(),
        GroupCell::Unsigned32(v) => v.is_none(),
        GroupCell::SelectSingle(v) => v.is_none(),
        GroupCell::SelectMultiple(v) => v.len() == 0,
        GroupCell::HostNetworkGroup(g) => g.hosts.len() == 0 && g.networks.len() == 0
            && g.ranges.len() == 0,
    }
}

fn inside_empty(rows: &Vec<Vec<GroupCell>>) -> (b: bool)
    ensures
        b == rows_inside_empty(rows@),
{
    let mut r: usize = 0;
    while r < rows.len()
        invariant
            r <= rows@.len(),
            forall|p: int, c: int| 0 <= p < r && 0 <= c < rows@[p]@.len() ==> cell_empty(
                #[trigger] rows@[p]@[c],
            ),
        decreases rows@.len() - r,
    {
        let row = &rows[r];
        let mut c: usize = 0;
        while c < row.len()
            invariant
                r < rows@.len(),
                *row == rows@[r as int],
                c <= row@.len(),
                forall|q: int| 0 <= q < c ==> cell_empty(#[trigger] row@[q]),
            decreases row@.len() - c,
        {
            if !cell_is_empty(&row[c]) {
                assert(!cell_empty(rows@[r as int]@[c as int]));
                return false;
            }
            c = c + 1;
        }
        r = r + 1;
    }
    true
}

fn set_insert_exec(v: &mut Vec<usize>, id: usize)
    ensures
        final(v)@ == set_insert(old(v)@, id),
{
    let mut j: usize = 0;
    while j < v.len()
        invariant
            j <= v@.len(),
            forall|q: int| 0 <= q < j ==> v@[q] != id,
        decreases v@.len() - j,
    {
        if v[j] == id {
            assert(v@[j as int] == id);
            return;
        }
        j = j + 1;
    }
    v.push(id);
}

fn marks_after_delete_exec(v: &Vec<(usize, usize, usize)>, id: usize, row: usize, width: usize, len: usize) -> (r: Vec<(usize, usize, usize)>)
    ensures
        r@ == marks_after_delete(v@, id, row, width as nat, len as nat),
{
    let mut r: Vec<(usize, usize, usize)> = Vec::new();
    let mut i: usize = 0;
    while i < v.len()
        invariant
            i <= v@.len(),
            r@ == marks_after_delete(v@.take(i as int), id, row, width as nat, len as nat),
        decreases v@.len() - i,
    {
        proof {
            assert(v@.take(i + 1).drop_last() =~= v@.take(i as int));
        }
        let m = v[i];
        if m.0 == id && m.2 < width {
            if m.1 == row {
            } else if row < m.1 && m.1 < len {
                r.push((m.0, m.1 - 1, m.2));
            } else {
                r.push(m);
            }
        } else {
            r.push(m);
        }
        i = i + 1;
    }
    proof {
        assert(v@.take(v@.len() as int) =~= v@);
    }
    r
}

fn copy_text(t: &Option<String>) -> (r: Option<String>)
    ensures
        r == *t,
{
    match t {
        Some(x) => Some(x.clone()),
        None => None,
    }
}

fn step_tags(form: &mut InputForm, id: usize, t: InputTagGroup) -> (act: FormAction)
    requires
        form_wf(*old(form)),
    ensures
        form_wf(*final(form)),
        form_step(*old(form), FormMessage::InputTagGroup(id, t), *final(form), act),
{
    let empty_old = t.old.len() == 0;
    let send_new = match &t.new {
        Some(x) => !x.as_str().is_empty(),
        None => false,
    };
    let send_edit = match &t.edit {
        Some(e) => !e.0.as_str().is_empty() && !e.1.as_str().is_empty(),
        None => false,
    };
    let send_delete = match &t.delete {
        Some(x) => !x.as_str().is_empty(),
        None => false,
    };
    let mut notices: Vec<TagNotice> = Vec::new();
    if send_new {
        form.tag_out.new = copy_text(&t.new);
        notices.push(TagNotice::AddTag);
    }
    if send_edit {
        form.tag_out.edit = match &t.edit {
            Some(e) => Some((e.0.clone(), e.1.clone())),
            None => None,
        };
        notices.push(TagNotice::EditTag);
    }
    if send_delete {
        form.tag_out.delete = copy_text(&t.delete);
        notices.push(TagNotice::DeleteTag);
    }
    proof {
        assert(notices@ =~= tag_notices_of(t));
    }
    form.tag_notices = notices;
    if id < form.items.len() {
        set_item(&mut form.items, id, InputItem::Tag(t));
    }
    if !empty_old {
        form.required_msg = without_id_exec(&form.required_msg, id);
    }
    FormAction { render: false, request: None }
}

fn step_vec_select(form: &mut InputForm, id: usize, col: usize, buf: Option<Vec<String>>) -> (act: FormAction)
    requires
        form_wf(*old(form)),
    ensures
        form_wf(*final(form)),
        form_step(*old(form), FormMessage::InputVecSelect(id, col, buf), *final(form), act),
{
    match buf {
        None => FormAction { render: true, request: None },
        Some(bv) => {
            let fits = id < form.items.len() && match &form.items[id] {
                InputItem::VecSelect(v) => col < v.len(),
                _ => false,
            };
            if fits {
                let chosen = bv.len() > 0;
                let ghost before = form.items@;
                let it = form.items.remove(id);
                let new_it = match it {
                    InputItem::VecSelect(mut v) => {
                        let ghost v0 = v@;
                        let _ = v.remove(col);
                        v.insert(col, bv);
                        assert(v@ =~= v0.update(col as int, bv));
                        InputItem::VecSelect(v)
                    },
                    other => other,
                };
                form.items.insert(id, new_it);
                assert(form.items@ =~= before.update(id as int, new_it));
                if chosen {
                    form.required_msg = without_id_exec(&form.required_msg, id);
                }
            }
            FormAction { render: true, request: None }
        },
    }
}

fn step_group_add(form: &mut InputForm, id: usize, row: Vec<GroupCell>) -> (act: FormAction)
    requires
        form_wf(*old(form)),
    ensures
        form_wf(*final(form)),
        form_step(*old(form), FormMessage::InputGroupAdd(id, row), *final(form), act),
{
    let is_group = id < form.items.len() && match &form.items[id] {
        InputItem::Group(_) => true,
        _ => false,
    };
    if !is_group {
        return FormAction { render: true, request: None };
    }
    let full = match &form.items[id] {
        InputItem::Group(rows) => rows.len() == form.max_group_rows,
        _ => false,
    };
    if full {
        return FormAction { render: false, request: None };
    }
    let ghost before = form.items@;
    let it = form.items.remove(id);
    let new_it = match it {
        InputItem::Group(mut rows) => {
            rows.push(row);
            InputItem::Group(rows)
        },
        other => other,
    };
    form.items.insert(id, new_it);
    assert(form.items@ =~= before.update(id as int, new_it));
    FormAction { render: true, request: None }
}

fn step_group_delete(form: &mut InputForm, id: usize, row: usize, required: bool) -> (act: FormAction)
    requires
        form_wf(*old(form)),
        message_defined(*old(form), FormMessage::InputGroupDelete(id, row, required)),
    ensures
        form_wf(*final(form)),
        form_step(*old(form), FormMessage::InputGroupDelete(id, row, required), *final(form), act),
{
    let is_group = id < form.items.len() && match &form.items[id] {
        InputItem::Group(_) => true,
        _ => false,
    };
    if !is_group {
        return FormAction { render: true, request: None };
    }
    let (width, len): (usize, usize) = match &form.items[id] {
        InputItem::Group(rows) => (rows[row].len(), rows.len()),
        _ => (0, 0),
    };
    form.cell_required_msg = marks_after_delete_exec(&form.cell_required_msg, id, row, width, len);
    let ghost before = form.items@;
    let it = form.items.remove(id);
    let (new_it, emptied, left): (InputItem, bool, usize) = match it {
        InputItem::Group(mut rows) => {
            let _ = rows.remove(row);
            let e = inside_empty(&rows);
            let l = rows.len();
            (InputItem::Group(rows), e, l)
        },
        other => (other, false, 1),
    };
    form.items.insert(id, new_it);
    assert(form.items@ =~= before.update(id as int, new_it));
    if required && emptied {
        set_insert_exec(&mut form.required_msg, id);
    }
    if left == 0 {
        FormAction { render: true, request: Some(FormRequest::AddGroupRow(id)) }
    } else {
        FormAction { render: true, request: None }
    }
}

fn clear_buffer(buffers: &mut Vec<ComparisonBuffer>, id: usize)
    ensures
        buffer_cleared(old(buffers)@, final(buffers)@, id as int),
{
    if id < buffers.len() {
        let ghost before = buffers@;
        let _ = buffers.remove(id);
        buffers.insert(id, ComparisonBuffer { first: None, second: None });
        assert(buffers@ =~= before.update(id as int, ComparisonBuffer { first: None, second: None }));
    }
}

fn step_comparison_kind(form: &mut InputForm, id: usize, vs: Option<Vec<String>>, cs: Option<Vec<String>>) -> (act: FormAction)
    requires
        form_wf(*old(form)),
    ensures
        form_wf(*final(form)),
        form_step(*old(form), FormMessage::InputComparisonKind(id, vs, cs), *final(form), act),
{
    let kind = chosen_value_kind(&vs);
    match kind {
        None => {
            assert(forall|k: ValueKind| !#[trigger] names_value_kind(vs, k));
            FormAction { render: true, request: None }
        },
        Some(k) => {
            assert(names_value_kind(vs, k));
            let value = empty_value(k);
            clear_buffer(&mut form.comparison_buffers, id);
            let ck = chosen_comparison_kind(&cs);
            let set = match ck {
                Some(c) => {
                    assert(names_comparison_kind(cs, c));
                    Some(comparison_template(c, value))
                },
                None => {
                    assert(forall|c: ComparisonKind| !#[trigger] names_comparison_kind(cs, c));
                    None
                },
            };
            if id < form.items.len() {
                set_item(&mut form.items, id, InputItem::Comparison(set));
            }
            FormAction { render: true, request: None }
        },
    }
}

fn step_comparison_value(form: &mut InputForm, id: usize, index: usize, value: Value, cs: Option<Vec<String>>) -> (act: FormAction)
    requires
        form_wf(*old(form)),
    ensures
        form_wf(*final(form)),
        form_step(*old(form), FormMessage::InputComparisonValue(id, index, value, cs), *final(form), act),
{
    let ck = chosen_comparison_kind(&cs);
    match ck {
        None => {
            assert(forall|c: ComparisonKind| !#[trigger] names_comparison_kind(cs, c));
            FormAction { render: true, request: None }
        },
        Some(c) => {
            assert(names_comparison_kind(cs, c));
            proof {
                assert forall|c2: ComparisonKind| #[trigger] names_comparison_kind(cs, c2) implies c2 == c by {
                    law_comparison_kind_text_identifies(c, c2);
                }
            }
            if id < form.items.len() {
                let ghost before = form.comparison_buffers@;
                let mut buf = form.comparison_buffers.remove(id);
                let r = input_comparison_value(&mut buf, c, index, value);
                form.comparison_buffers.insert(id, buf);
                assert(form.comparison_buffers@ =~= before.update(id as int, buf));
                let holds_comparison = match &form.items[id] {
                    InputItem::Comparison(_) => true,
                    _ => false,
                };
                match r {
                    Some(x) => {
                        if holds_comparison {
                            set_item(&mut form.items, id, InputItem::Comparison(Some(x)));
                            form.required_msg = without_id_exec(&form.required_msg, id);
                        }
                    },
                    None => {},
                }
            }
            FormAction { render: true, request: None }
        },
    }
}

/// Applies a message to the form and says what to do next.
pub fn update_form(form: &mut InputForm, msg: FormMessage) -> (act: FormAction)
    requires
        form_wf(*old(form)),
        message_defined(*old(form), msg),
    ensures
        form_wf(*final(form)),
        form_step(*old(form), msg, *final(form), act),
{
    match msg {
        FormMessage::Escape => FormAction { render: true, request: Some(FormRequest::Escape) },
        FormMessage::TrySave => step_try_save(form),
        FormMessage::Save => step_save(form),
        FormMessage::InputText(id, t) => {
            let empty = t.as_str().is_empty();
            if id < form.items.len() {
                set_item(&mut form.items, id, InputItem::Text(t));
            }
            if !empty {
                form.required_msg = without_id_exec(&form.required_msg, id);
            }
            form.unique_msg = without_id_exec(&form.unique_msg, id);
            FormAction { render: true, request: None }
        },
        FormMessage::InputPassword(id, t) => {
            let empty = t.as_str().is_empty();
            if id < form.items.len() {
                set_item(&mut form.items, id, InputItem::Password(t));
            }
            if !empty {
                form.required_msg = without_id_exec(&form.required_msg, id);
            }
            FormAction { render: true, request: None }
        },
        FormMessage::InputConfirmPassword(id, t) => {
            let empty = t.as_str().is_empty();
            if id < form.confirmations.len() {
                let ghost before = form.confirmations@;
                let _ = form.confirmations.remove(id);
                form.confirmations.insert(id, Some(t));
                assert(form.confirmations@ =~= before.update(id as int, Some(t)));
            }
            if !empty {
                form.required_msg = without_id_exec(&form.required_msg, id);
            }
            FormAction { render: true, request: None }
        },
        FormMessage::InputUnsigned32(id, v) => {
            if id < form.items.len() {
                set_item(&mut form.items, id, InputItem::Unsigned32(v));
            }
            form.required_msg = without_id_exec(&form.required_msg, id);
            form.unique_msg = without_id_exec(&form.unique_msg, id);
            FormAction { render: true, request: None }
        },
        FormMessage::InputUnsigned8(id, v) => {
            if id < form.items.len() {
                set_item(&mut form.items, id, InputItem::Unsigned8(v));
            }
            form.required_msg = without_id_exec(&form.required_msg, id);
            form.unique_msg = without_id_exec(&form.unique_msg, id);
            FormAction { render: true, request: None }
        },
        FormMessage::InvalidInput => FormAction { render: false, request: None },
        FormMessage::InputHostNetworkGroup(id, g) => {
            let empty = g.hosts.len() == 0 && g.networks.len() == 0 && g.ranges.len() == 0;
            if id < form.items.len() {
                let h = sorted_group(g);
                set_item(&mut form.items, id, InputItem::HostNetworkGroup(h));
            }
            if !empty {
                form.required_msg = without_id_exec(&form.required_msg, id);
            }
            FormAction { render: true, request: None }
        },
        FormMessage::WrongHostNetworkGroup(id) => step_wrong_host(form, id),
        FormMessage::RightHostNetworkGroup(id, g) => step_right_host(form, id, g),
        FormMessage::ClickCheckbox(k) => {
            if k < form.checks.len() {
                form.checks = click_checks(&form.checks, k);
            }
            FormAction { render: true, request: None }
        },
        FormMessage::InputNicName(id, row, t) => {
            let empty = t.as_str().is_empty();
            edit_nic_item(&mut form.items, id, row, 0, t);
            if !empty {
                form.required_msg = without_id_exec(&form.required_msg, id);
            }
            form.nic_msg = nic_msg_without_exec(&form.nic_msg, id, row);
            FormAction { render: true, request: None }
        },
        FormMessage::InputNicInterface(id, row, t) => {
            let empty = t.as_str().is_empty();
            edit_nic_item(&mut form.items, id, row, 1, t);
            if !empty {
                form.required_msg = without_id_exec(&form.required_msg, id);
            }
            form.nic_msg = nic_msg_without_exec(&form.nic_msg, id, row);
            FormAction { render: true, request: None }
        },
        FormMessage::InputNicGateway(id, row, t) => {
            let empty = t.as_str().is_empty();
            edit_nic_item(&mut form.items, id, row, 2, t);
            if !empty {
                form.required_msg = without_id_exec(&form.required_msg, id);
            }
            form.nic_msg = nic_msg_without_exec(&form.nic_msg, id, row);
            FormAction { render: true, request: None }
        },
        FormMessage::InputNicAdd(id, row) => {
            add_nic_row(&mut form.items, id);
            form.nic_msg = nic_msg_without_exec(&form.nic_msg, id, row);
            FormAction { render: true, request: None }
        },
        FormMessage::InputSingleSelect(id, buf) => {
            let (chosen, empty): (Option<String>, bool) = match buf {
                Some(v) => {
                    let empty = v.len() == 0;
                    if empty {
                        (None, true)
                    } else {
                        let mut v = v;
                        (Some(v.swap_remove(0)), false)
                    }
                },
                None => (None, false),
            };
            if id < form.items.len() {
                set_item(&mut form.items, id, InputItem::SelectSingle(chosen));
            }
            if !empty {
                form.required_msg = without_id_exec(&form.required_msg, id);
            }
            FormAction { render: true, request: None }
        },
        FormMessage::InputMultipleSelect(id, buf, list) => {
            let empty = match &buf {
                Some(v) => v.len() == 0,
                None => false,
            };
            let chosen = match buf {
                Some(v) => v,
                None => list,
            };
            if id < form.items.len() {
                set_item(&mut form.items, id, InputItem::SelectMultiple(chosen));
            }
            if !empty {
                form.required_msg = without_id_exec(&form.required_msg, id);
            }
            FormAction { render: true, request: None }
        },
        FormMessage::InputRadio(id, sel) => {
            let empty = sel.as_str().is_empty();
            let is_radio = id < form.items.len() && match &form.items[id] {
                InputItem::Radio(_) => true,
                _ => false,
            };
            if is_radio {
                set_item(&mut form.items, id, InputItem::Radio(sel));
            }
            if !empty {
                form.required_msg = without_id_exec(&form.required_msg, id);
            }
            FormAction { render: true, request: None }
        },
        FormMessage::InputVecSelect(id, col, buf) => step_vec_select(form, id, col, buf),
        FormMessage::InputTagGroup(id, t) => step_tags(form, id, t),
        FormMessage::InputGroupAdd(id, row) => step_group_add(form, id, row),
        FormMessage::InputGroupDelete(id, row, required) => step_group_delete(form, id, row, required),
        FormMessage::InputComparisonValueKind(id) => {
            if id < form.items.len() {
                set_item(&mut form.items, id, InputItem::Comparison(None));
            }
            clear_buffer(&mut form.comparison_buffers, id);
            FormAction { render: true, request: None }
        },
        FormMessage::InputComparisonKind(id, vs, cs) => step_comparison_kind(form, id, vs, cs),
        FormMessage::InputComparisonValue(id, index, value, cs) => step_comparison_value(
            form,
            id,
            index,
            value,
            cs,
        ),
        FormMessage::InputNicDelete(id, row) => {
            delete_nic_row(&mut form.items, id, row);
            form.nic_msg = nic_msg_without_exec(&form.nic_msg, id, row);
            FormAction { render: true, request: None }
        },
    }
}

} // verus!
