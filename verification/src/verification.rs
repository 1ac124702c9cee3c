//! Checks of the values entered into an input form before they are submitted.
use vstd::prelude::*;

use crate::ip::{parse_ipv4, parse_ipv4_net, spec_ipv4, spec_ipv4_net, split_on};
use crate::items::InputNic;
use crate::password::{first_broken_rule, invalid_password, InvalidPasswordKind};
use crate::text::{chars_equal, chars_of};

verus! {

/// Why an entered value is refused.
#[derive(Clone, Copy, PartialEq)]
pub enum InvalidMessage {
    InvalidInput,
    InvalidPassword(InvalidPasswordKind),
    InterfaceNameRequired,
    InterfaceRequired,
    GatewayRequired,
    WrongInterface,
    WrongGateway,
}

/// The outcome of checking an entered value.
#[derive(Clone, Copy, PartialEq)]
pub enum Verification {
    Valid,
    Invalid(InvalidMessage),
}

/// A number is valid when it lies between the configured bounds (inclusive).
pub fn verify_unsigned32(value: u32, min: u32, max: u32) -> (v: Verification)
    ensures
        v == (if min <= value && value <= max {
            Verification::Valid
        } else {
            Verification::Invalid(InvalidMessage::InvalidInput)
        }),
{
    if value >= min && value <= max {
        Verification::Valid
    } else {
        Verification::Invalid(InvalidMessage::InvalidInput)
    }
}

/// A new password is valid when its confirmation matches and it breaks no rule.
pub fn verify_password(password: &str, confirmation: &str) -> (v: Verification)
    ensures
        v == (if password@ == confirmation@ {
            match first_broken_rule(password@) {
                Some(k) => Verification::Invalid(InvalidMessage::InvalidPassword(k)),
                None => Verification::Valid,
            }
        } else {
            Verification::Invalid(InvalidMessage::InvalidPassword(InvalidPasswordKind::NotMatch))
        }),
{
    let p = chars_of(password);
    let c = chars_of(confirmation);
    if chars_equal(p.as_slice(), c.as_slice()) {
        match invalid_password(password) {
            Some(k) => Verification::Invalid(InvalidMessage::InvalidPassword(k)),
            None => Verification::Valid,
        }
    } else {
        Verification::Invalid(InvalidMessage::InvalidPassword(InvalidPasswordKind::NotMatch))
    }
}

/// What is wrong with the name, the interface and the gateway of one
/// network interface; `None` where nothing is.
#[derive(Clone, Copy, PartialEq)]
pub struct NicCheck {
    pub name: Option<InvalidMessage>,
    pub interface: Option<InvalidMessage>,
    pub gateway: Option<InvalidMessage>,
}

/// The check of a network interface: once an interface or a gateway is
/// given, the name, the interface (a network such as `10.0.0.1/24`) and the
/// gateway (an address) are all required; a name alone asks for the other two.
pub open spec fn nic_check(name: Seq<char>, interface: Seq<char>, gateway: Seq<char>) -> NicCheck {
    if interface.len() > 0 || gateway.len() > 0 {
        NicCheck {
            name: if name.len() == 0 { Some(InvalidMessage::InterfaceNameRequired) } else { None },
            interface: if interface.len() == 0 {
                Some(InvalidMessage::InterfaceRequired)
            } else if spec_ipv4_net(interface) is None {
                Some(InvalidMessage::WrongInterface)
            } else {
                None
            },
            gateway: if gateway.len() == 0 {
                Some(InvalidMessage::GatewayRequired)
            } else if spec_ipv4(gateway) is None {
                Some(InvalidMessage::WrongGateway)
            } else {
                None
            },
        }
    } else if name.len() > 0 {
        NicCheck {
            name: None,
            interface: Some(InvalidMessage::InterfaceRequired),
            gateway: Some(InvalidMessage::GatewayRequired),
        }
    } else {
        NicCheck { name: None, interface: None, gateway: None }
    }
}

/// Checks one network interface.
pub fn verify_nic(nic: &InputNic) -> (r: NicCheck)
    ensures
        r == nic_check(nic.name@, nic.interface@, nic.gateway@),
{
    let no_name = nic.name.as_str().is_empty();
    let no_interface = nic.interface.as_str().is_empty();
    let no_gateway = nic.gateway.as_str().is_empty();
    if !no_interface || !no_gateway {
        NicCheck {
            name: if no_name { Some(InvalidMessage::InterfaceNameRequired) } else { None },
            interface: if no_interface {
                Some(InvalidMessage::InterfaceRequired)
            } else if parse_ipv4_net(nic.interface.as_str()).is_none() {
                Some(InvalidMessage::WrongInterface)
            } else {
                None
            },
            gateway: if no_gateway {
                Some(InvalidMessage::GatewayRequired)
            } else if parse_ipv4(nic.gateway.as_str()).is_none() {
                Some(InvalidMessage::WrongGateway)
            } else {
                None
            },
        }
    } else if !no_name {
        NicCheck {
            name: None,
            interface: Some(InvalidMessage::InterfaceRequired),
            gateway: Some(InvalidMessage::GatewayRequired),
        }
    } else {
        NicCheck { name: None, interface: None, gateway: None }
    }
}

/// Every cell of the row is empty.
pub open spec fn row_all_empty(row: Seq<Option<bool>>) -> bool {
    forall|c: int| 0 <= c < row.len() ==> row[c] == Some(true)
}

/// The cell is not (fully) filled: empty, or partly filled.
pub open spec fn not_filled(cell: Option<bool>) -> bool {
    cell != Some(false)
}

/// A row is checked when one of its cells is filled, and the first row is
/// checked too when the group is required.
pub open spec fn row_checked(rows: Seq<Seq<Option<bool>>>, r: int, group_required: bool) -> bool {
    !row_all_empty(rows[r]) || (group_required && r == 0)
}

/// The cell at row `r`, column `c` is a required one that is missing.
pub open spec fn cell_missing(
    rows: Seq<Seq<Option<bool>>>,
    required: Seq<bool>,
    group_required: bool,
    r: int,
    c: int,
) -> bool {
    &&& 0 <= r < rows.len()
    &&& 0 <= c < rows[r].len()
    &&& c < required.len()
    &&& row_checked(rows, r, group_required)
    &&& not_filled(rows[r][c])
    &&& required[c]
}

fn row_is_all_empty(row: &Vec<Option<bool>>) -> (b: bool)
    ensures
        b == row_all_empty(row@),
{
    let mut i: usize = 0;
    while i < row.len()
        invariant
            0 <= i <= row@.len(),
            forall|c: int| 0 <= c < i ==> row@[c] == Some(true),
        decreases row@.len() - i,
    {
        match row[i] {
            Some(true) => {},
            _ => {
                return false;
            },
        }
        i = i + 1;
    }
    true
}

pub open spec fn rows_view(rows: Seq<Vec<Option<bool>>>) -> Seq<Seq<Option<bool>>> {
    rows.map_values(|r: Vec<Option<bool>>| r@)
}

/// The required cells of a group of rows that are missing, row by row. Each
/// cell is `Some(true)` when empty, `Some(false)` when filled, and `None`
/// when partly filled; `required` tells, per column, whether it must be filled.
pub fn missing_group_cells(
    rows: &Vec<Vec<Option<bool>>>,
    required: &Vec<bool>,
    group_required: bool,
) -> (m: Vec<(usize, usize)>)
    ensures
        forall|k: int|
            0 <= k < m@.len() ==> cell_missing(
                rows_view(rows@),
                required@,
                group_required,
                (#[trigger] m@[k]).0 as int,
                m@[k].1 as int,
            ),
        forall|r: int, c: int|
            cell_missing(rows_view(rows@), required@, group_required, r, c) ==> exists|k: int|
                0 <= k < m@.len() && #[trigger] m@[k] == (r as usize, c as usize),
{
    let ghost rv = rows_view(rows@);
    let mut m: Vec<(usize, usize)> = Vec::new();
    let mut r: usize = 0;
    while r < rows.len()
        invariant
            0 <= r <= rows@.len(),
            rv == rows_view(rows@),
            forall|k: int|
                0 <= k < m@.len() ==> cell_missing(
                    rv,
                    required@,
                    group_required,
                    (#[trigger] m@[k]).0 as int,
                    m@[k].1 as int,
                ),
            forall|r2: int, c: int|
                0 <= r2 < r && cell_missing(rv, required@, group_required, r2, c) ==> exists|k: int|
                    0 <= k < m@.len() && #[trigger] m@[k] == (r2 as usize, c as usize),
        decreases rows@.len() - r,
    {
        let row = &rows[r];
        assert(row@ == rv[r as int]);
        let all_empty = row_is_all_empty(row);
        if !all_empty || (group_required && r == 0) {
            let mut c: usize = 0;
            let ghost m_before = m@;
            while c < row.len() && c < required.len()
                invariant
                    0 <= c <= row@.len(),
                    r < rows@.len(),
                    row@ == rv[r as int],
                    rv == rows_view(rows@),
                    row_checked(rv, r as int, group_required),
                    m_before.len() <= m@.len(),
                    forall|k: int| 0 <= k < m_before.len() ==> m@[k] == m_before[k],
                    forall|k: int|
                        0 <= k < m@.len() ==> cell_missing(
                            rv,
                            required@,
                            group_required,
                            (#[trigger] m@[k]).0 as int,
                            m@[k].1 as int,
                        ),
                    forall|c2: int|
                        0 <= c2 < c && cell_missing(rv, required@, group_required, r as int, c2)
                            ==> exists|k: int| 0 <= k < m@.len() && #[trigger] m@[k] == (r, c2 as usize),
                decreases row@.len() - c,
            {
                let empty = match row[c] {
                    Some(false) => false,
                    _ => true,
                };
                let ghost m_prev = m@;
                if empty && required[c] {
                    m.push((r, c));
                }
                proof {
                    assert forall|c2: int|
                        0 <= c2 < c + 1 && cell_missing(rv, required@, group_required, r as int, c2)
                            implies exists|k: int| 0 <= k < m@.len() && #[trigger] m@[k] == (r, c2 as usize) by {
                        if c2 < c {
                            let k = choose|k: int| 0 <= k < m_prev.len() && #[trigger] m_prev[k] == (r, c2 as usize);
                            assert(m@[k] == m_prev[k]);
                        } else {
                            assert(m@[m@.len() - 1] == (r, c));
                        }
                    }
                }
                c = c + 1;
            }
            assert forall|r2: int, c2: int|
                0 <= r2 < r + 1 && cell_missing(rv, required@, group_required, r2, c2) implies exists|k: int|
                    0 <= k < m@.len() && #[trigger] m@[k] == (r2 as usize, c2 as usize) by {
                if r2 < r {
                    let k = choose|k: int| 0 <= k < m_before.len() && #[trigger] m_before[k] == (r2 as usize, c2 as usize);
                    assert(m@[k] == m_before[k]);
                }
            }
        } else {
            assert forall|r2: int, c2: int|
                0 <= r2 < r + 1 && cell_missing(rv, required@, group_required, r2, c2) implies exists|k: int|
                    0 <= k < m@.len() && #[trigger] m@[k] == (r2 as usize, c2 as usize) by {
                assert(r2 != r);
            }
        }
        r = r + 1;
    }
    m
}

/// A row whose cells are all empty reports nothing missing, unless it is the
/// first row of a required group.
pub proof fn law_empty_rows_are_ignored(
    rows: Seq<Seq<Option<bool>>>,
    required: Seq<bool>,
    group_required: bool,
    r: int,
    c: int,
)
    requires
        0 <= r < rows.len(),
        row_all_empty(rows[r]),
        !(group_required && r == 0),
    ensures
        !cell_missing(rows, required, group_required, r, c),
{
}

/// In a row with a filled cell, every required column that is not filled is missing.
pub proof fn law_started_rows_need_required_cells(
    rows: Seq<Seq<Option<bool>>>,
    required: Seq<bool>,
    group_required: bool,
    r: int,
    c: int,
    filled: int,
)
    requires
        0 <= r < rows.len(),
        0 <= filled < rows[r].len(),
        rows[r][filled] == Some(false),
        0 <= c < rows[r].len(),
        c < required.len(),
        required[c],
        rows[r][c] != Some(false),
    ensures
        cell_missing(rows, required, group_required, r, c),
{
}

/// How full a row of select boxes is: `Some(true)` when every box is empty,
/// `Some(false)` when none is, `None` otherwise.
pub open spec fn selection_fill(v: Seq<Seq<Seq<char>>>) -> Option<bool> {
    if forall|i: int| 0 <= i < v.len() ==> v[i].len() == 0 {
        Some(true)
    } else if forall|i: int| 0 <= i < v.len() ==> v[i].len() > 0 {
        Some(false)
    } else {
        None
    }
}

/// How full a row of select boxes is.
pub fn vec_select_fill(v: &Vec<Vec<String>>) -> (r: Option<bool>)
    ensures
        r == selection_fill(crate::items::nested_views(v@)),
{
    let ghost nv = crate::items::nested_views(v@);
    let mut all_empty = true;
    let mut none_empty = true;
    let mut i: usize = 0;
    while i < v.len()
        invariant
            0 <= i <= v@.len(),
            nv == crate::items::nested_views(v@),
            all_empty == forall|k: int| 0 <= k < i ==> nv[k].len() == 0,
            none_empty == forall|k: int| 0 <= k < i ==> nv[k].len() > 0,
        decreases v@.len() - i,
    {
        assert(nv[i as int].len() == v@[i as int]@.len());
        let e = v[i].is_empty();
        all_empty = all_empty && e;
        none_empty = none_empty && !e;
        i = i + 1;
    }
    if all_empty {
        Some(true)
    } else if none_empty {
        Some(false)
    } else {
        None
    }
}

/// A network interface holds input once any of its fields is filled.
pub fn nic_has_input(nic: &InputNic) -> (b: bool)
    ensures
        b == (nic.name@.len() > 0 || nic.interface@.len() > 0 || nic.gateway@.len() > 0),
{
    !nic.name.as_str().is_empty() || !nic.interface.as_str().is_empty() || !nic.gateway.as_str().is_empty()
}

/// A network interface is complete when its name, address and gateway are all filled.
pub open spec fn nic_complete(nic: InputNic) -> bool {
    nic.name@.len() > 0 && nic.interface@.len() > 0 && nic.gateway@.len() > 0
}

/// The entered network interfaces without those left incomplete, in their order.
pub fn trim_nics(nics: &Vec<InputNic>) -> (r: Vec<InputNic>)
    ensures
        r@ == nics@.filter(|n: InputNic| nic_complete(n)),
{
    let mut r: Vec<InputNic> = Vec::new();
    let mut i: usize = 0;
    while i < nics.len()
        invariant
            i <= nics.len(),
            r@ == nics@.take(i as int).filter(|n: InputNic| nic_complete(n)),
        decreases nics.len() - i,
    {
        let n = &nics[i];
        proof {
            reveal(Seq::filter);
            assert(nics@.take(i + 1).drop_last() =~= nics@.take(i as int));
        }
        if !n.name.as_str().is_empty() && !n.interface.as_str().is_empty()
            && !n.gateway.as_str().is_empty() {
            r.push(n.duplicate());
        }
        i = i + 1;
    }
    proof {
        assert(nics@.take(nics@.len() as int) =~= nics@);
    }
    r
}

/// A network interface is fine when it is left empty or when its name, its
/// interface (a network) and its gateway (an address) are all given; a
/// wrong interface or gateway is reported as wrong, and a missing name once
/// anything else is given is reported as required.
pub proof fn law_interface_checks(name: Seq<char>, interface: Seq<char>, gateway: Seq<char>)
    ensures
        (name.len() == 0 && interface.len() == 0 && gateway.len() == 0) ==> nic_check(name, interface, gateway)
            == (NicCheck { name: None, interface: None, gateway: None }),
        (name.len() > 0 && spec_ipv4_net(interface) is Some && spec_ipv4(gateway) is Some) ==> nic_check(
            name,
            interface,
            gateway,
        ) == (NicCheck { name: None, interface: None, gateway: None }),
        (interface.len() > 0 && spec_ipv4_net(interface) is None) ==> nic_check(name, interface, gateway).interface
            == Some(InvalidMessage::WrongInterface),
        (gateway.len() > 0 && spec_ipv4(gateway) is None) ==> nic_check(name, interface, gateway).gateway
            == Some(InvalidMessage::WrongGateway),
        ((interface.len() > 0 || gateway.len() > 0) && name.len() == 0) ==> nic_check(name, interface, gateway).name
            == Some(InvalidMessage::InterfaceNameRequired),
        (name.len() > 0 && interface.len() == 0) ==> nic_check(name, interface, gateway).interface
            == Some(InvalidMessage::InterfaceRequired),
{
    if interface.len() == 0 {
        assert(split_on(interface, '/') =~= seq![Seq::<char>::empty()]);
    }
    if gateway.len() == 0 {
        assert(split_on(gateway, '.') =~= seq![Seq::<char>::empty()]);
    }
}

} // verus!