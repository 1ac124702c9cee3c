//! Notifications shown to users after a request succeeds or fails.
use vstd::prelude::*;

use crate::text::{chars_of, decimal, decimal_string, owned, string_from_chars};

verus! {

/// Category of notification determining visual styling.
#[derive(Clone, Copy, PartialEq, Eq)]
pub enum Category {
    /// Error or failure notification
    Fail,
    /// Success notification
    Success,
}

/// A single notification item with message content and context.
pub struct NotificationItem {
    /// Primary notification message
    pub message: String,
    /// Secondary message with additional details
    pub sub_message: String,
    /// HTTP status code if this notification is related to a network request
    pub status_code: Option<u16>,
    /// How long the notification stays, in whole milliseconds; `None` for
    /// one that stays until closed
    pub time: Option<u64>,
    /// Notification category affecting visual styling
    pub category: Category,
}

/// Common error types that can be converted to notifications.
#[derive(Clone, PartialEq, Eq)]
pub enum CommonError {
    /// Error sending GraphQL query
    SendGraphQLQueryError,
    /// HTTP request returned non-success status code
    HttpStatusNoSuccess(u16),
    /// Invalid GraphQL response received
    GraphQLResponseError,
    /// Error parsing GraphQL response
    GraphQLParseError,
    /// Unspecified error occurred
    UnknownError,
}

/// Types of notifications that can be generated.
pub enum NotificationType {
    /// A common error type
    CommonError(CommonError),
    /// A list of errors with a primary message
    ErrorList(String, Vec<String>),
}

/// `e` ends with `Forbidden`.
pub open spec fn is_forbidden(e: Seq<char>) -> bool {
    e.len() >= 9 && e.skip(e.len() - 9) == "Forbidden"@
}

/// Each error followed by ` & `.
pub open spec fn errors_with_separators(es: Seq<Seq<char>>) -> Seq<char>
    decreases es.len(),
{
    if es.len() == 0 {
        Seq::empty()
    } else {
        errors_with_separators(es.drop_last()) + es.last() + " & "@
    }
}

/// The errors joined by ` & `, the last one shown as `Unauthorized` when it
/// ends with `Forbidden`.
pub open spec fn error_list_text(es: Seq<Seq<char>>) -> Seq<char> {
    if es.len() == 0 {
        Seq::empty()
    } else {
        errors_with_separators(es.drop_last()) + if is_forbidden(es.last()) {
            "Unauthorized"@
        } else {
            es.last()
        }
    }
}

/// Message and sub-message of a common error.
pub open spec fn common_error_texts(e: CommonError) -> (Seq<char>, Seq<char>) {
    match e {
        CommonError::GraphQLResponseError => ("Invalid GraphQL response"@, Seq::empty()),
        CommonError::SendGraphQLQueryError => ("Invalid GraphQL query"@, Seq::empty()),
        CommonError::HttpStatusNoSuccess(status) => (
            "No success HTTPS status code"@,
            decimal(status as nat),
        ),
        CommonError::UnknownError => ("Unknown error"@, Seq::empty()),
        CommonError::GraphQLParseError => ("GraphQL parse error"@, Seq::empty()),
    }
}

pub open spec fn views_of(v: Seq<String>) -> Seq<Seq<char>> {
    v.map_values(|s: String| s@)
}

fn ends_with_forbidden(e: &[char]) -> (b: bool)
    ensures
        b == is_forbidden(e@),
{
    let w = chars_of("Forbidden");
    proof {
        reveal_strlit("Forbidden");
    }
    let n = e.len();
    if n < 9 {
        return false;
    }
    let mut i: usize = 0;
    while i < 9
        invariant
            0 <= i <= 9,
            n == e@.len(),
            n >= 9,
            w@ == "Forbidden"@,
            w@.len() == 9,
            forall|k: int| 0 <= k < i ==> e@[n - 9 + k] == w@[k],
        decreases 9 - i,
    {
        if e[n - 9 + i] != w[i] {
            assert(e@.skip(n - 9)[i as int] != "Forbidden"@[i as int]);
            return false;
        }
        i = i + 1;
    }
    assert(e@.skip(n - 9) =~= "Forbidden"@);
    true
}

fn push_all(v: &mut Vec<char>, s: &[char])
    ensures
        final(v)@ == old(v)@ + s@,
{
    let ghost start = v@;
    let mut i: usize = 0;
    while i < s.len()
        invariant
            0 <= i <= s@.len(),
            v@ == start + s@.take(i as int),
        decreases s@.len() - i,
    {
        v.push(s[i]);
        assert(s@.take(i + 1) =~= s@.take(i as int).push(s@[i as int]));
        i = i + 1;
    }
    assert(s@.take(s@.len() as int) =~= s@);
}

/// The errors joined by ` & `, a last error ending with `Forbidden` shown as `Unauthorized`.
fn error_list_sub_message(errors: &Vec<String>) -> (s: String)
    ensures
        s@ == error_list_text(views_of(errors@)),
{
    let n = errors.len();
    if n == 0 {
        return String::new();
    }
    let sep = chars_of(" & ");
    let mut v: Vec<char> = Vec::new();
    let mut i: usize = 0;
    while i < n - 1
        invariant
            0 <= i <= n - 1,
            n == errors@.len(),
            sep@ == " & "@,
            v@ == errors_with_separators(views_of(errors@).take(i as int)),
        decreases n - 1 - i,
    {
        let e = chars_of(errors[i].as_str());
        push_all(&mut v, e.as_slice());
        push_all(&mut v, sep.as_slice());
        assert(views_of(errors@).take(i + 1).drop_last() =~= views_of(errors@).take(i as int));
        i = i + 1;
    }
    let ghost es = views_of(errors@);
    assert(es.take(n - 1) =~= es.drop_last());
    let last = chars_of(errors[n - 1].as_str());
    if ends_with_forbidden(last.as_slice()) {
        let u = chars_of("Unauthorized");
        push_all(&mut v, u.as_slice());
    } else {
        push_all(&mut v, last.as_slice());
    }
    string_from_chars(v.as_slice())
}

/// Converts a notification type into the item shown to users.
pub fn gen_notifications(noti: NotificationType) -> (item: NotificationItem)
    ensures
        item.time is None,
        item.category == Category::Fail,
        match noti {
            NotificationType::CommonError(e) => {
                &&& item.message@ == common_error_texts(e).0
                &&& item.sub_message@ == common_error_texts(e).1
                &&& item.status_code == (match e {
                    CommonError::HttpStatusNoSuccess(status) => Some(status),
                    _ => None,
                })
            },
            NotificationType::ErrorList(message, errors) => {
                &&& item.message@ == message@
                &&& item.sub_message@ == error_list_text(views_of(errors@))
                &&& item.status_code is None
            },
        },
{
    match noti {
        NotificationType::CommonError(msg) => match msg {
            CommonError::GraphQLResponseError => NotificationItem {
                message: owned("Invalid GraphQL response"),
                sub_message: String::new(),
                status_code: None,
                time: None,
                category: Category::Fail,
            },
            CommonError::SendGraphQLQueryError => NotificationItem {
                message: owned("Invalid GraphQL query"),
                sub_message: String::new(),
                status_code: None,
                time: None,
                category: Category::Fail,
            },
            CommonError::HttpStatusNoSuccess(status) => NotificationItem {
                message: owned("No success HTTPS status code"),
                sub_message: decimal_string(status as u32),
                status_code: Some(status),
                time: None,
                category: Category::Fail,
            },
            CommonError::UnknownError => NotificationItem {
                message: owned("Unknown error"),
                sub_message: String::new(),
                status_code: None,
                time: None,
                category: Category::Fail,
            },
            CommonError::GraphQLParseError => NotificationItem {
                message: owned("GraphQL parse error"),
                sub_message: String::new(),
                status_code: None,
                time: None,
                category: Category::Fail,
            },
        },
        NotificationType::ErrorList(message, errors) => {
            let sub_message = error_list_sub_message(&errors);
            NotificationItem {
                message,
                sub_message,
                status_code: None,
                time: None,
                category: Category::Fail,
            }
        },
    }
}

/// The milliseconds a timer is set for: the given ones when they fit in a
/// `u32`, the default of ten seconds otherwise.
pub fn timer_millis(millis: u128) -> (ms: u32)
    ensures
        ms == (if millis <= u32::MAX {
            millis as u32
        } else {
            10_000u32
        }),
{
    if millis <= 4_294_967_295u128 {
        millis as u32
    } else {
        10_000
    }
}

/// What to do when the list of notifications changed, for its last
/// notification: `None` when there is none or it has a timer already;
/// otherwise its serial and the milliseconds of the timer to start, `None`
/// for a notification that stays until closed.
pub fn timer_to_add(list: &Vec<(usize, NotificationItem)>, running: &Vec<usize>) -> (r: Option<(usize, Option<u32>)>)
    ensures
        list@.len() == 0 ==> r is None,
        list@.len() > 0 && running@.contains(list@.last().0) ==> r is None,
        list@.len() > 0 && !running@.contains(list@.last().0) ==> (r matches Some((serial, ms))
            && serial == list@.last().0 && ms == match list@.last().1.time {
                Some(t) => Some(if t <= u32::MAX {
                    t as u32
                } else {
                    10_000u32
                }),
                None => None,
            }),
{
    let n = list.len();
    if n == 0 {
        return None;
    }
    let serial = list[n - 1].0;
    assert(serial == list@.last().0);
    let mut i: usize = 0;
    while i < running.len()
        invariant
            0 <= i <= running@.len(),
            n == list@.len(),
            n > 0,
            serial == list@.last().0,
            forall|k: int| 0 <= k < i ==> running@[k] != serial,
        decreases running@.len() - i,
    {
        if running[i] == serial {
            assert(running@[i as int] == serial);
            assert(running@.contains(serial));
            return None;
        }
        i = i + 1;
    }
    match list[n - 1].1.time {
        Some(t) => Some((serial, Some(timer_millis(t as u128)))),
        None => Some((serial, None)),
    }
}

/// The notifications other than the one with the serial `serial`, in order.
pub open spec fn without_serial(list: Seq<(usize, NotificationItem)>, serial: usize) -> Seq<(usize, NotificationItem)>
    decreases list.len(),
{
    if list.len() == 0 {
        Seq::empty()
    } else if list.last().0 == serial {
        without_serial(list.drop_last(), serial)
    } else {
        without_serial(list.drop_last(), serial).push(list.last())
    }
}

/// The serials other than `serial`, in order.
pub open spec fn without_value(v: Seq<usize>, serial: usize) -> Seq<usize>
    decreases v.len(),
{
    if v.len() == 0 {
        Seq::empty()
    } else if v.last() == serial {
        without_value(v.drop_last(), serial)
    } else {
        without_value(v.drop_last(), serial).push(v.last())
    }
}

/// Closes the notification with the serial `serial` (and forgets its timer).
pub fn close(list: &mut Vec<(usize, NotificationItem)>, running: &mut Vec<usize>, serial: usize)
    ensures
        final(list)@ == without_serial(old(list)@, serial),
        final(running)@ == without_value(old(running)@, serial),
{
    let mut kept: Vec<(usize, NotificationItem)> = Vec::new();
    let ghost start = list@;
    while list.len() > 0
        invariant
            without_serial(start, serial) == without_serial(list@, serial) + kept@.reverse(),
        decreases list@.len(),
    {
        let ghost before = list@;
        let item = list.pop().unwrap();
        proof {
            assert(before.drop_last() == list@);
            assert(before.last() == item);
        }
        if item.0 != serial {
            let ghost k = kept@;
            kept.push(item);
            proof {
                assert(kept@.reverse() =~= seq![item] + k.reverse());
                assert(without_serial(before, serial) == without_serial(list@, serial).push(item));
                assert(without_serial(list@, serial).push(item) + k.reverse() =~= without_serial(
                    list@,
                    serial,
                ) + kept@.reverse());
            }
        }
    }
    assert(without_serial(list@, serial) =~= Seq::<(usize, NotificationItem)>::empty());
    let mut out: Vec<(usize, NotificationItem)> = Vec::new();
    let ghost rev = kept@.reverse();
    while kept.len() > 0
        invariant
            rev == out@ + kept@.reverse(),
        decreases kept@.len(),
    {
        let ghost k = kept@;
        let item = kept.pop().unwrap();
        out.push(item);
        proof {
            assert(k.drop_last() == kept@);
            assert(k.reverse() =~= seq![item] + kept@.reverse());
            assert(out@ + kept@.reverse() =~= rev);
        }
    }
    assert(out@ =~= rev);
    *list = out;
    let mut timers: Vec<usize> = Vec::new();
    let mut j: usize = 0;
    while j < running.len()
        invariant
            0 <= j <= running@.len(),
            timers@ == without_value(running@.take(j as int), serial),
        decreases running@.len() - j,
    {
        proof {
            assert(running@.take(j + 1).drop_last() =~= running@.take(j as int));
            assert(running@.take(j + 1).last() == running@[j as int]);
        }
        if running[j] != serial {
            timers.push(running[j]);
        }
        j = j + 1;
    }
    proof {
        assert(running@.take(running@.len() as int) =~= running@);
    }
    *running = timers;
}

/// Closes every notification (and forgets every timer).
pub fn close_all(list: &mut Vec<(usize, NotificationItem)>, running: &mut Vec<usize>)
    ensures
        final(list)@.len() == 0,
        final(running)@.len() == 0,
{
    list.clear();
    running.clear();
}

} // verus!
