//! The editor of a tag field: choosing known tags by name, naming a new
//! tag, editing and deleting tags, and the list of tags offered while typing.
use vstd::prelude::*;

use crate::items::InputTagGroup;
use crate::list_order::{Entry, column_sorted, sort_by_column};
use crate::sorting::{holds, string_views};
use crate::text::{chars_of, contains_part, has_part};

verus! {

/// What the tag field tells the user: the tag is already there.
#[derive(Clone, Copy, PartialEq, Eq, Structural)]
pub enum TagMessage {
    Exists,
}

/// The lower-case form of a text, as `str::to_lowercase` gives it by the
/// Unicode tables.
pub uninterp spec fn unicode_lowercase(s: Seq<char>) -> Seq<char>;

/// std's `str::to_lowercase`: every character replaced by its lower-case
/// mapping in the Unicode tables. Its result is the named mapping of the text.
#[verifier::external_body]
fn lowercase(s: &str) -> (r: String)
    ensures
        r@ == unicode_lowercase(s@),
{
    s.to_lowercase()
}

/// A known tag is offered while typing: it is not chosen yet and, when
/// something is typed, its name holds the typed text, ignoring case.
pub open spec fn offered(p: (String, String), chosen: Seq<Seq<char>>, typed: Seq<char>) -> bool {
    &&& !chosen.contains(p.0@)
    &&& (typed.len() == 0 || has_part(unicode_lowercase(p.1@), unicode_lowercase(typed)))
}

/// The tags offered, in the order known, as entries to be sorted by name.
pub open spec fn offered_entries(known: Seq<(String, String)>, chosen: Seq<Seq<char>>, typed: Seq<char>) -> Seq<Entry>
    decreases known.len(),
{
    if known.len() == 0 {
        Seq::empty()
    } else {
        let rest = offered_entries(known.drop_last(), chosen, typed);
        if offered(known.last(), chosen, typed) {
            rest.push((known.last().0, known.last().1, None))
        } else {
            rest
        }
    }
}

/// The (key, name) pairs of the entries.
pub open spec fn pairs_of(s: Seq<Entry>) -> Seq<(String, String)> {
    s.map_values(|e: Entry| (e.0, e.1))
}

/// The list of offered tags is the offered tags sorted by name (then by key).
pub open spec fn search_matches(
    list: Seq<(String, String)>,
    known: Seq<(String, String)>,
    chosen: Seq<Seq<char>>,
    typed: Seq<char>,
) -> bool {
    exists|s: Seq<Entry>|
        #[trigger] column_sorted(s, true) && s.to_multiset() == offered_entries(known, chosen, typed).to_multiset()
            && list == pairs_of(s)
}

/// The keys in text order.
pub open spec fn keys_in_order(order: Seq<String>, keys: Seq<String>) -> bool {
    exists|s: Seq<Entry>|
        #[trigger] column_sorted(s, true) && s.to_multiset() == keys.map_values(
            |k: String| (k, k, None::<i128>),
        ).to_multiset() && order == s.map_values(|e: Entry| e.0)
}

/// The keys without `x`.
pub open spec fn without(v: Seq<String>, x: Seq<char>) -> Seq<String>
    decreases v.len(),
{
    if v.len() == 0 {
        Seq::empty()
    } else if v.last()@ == x {
        without(v.drop_last(), x)
    } else {
        without(v.drop_last(), x).push(v.last())
    }
}

/// The keys of (key, name) pairs.
pub open spec fn key_views(v: Seq<(String, String)>) -> Seq<Seq<char>> {
    v.map_values(|p: (String, String)| p.0@)
}

/// The shown keys that stay when the known tags change from `before` to
/// `now`: all but those known before and not now.
pub open spec fn kept_keys(view: Seq<String>, before: Seq<(String, String)>, now: Seq<(String, String)>) -> Seq<String>
    decreases view.len(),
{
    if view.len() == 0 {
        Seq::empty()
    } else {
        let rest = kept_keys(view.drop_last(), before, now);
        let k = view.last();
        if key_views(before).contains(k@) && !key_views(now).contains(k@) {
            rest
        } else {
            rest.push(k)
        }
    }
}

/// The keys known now and not before, in the order known now.
pub open spec fn new_keys(now: Seq<(String, String)>, before: Seq<(String, String)>) -> Seq<String>
    decreases now.len(),
{
    if now.len() == 0 {
        Seq::empty()
    } else {
        let rest = new_keys(now.drop_last(), before);
        if key_views(before).contains(now.last().0@) {
            rest
        } else {
            rest.push(now.last().0)
        }
    }
}

fn keys_of(v: &Vec<(String, String)>) -> (r: Vec<String>)
    ensures
        string_views(r@) == key_views(v@),
{
    let mut r: Vec<String> = Vec::new();
    let mut i: usize = 0;
    while i < v.len()
        invariant
            0 <= i <= v@.len(),
            string_views(r@) == key_views(v@.take(i as int)),
        decreases v@.len() - i,
    {
        let ghost before = r@;
        r.push(v[i].0.clone());
        proof {
            assert(string_views(r@) =~= string_views(before).push(v@[i as int].0@));
            assert(key_views(v@.take(i + 1)) =~= key_views(v@.take(i as int)).push(v@[i as int].0@));
        }
        i = i + 1;
    }
    proof {
        assert(v@.take(v@.len() as int) =~= v@);
    }
    r
}

/// The state of a tag field.
pub struct TagInput {
    pub input: String,
    pub message: Option<TagMessage>,
    pub view_order: Vec<String>,
    pub search_list: Vec<(String, String)>,
    pub search_cursor: Option<usize>,
    pub edit: Option<String>,
    pub edit_message: Option<TagMessage>,
    pub input_edit: String,
}

fn entries_offered(known: &Vec<(String, String)>, chosen: &Vec<String>, typed: &String) -> (r: Vec<Entry>)
    ensures
        r@ == offered_entries(known@, string_views(chosen@), typed@),
{
    let low = lowercase(typed.as_str());
    let low_chars = chars_of(low.as_str());
    let typed_empty = typed.as_str().is_empty();
    let mut r: Vec<Entry> = Vec::new();
    let mut i: usize = 0;
    while i < known.len()
        invariant
            0 <= i <= known@.len(),
            low_chars@ == unicode_lowercase(typed@),
            typed_empty == (typed@.len() == 0),
            r@ == offered_entries(known@.take(i as int), string_views(chosen@), typed@),
        decreases known@.len() - i,
    {
        proof {
            assert(known@.take(i + 1).drop_last() =~= known@.take(i as int));
            assert(known@.take(i + 1).last() == known@[i as int]);
        }
        let (k, n) = (&known[i].0, &known[i].1);
        let keep = if holds(chosen, k) {
            false
        } else if typed_empty {
            true
        } else {
            let name_low = lowercase(n.as_str());
            let name_chars = chars_of(name_low.as_str());
            contains_part(name_chars.as_slice(), low_chars.as_slice())
        };
        if keep {
            r.push((k.clone(), n.clone(), None));
        }
        i = i + 1;
    }
    proof {
        assert(known@.take(known@.len() as int) =~= known@);
    }
    r
}

fn pairs_from(s: Vec<Entry>) -> (r: Vec<(String, String)>)
    ensures
        r@ == pairs_of(s@),
{
    let mut r: Vec<(String, String)> = Vec::new();
    let mut i: usize = 0;
    while i < s.len()
        invariant
            0 <= i <= s@.len(),
            r@ == pairs_of(s@.take(i as int)),
        decreases s@.len() - i,
    {
        r.push((s[i].0.clone(), s[i].1.clone()));
        proof {
            assert(pairs_of(s@.take(i + 1)) =~= pairs_of(s@.take(i as int)).push(
                (s@[i as int].0, s@[i as int].1),
            ));
        }
        i = i + 1;
    }
    proof {
        assert(s@.take(s@.len() as int) =~= s@);
    }
    r
}

/// The keys without `x`, in order.
pub fn keys_without(v: &Vec<String>, x: &String) -> (r: Vec<String>)
    ensures
        r@ == without(v@, x@),
{
    let mut r: Vec<String> = Vec::new();
    let mut i: usize = 0;
    while i < v.len()
        invariant
            0 <= i <= v@.len(),
            r@ == without(v@.take(i as int), x@),
        decreases v@.len() - i,
    {
        proof {
            assert(v@.take(i + 1).drop_last() =~= v@.take(i as int));
            assert(v@.take(i + 1).last() == v@[i as int]);
        }
        if v[i] != *x {
            r.push(v[i].clone());
        }
        i = i + 1;
    }
    proof {
        assert(v@.take(v@.len() as int) =~= v@);
    }
    r
}

/// The keys in text order.
pub fn sorted_keys_of(keys: &Vec<String>) -> (r: Vec<String>)
    ensures
        keys_in_order(r@, keys@),
{
    let mut entries: Vec<Entry> = Vec::new();
    let mut i: usize = 0;
    while i < keys.len()
        invariant
            0 <= i <= keys@.len(),
            entries@ == keys@.take(i as int).map_values(|k: String| (k, k, None::<i128>)),
        decreases keys@.len() - i,
    {
        entries.push((keys[i].clone(), keys[i].clone(), None));
        proof {
            assert(keys@.take(i + 1).map_values(|k: String| (k, k, None::<i128>)) =~= keys@.take(
                i as int,
            ).map_values(|k: String| (k, k, None::<i128>)).push(
                (keys@[i as int], keys@[i as int], None::<i128>),
            ));
        }
        i = i + 1;
    }
    proof {
        assert(keys@.take(keys@.len() as int) =~= keys@);
    }
    let sorted = sort_by_column(entries, true);
    let mut r: Vec<String> = Vec::new();
    let mut j: usize = 0;
    while j < sorted.len()
        invariant
            0 <= j <= sorted@.len(),
            r@ == sorted@.take(j as int).map_values(|e: Entry| e.0),
        decreases sorted@.len() - j,
    {
        r.push(sorted[j].0.clone());
        proof {
            assert(sorted@.take(j + 1).map_values(|e: Entry| e.0) =~= sorted@.take(
                j as int,
            ).map_values(|e: Entry| e.0).push(sorted@[j as int].0));
        }
        j = j + 1;
    }
    proof {
        assert(sorted@.take(sorted@.len() as int) =~= sorted@);
        assert(column_sorted(sorted@, true) && sorted@.to_multiset() == keys@.map_values(
            |k: String| (k, k, None::<i128>),
        ).to_multiset() && r@ == sorted@.map_values(|e: Entry| e.0));
    }
    r
}

/// The first known tag with the name `name`.
fn find_by_name(known: &Vec<(String, String)>, name: &String) -> (r: Option<usize>)
    ensures
        match r {
            Some(k) => k < known@.len() && known@[k as int].1@ == name@ && forall|j: int|
                0 <= j < k ==> known@[j].1@ != name@,
            None => forall|j: int| 0 <= j < known@.len() ==> known@[j].1@ != name@,
        },
{
    let mut i: usize = 0;
    while i < known.len()
        invariant
            0 <= i <= known@.len(),
            forall|j: int| 0 <= j < i ==> known@[j].1@ != name@,
        decreases known@.len() - i,
    {
        if known[i].1 == *name {
            return Some(i);
        }
        i = i + 1;
    }
    None
}

/// Whether some known tag has the name `name`.
pub open spec fn name_known(known: Seq<(String, String)>, name: Seq<char>) -> bool {
    exists|j: int| 0 <= j < known.len() && #[trigger] known[j].1@ == name
}

/// Choosing the known tag `key` took the field from `s` to `t` and the
/// group from `g` to `h`, with `sent` telling whether it was chosen.
pub open spec fn entered_known(s: TagInput, t: TagInput, g: InputTagGroup, h: InputTagGroup, key: String, sent: bool) -> bool {
    &&& sent == !string_views(g.old@).contains(key@)
    &&& sent ==> h.old@ == g.old@.push(key) && t.view_order@ == s.view_order@.push(key) && t.input@.len() == 0
    &&& !sent ==> h.old@ == g.old@ && t.message == Some(TagMessage::Exists)
}

impl TagInput {
    /// The list of offered tags for what is typed and chosen now, with the
    /// cursor on the first.
    pub fn reset_search_list(&mut self, known: &Vec<(String, String)>, group: &InputTagGroup)
        ensures
            search_matches(final(self).search_list@, known@, string_views(group.old@), old(self).input@),
            final(self).search_cursor == Some(0usize),
            final(self).input == old(self).input,
            final(self).message == old(self).message,
            final(self).view_order@ == old(self).view_order@,
            final(self).edit == old(self).edit,
            final(self).edit_message == old(self).edit_message,
            final(self).input_edit == old(self).input_edit,
    {
        let entries = entries_offered(known, &group.old, &self.input);
        let ghost given = entries@;
        let sorted = sort_by_column(entries, true);
        proof {
            assert(column_sorted(sorted@, true) && sorted@.to_multiset() == given.to_multiset()
                && pairs_of(sorted@) == pairs_of(sorted@));
        }
        self.search_list = pairs_from(sorted);
        self.search_cursor = Some(0);
    }

    /// A field showing the chosen tags of `group` in key order.
    pub fn new(known: &Vec<(String, String)>, group: &InputTagGroup) -> (s: Self)
        ensures
            s.input@.len() == 0,
            s.message is None,
            keys_in_order(s.view_order@, group.old@),
            search_matches(s.search_list@, known@, string_views(group.old@), Seq::empty()),
            s.search_cursor == Some(0usize),
            s.edit is None,
            s.edit_message is None,
            s.input_edit@.len() == 0,
    {
        let mut s = TagInput {
            input: String::new(),
            message: None,
            view_order: sorted_keys_of(&group.old),
            search_list: Vec::new(),
            search_cursor: None,
            edit: None,
            edit_message: None,
            input_edit: String::new(),
        };
        s.reset_search_list(known, group);
        s
    }

    /// The user typed: the text is kept, the offered tags follow it and the
    /// message is cleared.
    pub fn type_text(&mut self, text: String, known: &Vec<(String, String)>, group: &InputTagGroup)
        ensures
            final(self).input == text,
            final(self).message is None,
            search_matches(final(self).search_list@, known@, string_views(group.old@), text@),
            final(self).search_cursor == Some(0usize),
            final(self).view_order@ == old(self).view_order@,
    {
        self.input = text;
        self.reset_search_list(known, group);
        self.message = None;
    }

    /// Chooses the known tag `key`: refused with a message when it is already
    /// chosen; otherwise it is chosen, shown last and the typed text cleared.
    /// The result tells whether the parent is to be told.
    pub fn select_tag(&mut self, key: String, known: &Vec<(String, String)>, group: &mut InputTagGroup) -> (sent: bool)
        ensures
            sent == !string_views(old(group).old@).contains(key@),
            sent ==> final(group).old@ == old(group).old@.push(key) && final(self).view_order@
                == old(self).view_order@.push(key) && final(self).input@.len() == 0
                && final(self).message == old(self).message,
            !sent ==> final(group).old@ == old(group).old@ && final(self).view_order@
                == old(self).view_order@ && final(self).input == old(self).input
                && final(self).message == Some(TagMessage::Exists),
            final(group).new == old(group).new,
            final(group).edit == old(group).edit,
            final(group).delete == old(group).delete,
            search_matches(
                final(self).search_list@,
                known@,
                string_views(final(group).old@),
                final(self).input@,
            ),
    {
        if holds(&group.old, &key) {
            self.message = Some(TagMessage::Exists);
            self.reset_search_list(known, group);
            false
        } else {
            group.old.push(key.clone());
            self.view_order.push(key);
            self.input = String::new();
            self.reset_search_list(known, group);
            true
        }
    }

    /// Enter: a typed name of a known tag chooses it (the first known tag of
    /// that name); any other typed text becomes the name of a new tag. Nothing
    /// happens when nothing is typed. The result tells whether the parent is
    /// to be told.
    pub fn enter(&mut self, known: &Vec<(String, String)>, group: &mut InputTagGroup) -> (sent: bool)
        ensures
            old(self).input@.len() == 0 ==> !sent && *final(group) == *old(group),
            old(self).input@.len() == 0 ==> final(self).input == old(self).input,
            old(self).input@.len() == 0 ==> final(self).view_order@ == old(self).view_order@,
            old(self).input@.len() > 0 && !name_known(known@, old(self).input@) ==> {
                &&& sent
                &&& final(group).new == Some(old(self).input)
                &&& final(group).old == old(group).old
                &&& final(self).input@.len() == 0
                &&& final(self).view_order@ == old(self).view_order@
            },
            old(self).input@.len() > 0 && name_known(known@, old(self).input@) ==> exists|k: int|
                0 <= k < known@.len() && #[trigger] known@[k].1@ == old(self).input@
                    && (forall|j: int| 0 <= j < k ==> known@[j].1@ != old(self).input@)
                    && entered_known(*old(self), *final(self), *old(group), *final(group), known@[k].0, sent),
    {
        if self.input.as_str().is_empty() {
            return false;
        }
        match find_by_name(known, &self.input) {
            Some(k) => {
                let key = known[k].0.clone();
                self.select_tag(key, known, group)
            },
            None => {
                let typed = self.input.clone();
                group.new = Some(typed);
                self.input = String::new();
                self.reset_search_list(known, group);
                true
            },
        }
    }

    /// Unchooses the tag `key`.
    pub fn unselect_tag(&mut self, key: &String, known: &Vec<(String, String)>, group: &mut InputTagGroup)
        ensures
            final(group).old@ == without(old(group).old@, key@),
            final(self).view_order@ == without(old(self).view_order@, key@),
            final(group).new == old(group).new,
            final(group).edit == old(group).edit,
            final(group).delete == old(group).delete,
            search_matches(final(self).search_list@, known@, string_views(final(group).old@), old(self).input@),
    {
        group.old = keys_without(&group.old, key);
        self.view_order = keys_without(&self.view_order, key);
        self.reset_search_list(known, group);
    }

    /// The cursor moves up the offered list, from the first to the last.
    pub fn arrow_up(&mut self)
        requires
            old(self).search_cursor == Some(0usize) ==> old(self).search_list@.len() > 0,
        ensures
            final(self).search_cursor == match old(self).search_cursor {
                Some(i) => if i > 0 {
                    Some((i - 1) as usize)
                } else {
                    Some((old(self).search_list@.len() - 1) as usize)
                },
                None => None,
            },
            final(self).search_list@ == old(self).search_list@,
    {
        if let Some(index) = self.search_cursor {
            if index > 0 {
                self.search_cursor = Some(index - 1);
            } else {
                self.search_cursor = Some(self.search_list.len() - 1);
            }
        }
    }

    /// The cursor moves down the offered list, from the last to the first.
    pub fn arrow_down(&mut self)
        requires
            old(self).search_cursor is Some ==> old(self).search_list@.len() > 0,
            old(self).search_cursor is Some ==> old(self).search_cursor->0 < usize::MAX,
        ensures
            final(self).search_cursor == match old(self).search_cursor {
                Some(i) => if i == old(self).search_list@.len() - 1 {
                    Some(0usize)
                } else {
                    Some((i + 1) as usize)
                },
                None => None,
            },
            final(self).search_list@ == old(self).search_list@,
    {
        if let Some(index) = self.search_cursor {
            if index == self.search_list.len() - 1 {
                self.search_cursor = Some(0);
            } else {
                self.search_cursor = Some(index + 1);
            }
        }
    }

    /// Tab: the key of the offered tag under the cursor, to be chosen.
    pub fn tab(&self) -> (key: Option<String>)
        ensures
            key == match self.search_cursor {
                Some(i) => if i < self.search_list@.len() {
                    Some(self.search_list@[i as int].0)
                } else {
                    None
                },
                None => None,
            },
    {
        match self.search_cursor {
            Some(i) => if i < self.search_list.len() {
                Some(self.search_list[i].0.clone())
            } else {
                None
            },
            None => None,
        }
    }

    /// Backspace with nothing typed: the key of the tag shown last, to be
    /// unchosen.
    pub fn backspace(&self) -> (key: Option<String>)
        ensures
            key == (if self.input@.len() == 0 && self.view_order@.len() > 0 {
                Some(self.view_order@.last())
            } else {
                None
            }),
    {
        if self.input.as_str().is_empty() && self.view_order.len() > 0 {
            Some(self.view_order[self.view_order.len() - 1].clone())
        } else {
            None
        }
    }

    /// Starts editing the tag `key`.
    pub fn edit_tag(&mut self, key: String)
        ensures
            final(self).edit == Some(key),
            final(self).edit_message is None,
            final(self).input_edit == old(self).input_edit,
    {
        self.edit = Some(key);
        self.edit_message = None;
    }

    /// Asks for the tag `key` to be deleted; the parent is told.
    pub fn delete_tag(&mut self, key: String, group: &mut InputTagGroup)
        ensures
            final(group).delete == Some(key),
            final(group).old == old(group).old,
            final(group).new == old(group).new,
            final(group).edit == old(group).edit,
    {
        group.delete = Some(key);
    }

    /// The user typed a new name for the tag being edited.
    pub fn type_edit(&mut self, text: String)
        ensures
            final(self).input_edit == text,
            final(self).edit == old(self).edit,
    {
        self.input_edit = text;
    }

    /// Ends editing: a non-empty new name that no known tag has renames the
    /// tag being edited (and editing ends); a name a known tag has is
    /// refused with a message. The result tells whether the parent is to be
    /// told.
    pub fn edit_done(&mut self, known: &Vec<(String, String)>, group: &mut InputTagGroup) -> (sent: bool)
        ensures
            sent == (old(self).input_edit@.len() > 0 && old(self).edit is Some && !name_known(
                known@,
                old(self).input_edit@,
            )),
            sent ==> final(group).edit == Some((old(self).edit->0, old(self).input_edit)),
            sent ==> final(self).edit is None && final(self).input_edit@.len() == 0,
            sent ==> final(self).edit_message is None,
            !sent ==> final(group).edit == old(group).edit && final(self).edit == old(self).edit
                && final(self).input_edit == old(self).input_edit,
            !sent && old(self).input_edit@.len() > 0 && old(self).edit is Some
                ==> final(self).edit_message == Some(TagMessage::Exists),
            final(group).old == old(group).old,
            final(group).new == old(group).new,
            final(group).delete == old(group).delete,
    {
        if self.input_edit.as_str().is_empty() {
            return false;
        }
        match &self.edit {
            Some(key) => {
                match find_by_name(known, &self.input_edit) {
                    Some(_) => {
                        self.edit_message = Some(TagMessage::Exists);
                        false
                    },
                    None => {
                        self.edit_message = None;
                        group.edit = Some((key.clone(), self.input_edit.clone()));
                        self.input_edit = String::new();
                        self.edit = None;
                        true
                    },
                }
            },
            None => false,
        }
    }

    /// The known tags changed from `before` to `now`: the tags no longer
    /// known leave the shown order, the newly known ones are shown last (in
    /// the order now known), and the offered list is made anew.
    pub fn known_changed(
        &mut self,
        before: &Vec<(String, String)>,
        now: &Vec<(String, String)>,
        group: &InputTagGroup,
    )
        ensures
            final(self).view_order@ == kept_keys(old(self).view_order@, before@, now@) + new_keys(
                now@,
                before@,
            ),
            search_matches(final(self).search_list@, now@, string_views(group.old@), old(self).input@),
            final(self).input == old(self).input,
    {
        let before_keys = keys_of(before);
        let now_keys = keys_of(now);
        let mut order: Vec<String> = Vec::new();
        let mut i: usize = 0;
        while i < self.view_order.len()
            invariant
                0 <= i <= self.view_order@.len(),
                string_views(before_keys@) == key_views(before@),
                string_views(now_keys@) == key_views(now@),
                order@ == kept_keys(self.view_order@.take(i as int), before@, now@),
            decreases self.view_order@.len() - i,
        {
            proof {
                assert(self.view_order@.take(i + 1).drop_last() =~= self.view_order@.take(i as int));
                assert(self.view_order@.take(i + 1).last() == self.view_order@[i as int]);
            }
            let k = &self.view_order[i];
            if !(holds(&before_keys, k) && !holds(&now_keys, k)) {
                order.push(k.clone());
            }
            i = i + 1;
        }
        proof {
            assert(self.view_order@.take(self.view_order@.len() as int) =~= self.view_order@);
        }
        let ghost kept = order@;
        let mut j: usize = 0;
        while j < now.len()
            invariant
                0 <= j <= now@.len(),
                string_views(before_keys@) == key_views(before@),
                order@ == kept + new_keys(now@.take(j as int), before@),
            decreases now@.len() - j,
        {
            proof {
                assert(now@.take(j + 1).drop_last() =~= now@.take(j as int));
                assert(now@.take(j + 1).last() == now@[j as int]);
            }
            if !holds(&before_keys, &now[j].0) {
                order.push(now[j].0.clone());
                proof {
                    assert(order@ =~= kept + new_keys(now@.take(j + 1), before@));
                }
            }
            j = j + 1;
        }
        proof {
            assert(now@.take(now@.len() as int) =~= now@);
        }
        self.view_order = order;
        self.reset_search_list(now, group);
    }

    /// Stops editing.
    pub fn cancel_edit(&mut self)
        ensures
            final(self).input_edit@.len() == 0,
            final(self).edit is None,
    {
        self.input_edit = String::new();
        self.edit = None;
    }
}

/// Taking a key out of a list of keys drops every copy of that key and
/// keeps every other key, in order.
pub proof fn law_without_drops_only_the_key(v: Seq<String>, x: Seq<char>)
    ensures
        forall|k: int| 0 <= k < without(v, x).len() ==> (#[trigger] without(v, x)[k])@ != x,
        forall|i: int| 0 <= i < v.len() && (#[trigger] v[i])@ != x ==> without(v, x).contains(v[i]),
        forall|k: int| 0 <= k < without(v, x).len() ==> v.contains(#[trigger] without(v, x)[k]),
    decreases v.len(),
{
    if v.len() > 0 {
        let d = v.drop_last();
        law_without_drops_only_the_key(d, x);
        let w = without(d, x);
        assert forall|i: int| 0 <= i < v.len() && (#[trigger] v[i])@ != x implies without(v, x).contains(
            v[i],
        ) by {
            if i < v.len() - 1 {
                assert(d[i] == v[i]);
                let k = choose|k: int| 0 <= k < w.len() && w[k] == d[i];
                if v.last()@ != x {
                    assert(without(v, x)[k] == w[k]);
                }
            } else {
                assert(without(v, x)[w.len() as int] == v.last());
            }
        }
        assert forall|k: int| 0 <= k < without(v, x).len() implies v.contains(#[trigger] without(v, x)[k]) by {
            if k < w.len() {
                assert(without(v, x)[k] == w[k]);
                let i = choose|i: int| 0 <= i < d.len() && d[i] == w[k];
                assert(v[i] == d[i]);
            } else {
                assert(v[v.len() - 1] == without(v, x)[k]);
            }
        }
    }
}

/// The tags offered while typing are known tags not chosen yet; with
/// nothing typed, every known tag not chosen yet is offered.
pub proof fn law_offered_tags_are_unchosen(known: Seq<(String, String)>, chosen: Seq<Seq<char>>, typed: Seq<char>)
    ensures
        forall|k: int|
            0 <= k < offered_entries(known, chosen, typed).len() ==> !chosen.contains(
                (#[trigger] offered_entries(known, chosen, typed)[k]).0@,
            ) && known.contains(
                (offered_entries(known, chosen, typed)[k].0, offered_entries(known, chosen, typed)[k].1),
            ),
        typed.len() == 0 ==> forall|i: int|
            0 <= i < known.len() && !chosen.contains((#[trigger] known[i]).0@) ==> pairs_of(
                offered_entries(known, chosen, typed),
            ).contains(known[i]),
    decreases known.len(),
{
    if known.len() > 0 {
        let d = known.drop_last();
        law_offered_tags_are_unchosen(d, chosen, typed);
        let r = offered_entries(d, chosen, typed);
        let o = offered_entries(known, chosen, typed);
        assert forall|k: int| 0 <= k < o.len() implies !chosen.contains((#[trigger] o[k]).0@) && known.contains(
            (o[k].0, o[k].1),
        ) by {
            if k < r.len() {
                assert(o[k] == r[k]);
                let j = choose|j: int| 0 <= j < d.len() && d[j] == (r[k].0, r[k].1);
                assert(known[j] == d[j]);
            } else {
                assert(known[known.len() - 1] == (o[k].0, o[k].1));
            }
        }
        if typed.len() == 0 {
            assert forall|i: int| 0 <= i < known.len() && !chosen.contains((#[trigger] known[i]).0@) implies pairs_of(
                o,
            ).contains(known[i]) by {
                if i < known.len() - 1 {
                    assert(d[i] == known[i]);
                    let k = choose|k: int| 0 <= k < pairs_of(r).len() && pairs_of(r)[k] == d[i];
                    assert(pairs_of(o)[k] == pairs_of(r)[k]);
                } else {
                    assert(pairs_of(o)[r.len() as int] == known[i]);
                }
            }
        }
    }
}

} // verus!