//! The state of the interactive browser: the filtered list of labels, the
//! selection, the search mode, toasts, and the add/edit form. Rendering and
//! key handling stand outside the library.
use crate::primitives::{lower_of, lowercase, pop_char, push_char};
use crate::vault::{entries_view, EntryView, VaultEntry};
use vstd::prelude::*;
use vstd::view::View as _;

verus! {

/// Which field of an entry to hand out.
#[derive(Clone, Copy, Debug, PartialEq, Eq, Structural)]
pub enum GetField {
    Password,
    User,
    Notes,
}

#[derive(Clone, Copy, Debug, PartialEq, Eq, Structural)]
pub enum Mode {
    Normal,
    Search,
}

#[derive(Clone, Copy, Debug, PartialEq, Eq, Structural)]
pub enum View {
    List,
    Details,
    AddModal,
    EditModal,
    ConfirmDelete,
}

#[derive(Clone, Copy, Debug, PartialEq, Eq, Structural)]
pub enum FormField {
    Label,
    User,
    Notes,
}

/// `needle` occurs in `hay` at some position.
pub open spec fn contains_sub(hay: Seq<char>, needle: Seq<char>) -> bool {
    exists|i: int| 0 <= i && i + needle.len() <= hay.len() && #[trigger] hay.subrange(i, i + needle.len()) == needle
}

/// A label is shown under a filter when the filter is empty or its lower
/// case occurs in the label's lower case.
pub open spec fn matches_filter(filter: Seq<char>, label: Seq<char>) -> bool {
    filter.len() == 0 || contains_sub(lower_of(label), lower_of(filter))
}

/// The positions of the entries shown under `filter`, in order.
pub open spec fn shown(entries: Seq<EntryView>, filter: Seq<char>) -> Seq<int>
    decreases entries.len(),
{
    if entries.len() == 0 {
        seq![]
    } else {
        let rest = shown(entries.drop_last(), filter);
        if matches_filter(filter, entries.last().label) {
            rest.push(entries.len() - 1)
        } else {
            rest
        }
    }
}

/// The next form field, cyclically.
pub open spec fn next_of(f: FormField) -> FormField {
    match f {
        FormField::Label => FormField::User,
        FormField::User => FormField::Notes,
        FormField::Notes => FormField::Label,
    }
}

pub open spec fn prev_of(f: FormField) -> FormField {
    match f {
        FormField::Label => FormField::Notes,
        FormField::User => FormField::Label,
        FormField::Notes => FormField::User,
    }
}

/// Text search: `needle` occurs in `hay`.
pub fn str_contains(hay: &str, needle: &str) -> (r: bool)
    ensures
        r == contains_sub(hay@, needle@),
{
    let n = hay.unicode_len();
    let m = needle.unicode_len();
    if m > n {
        assert(!contains_sub(hay@, needle@));
        return false;
    }
    let mut i: usize = 0;
    while i <= n - m
        invariant
            n == hay@.len(),
            m == needle@.len(),
            m <= n,
            i <= n - m + 1,
            forall|k: int| 0 <= k < i ==> #[trigger] hay@.subrange(k, k + m) != needle@,
        decreases n - i,
    {
        let mut j: usize = 0;
        let mut same = true;
        while j < m
            invariant
                n == hay@.len(),
                m == needle@.len(),
                i + m <= n,
                j <= m,
                same == forall|t: int| 0 <= t < j ==> hay@[i + t] == needle@[t],
            decreases m - j,
        {
            if hay.get_char(i + j) != needle.get_char(j) {
                same = false;
            }
            j = j + 1;
        }
        if same {
            assert(hay@.subrange(i as int, i + m) =~= needle@);
            return true;
        }
        assert(hay@.subrange(i as int, i + m) != needle@) by {
            let t = choose|t: int| 0 <= t < m && hay@[i + t] != needle@[t];
            assert(hay@.subrange(i as int, i + m)[t] == hay@[i + t]);
        }
        i = i + 1;
    }
    assert forall|k: int| 0 <= k && k + m <= n implies #[trigger] hay@.subrange(k, k + m) != needle@ by {
        assert(k < i);
    }
    false
}

/// Whether `label` is shown under `filter`: case-insensitive substring.
pub fn label_matches(filter: &str, label: &str) -> (r: bool)
    ensures
        r == matches_filter(filter@, label@),
{
    if filter.unicode_len() == 0 {
        return true;
    }
    let q = lowercase(filter);
    let l = lowercase(label);
    str_contains(l.as_str(), q.as_str())
}

/// The browser state.
pub struct App {
    entries: Vec<VaultEntry>,
    filtered: Vec<usize>,
    selected: usize,
    filter: String,
    toast: Option<String>,
    toast_ticks: u16,
    mode: Mode,
    view: View,
    form_field: FormField,
    form_label: String,
    form_user: String,
    form_notes: String,
    form_original_label: String,
}

/// How many ticks a toast stays.
pub const TOAST_TICKS: u16 = 10;

impl App {
    /// The list shown is the entries matching the filter, and the
    /// selection lies in it (or is 0 when it is empty).
    pub closed spec fn wf(&self) -> bool {
        &&& self.filtered@.len() == shown(entries_view(self.entries@), self.filter@).len()
        &&& forall|k: int|
            0 <= k < self.filtered@.len() ==> #[trigger] self.filtered@[k] as int == shown(
                entries_view(self.entries@),
                self.filter@,
            )[k]
        &&& forall|k: int| 0 <= k < self.filtered@.len() ==> #[trigger] self.filtered@[k] < self.entries@.len()
        &&& (self.filtered@.len() == 0 ==> self.selected == 0)
        &&& (self.filtered@.len() > 0 ==> self.selected < self.filtered@.len())
        &&& self.toast_ticks == 0 ==> self.toast is None
    }

    pub closed spec fn entries_spec(&self) -> Seq<EntryView> {
        entries_view(self.entries@)
    }

    pub closed spec fn filter_spec(&self) -> Seq<char> {
        self.filter@
    }

    pub closed spec fn selected_spec(&self) -> nat {
        self.selected as nat
    }

    pub closed spec fn shown_count(&self) -> nat {
        self.filtered@.len()
    }

    pub closed spec fn toast_spec(&self) -> Option<Seq<char>> {
        match self.toast {
            Some(t) => Some(t@),
            None => None,
        }
    }

    pub closed spec fn ticks_spec(&self) -> u16 {
        self.toast_ticks
    }

    pub closed spec fn mode_spec(&self) -> Mode {
        self.mode
    }

    pub closed spec fn view_spec(&self) -> View {
        self.view
    }

    pub closed spec fn form_field_spec(&self) -> FormField {
        self.form_field
    }

    pub closed spec fn form_label_spec(&self) -> Seq<char> {
        self.form_label@
    }

    pub closed spec fn form_user_spec(&self) -> Seq<char> {
        self.form_user@
    }

    pub closed spec fn form_notes_spec(&self) -> Seq<char> {
        self.form_notes@
    }

    pub closed spec fn form_original_label_spec(&self) -> Seq<char> {
        self.form_original_label@
    }

    pub fn mode(&self) -> (r: Mode)
        ensures
            r == self.mode_spec(),
    {
        self.mode
    }

    pub fn view(&self) -> (r: View)
        ensures
            r == self.view_spec(),
    {
        self.view
    }

    pub fn form_field(&self) -> (r: FormField)
        ensures
            r == self.form_field_spec(),
    {
        self.form_field
    }

    /// The form's label, user and notes texts.
    pub fn form_texts(&self) -> (r: (&str, &str, &str))
        ensures
            r.0@ == self.form_label_spec(),
            r.1@ == self.form_user_spec(),
            r.2@ == self.form_notes_spec(),
    {
        (self.form_label.as_str(), self.form_user.as_str(), self.form_notes.as_str())
    }

    /// The label the edited entry had when the form opened.
    pub fn form_original_label(&self) -> (r: &str)
        ensures
            r@ == self.form_original_label_spec(),
    {
        self.form_original_label.as_str()
    }

    /// The current filter text.
    pub fn filter(&self) -> (r: &str)
        ensures
            r@ == self.filter_spec(),
    {
        self.filter.as_str()
    }

    /// The selected position in the shown list.
    pub fn selected(&self) -> (r: usize)
        ensures
            r == self.selected_spec(),
    {
        self.selected
    }

    /// A browser over `entries`, unfiltered, first entry selected.
    pub fn new(entries: Vec<VaultEntry>) -> (r: Self)
        ensures
            r.wf(),
            r.entries_spec() == entries_view(entries@),
            r.filter_spec().len() == 0,
            r.selected_spec() == 0,
            r.shown_count() == entries@.len(),
            r.mode_spec() == Mode::Normal,
            r.view_spec() == View::List,
            r.toast_spec() is None,
    {
        let mut app = App {
            entries,
            filtered: Vec::new(),
            selected: 0,
            filter: String::new(),
            toast: None,
            toast_ticks: 0,
            mode: Mode::Normal,
            view: View::List,
            form_field: FormField::Label,
            form_label: String::new(),
            form_user: String::new(),
            form_notes: String::new(),
            form_original_label: String::new(),
        };
        app.recompute();
        proof {
            lemma_shown_all(entries_view(app.entries@), app.filter@);
        }
        app
    }

    /// The entry positions shown.
    fn recompute(&mut self)
        requires
            old(self).toast_ticks == 0 ==> old(self).toast is None,
        ensures
            final(self).wf(),
            final(self).entries == old(self).entries,
            final(self).filter == old(self).filter,
            final(self).toast == old(self).toast,
            final(self).toast_ticks == old(self).toast_ticks,
            final(self).mode_spec() == old(self).mode_spec(),
            final(self).view_spec() == old(self).view_spec(),
            final(self).form_field_spec() == old(self).form_field_spec(),
            old(self).selected < final(self).filtered@.len() ==> final(self).selected == old(self).selected,
            final(self).filtered@.len() > 0 && old(self).selected >= final(self).filtered@.len()
                ==> final(self).selected == final(self).filtered@.len() - 1,
    {
        let ghost ev = entries_view(self.entries@);
        let q = lowercase(self.filter.as_str());
        let empty = self.filter.unicode_len() == 0;
        let mut out: Vec<usize> = Vec::new();
        let mut i: usize = 0;
        while i < self.entries.len()
            invariant
                ev == entries_view(self.entries@),
                q@ == lower_of(self.filter@),
                empty == (self.filter@.len() == 0),
                i <= self.entries@.len(),
                out@.len() == shown(ev.subrange(0, i as int), self.filter@).len(),
                forall|k: int| 0 <= k < out@.len() ==> #[trigger] out@[k] as int == shown(ev.subrange(0, i as int), self.filter@)[k],
                forall|k: int| 0 <= k < out@.len() ==> #[trigger] out@[k] < i,
            decreases self.entries@.len() - i,
        {
            let ghost pre = ev.subrange(0, i as int);
            let ghost next = ev.subrange(0, i as int + 1);
            assert(next.drop_last() =~= pre);
            assert(next.last() == self.entries@[i as int]@);
            let keep = empty || {
                let l = lowercase(self.entries[i].label.as_str());
                str_contains(l.as_str(), q.as_str())
            };
            if keep {
                out.push(i);
            }
            i = i + 1;
        }
        assert(ev.subrange(0, self.entries@.len() as int) =~= ev);
        self.filtered = out;
        if self.selected >= self.filtered.len() {
            self.selected = if self.filtered.len() == 0 { 0 } else { self.filtered.len() - 1 };
        }
    }

    /// Move the selection down, stopping at the last entry shown.
    pub fn next(&mut self)
        requires
            old(self).wf(),
        ensures
            final(self).wf(),
            final(self).shown_count() == old(self).shown_count(),
            final(self).selected_spec() == if old(self).shown_count() == 0 {
                0
            } else if old(self).selected_spec() + 1 < old(self).shown_count() {
                old(self).selected_spec() + 1
            } else {
                old(self).selected_spec()
            },
    {
        if self.filtered.len() == 0 {
            return;
        }
        if self.selected + 1 < self.filtered.len() {
            self.selected = self.selected + 1;
        }
    }

    /// Move the selection up, stopping at the first.
    pub fn prev(&mut self)
        requires
            old(self).wf(),
        ensures
            final(self).wf(),
            final(self).shown_count() == old(self).shown_count(),
            final(self).selected_spec() == if old(self).selected_spec() > 0 {
                old(self).selected_spec() - 1
            } else {
                0
            },
    {
        if self.filtered.len() == 0 {
            return;
        }
        if self.selected > 0 {
            self.selected = self.selected - 1;
        }
    }

    pub fn enter_search(&mut self)
        ensures
            final(self).mode_spec() == Mode::Search,
            final(self).wf() == old(self).wf(),
    {
        self.mode = Mode::Search;
    }

    pub fn exit_search(&mut self)
        ensures
            final(self).mode_spec() == Mode::Normal,
            final(self).wf() == old(self).wf(),
    {
        self.mode = Mode::Normal;
    }

    /// Extend the filter by one character and refilter.
    pub fn push_filter(&mut self, c: char)
        requires
            old(self).wf(),
        ensures
            final(self).wf(),
            final(self).filter_spec() == old(self).filter_spec().push(c),
            final(self).entries_spec() == old(self).entries_spec(),
    {
        push_char(&mut self.filter, c);
        self.recompute();
    }

    /// Drop the filter's last character, if any, and refilter.
    pub fn pop_filter(&mut self)
        requires
            old(self).wf(),
        ensures
            final(self).wf(),
            final(self).filter_spec() == if old(self).filter_spec().len() == 0 {
                old(self).filter_spec()
            } else {
                old(self).filter_spec().drop_last()
            },
            final(self).entries_spec() == old(self).entries_spec(),
    {
        let _ = pop_char(&mut self.filter);
        self.recompute();
    }

    /// Show a message for the next ticks.
    pub fn toast(&mut self, msg: String)
        requires
            old(self).wf(),
        ensures
            final(self).wf(),
            final(self).toast_spec() == Some(msg@),
            final(self).ticks_spec() == TOAST_TICKS,
    {
        self.toast = Some(msg);
        self.toast_ticks = TOAST_TICKS;
    }

    pub fn toast_message(&self) -> (r: Option<&str>)
        ensures
            match self.toast_spec() {
                Some(t) => (r matches Some(s) && s@ == t),
                None => r is None,
            },
    {
        match &self.toast {
            Some(t) => Some(t.as_str()),
            None => None,
        }
    }

    /// One tick: the toast fades when its ticks run out.
    pub fn tick(&mut self)
        requires
            old(self).wf(),
        ensures
            final(self).wf(),
            old(self).ticks_spec() > 0 ==> final(self).ticks_spec() == old(self).ticks_spec() - 1,
            old(self).ticks_spec() == 0 ==> final(self).ticks_spec() == 0,
            final(self).ticks_spec() == 0 ==> final(self).toast_spec() is None,
            final(self).ticks_spec() > 0 ==> final(self).toast_spec() == old(self).toast_spec(),
    {
        if self.toast_ticks > 0 {
            self.toast_ticks = self.toast_ticks - 1;
            if self.toast_ticks == 0 {
                self.toast = None;
            }
        }
    }

    /// The labels shown, in order.
    pub fn visible_labels(&self) -> (r: Vec<String>)
        requires
            self.wf(),
        ensures
            r@.len() == self.shown_count(),
            forall|k: int|
                0 <= k < r@.len() ==> #[trigger] r@[k]@ == self.entries_spec()[shown(
                    self.entries_spec(),
                    self.filter_spec(),
                )[k]].label,
    {
        let mut out: Vec<String> = Vec::new();
        let mut i: usize = 0;
        while i < self.filtered.len()
            invariant
                self.wf(),
                i <= self.filtered@.len(),
                out@.len() == i,
                forall|k: int|
                    0 <= k < i ==> #[trigger] out@[k]@ == self.entries@[self.filtered@[k] as int].label@,
            decreases self.filtered@.len() - i,
        {
            let idx = self.filtered[i];
            out.push(self.entries[idx].label.clone());
            i = i + 1;
        }
        out
    }

    /// Replace the entries and refilter.
    pub fn replace_entries(&mut self, new_entries: Vec<VaultEntry>)
        requires
            old(self).wf(),
        ensures
            final(self).wf(),
            final(self).entries_spec() == entries_view(new_entries@),
            final(self).filter_spec() == old(self).filter_spec(),
    {
        self.entries = new_entries;
        self.recompute();
    }

    /// A field of the selected entry, if one is shown.
    pub fn selected_field(&self, field: GetField) -> (r: Option<String>)
        requires
            self.wf(),
        ensures
            self.shown_count() == 0 ==> r is None,
            self.shown_count() > 0 ==> {
                let e = self.entries_spec()[shown(self.entries_spec(), self.filter_spec())[self.selected_spec() as int]];
                match field {
                    GetField::Password => (r matches Some(s) && s@ == e.password),
                    GetField::User => match e.username {
                        Some(u) => (r matches Some(s) && s@ == u),
                        None => r is None,
                    },
                    GetField::Notes => match e.notes {
                        Some(n) => (r matches Some(s) && s@ == n),
                        None => r is None,
                    },
                }
            },
    {
        if self.filtered.len() == 0 {
            return None;
        }
        let e = &self.entries[self.filtered[self.selected]];
        match field {
            GetField::Password => Some(String::from_str(e.password.expose_secret())),
            GetField::User => match &e.username {
                Some(u) => Some(String::from_str(u.expose_secret())),
                None => None,
            },
            GetField::Notes => match &e.notes {
                Some(n) => Some(n.clone()),
                None => None,
            },
        }
    }

    /// The label of the selected entry, if one is shown.
    pub fn selected_label(&self) -> (r: Option<String>)
        requires
            self.wf(),
        ensures
            self.shown_count() == 0 ==> r is None,
            self.shown_count() > 0 ==> (r matches Some(s) && s@ == self.entries_spec()[shown(
                self.entries_spec(),
                self.filter_spec(),
            )[self.selected_spec() as int]].label),
    {
        if self.filtered.len() == 0 {
            return None;
        }
        Some(self.entries[self.filtered[self.selected]].label.clone())
    }

    pub fn enter_details(&mut self)
        ensures
            final(self).view_spec() == View::Details,
            final(self).wf() == old(self).wf(),
    {
        self.view = View::Details;
    }

    pub fn back_to_list(&mut self)
        ensures
            final(self).view_spec() == View::List,
            final(self).wf() == old(self).wf(),
    {
        self.view = View::List;
    }

    /// Open an empty add form on the label field.
    pub fn enter_add(&mut self)
        ensures
            final(self).view_spec() == View::AddModal,
            final(self).form_field_spec() == FormField::Label,
            final(self).form_label_spec().len() == 0 && final(self).form_user_spec().len() == 0
                && final(self).form_notes_spec().len() == 0 && final(self).form_original_label_spec().len() == 0,
            final(self).wf() == old(self).wf(),
    {
        self.view = View::AddModal;
        self.form_field = FormField::Label;
        self.form_label = String::new();
        self.form_user = String::new();
        self.form_notes = String::new();
        self.form_original_label = String::new();
    }

    /// Open the edit form, filled from the selected entry when one is shown.
    pub fn enter_edit(&mut self)
        requires
            old(self).wf(),
        ensures
            final(self).wf(),
            final(self).view_spec() == View::EditModal,
            final(self).form_field_spec() == FormField::Label,
            old(self).shown_count() > 0 ==> {
                let e = old(self).entries_spec()[shown(old(self).entries_spec(), old(self).filter_spec())[old(self).selected_spec() as int]];
                &&& final(self).form_label_spec() == e.label
                &&& final(self).form_original_label_spec() == e.label
                &&& final(self).form_user_spec() == match e.username {
                    Some(u) => u,
                    None => Seq::<char>::empty(),
                }
                &&& final(self).form_notes_spec() == match e.notes {
                    Some(n) => n,
                    None => Seq::<char>::empty(),
                }
            },
    {
        self.view = View::EditModal;
        self.form_field = FormField::Label;
        if self.filtered.len() > 0 {
            let idx = self.filtered[self.selected];
            let label = self.entries[idx].label.clone();
            let user = match &self.entries[idx].username {
                Some(u) => String::from_str(u.expose_secret()),
                None => String::new(),
            };
            let notes = match &self.entries[idx].notes {
                Some(n) => n.clone(),
                None => String::new(),
            };
            self.form_original_label = label.clone();
            self.form_label = label;
            self.form_user = user;
            self.form_notes = notes;
        }
    }

    pub fn enter_confirm_delete(&mut self)
        ensures
            final(self).view_spec() == View::ConfirmDelete,
            final(self).wf() == old(self).wf(),
    {
        self.view = View::ConfirmDelete;
    }

    pub fn cancel_confirm_delete(&mut self)
        ensures
            final(self).view_spec() == View::Details,
            final(self).wf() == old(self).wf(),
    {
        self.view = View::Details;
    }

    pub fn next_field(&mut self)
        ensures
            final(self).form_field_spec() == next_of(old(self).form_field_spec()),
            final(self).wf() == old(self).wf(),
    {
        self.form_field = match self.form_field {
            FormField::Label => FormField::User,
            FormField::User => FormField::Notes,
            FormField::Notes => FormField::Label,
        };
    }

    pub fn prev_field(&mut self)
        ensures
            final(self).form_field_spec() == prev_of(old(self).form_field_spec()),
            final(self).wf() == old(self).wf(),
    {
        self.form_field = match self.form_field {
            FormField::Label => FormField::Notes,
            FormField::User => FormField::Label,
            FormField::Notes => FormField::User,
        };
    }

    /// Type a character into the focused form field.
    pub fn update_form_char(&mut self, c: char)
        ensures
            final(self).wf() == old(self).wf(),
            final(self).form_field_spec() == old(self).form_field_spec(),
            final(self).form_label_spec() == if old(self).form_field_spec() == FormField::Label {
                old(self).form_label_spec().push(c)
            } else {
                old(self).form_label_spec()
            },
            final(self).form_user_spec() == if old(self).form_field_spec() == FormField::User {
                old(self).form_user_spec().push(c)
            } else {
                old(self).form_user_spec()
            },
            final(self).form_notes_spec() == if old(self).form_field_spec() == FormField::Notes {
                old(self).form_notes_spec().push(c)
            } else {
                old(self).form_notes_spec()
            },
    {
        match self.form_field {
            FormField::Label => push_char(&mut self.form_label, c),
            FormField::User => push_char(&mut self.form_user, c),
            FormField::Notes => push_char(&mut self.form_notes, c),
        }
    }

    /// Delete the last character of the focused form field.
    pub fn backspace_form(&mut self)
        ensures
            final(self).wf() == old(self).wf(),
            final(self).form_field_spec() == old(self).form_field_spec(),
            final(self).form_label_spec() == if old(self).form_field_spec() == FormField::Label && old(self).form_label_spec().len() > 0 {
                old(self).form_label_spec().drop_last()
            } else {
                old(self).form_label_spec()
            },
            final(self).form_user_spec() == if old(self).form_field_spec() == FormField::User && old(self).form_user_spec().len() > 0 {
                old(self).form_user_spec().drop_last()
            } else {
                old(self).form_user_spec()
            },
            final(self).form_notes_spec() == if old(self).form_field_spec() == FormField::Notes && old(self).form_notes_spec().len() > 0 {
                old(self).form_notes_spec().drop_last()
            } else {
                old(self).form_notes_spec()
            },
    {
        match self.form_field {
            FormField::Label => {
                let _ = pop_char(&mut self.form_label);
            },
            FormField::User => {
                let _ = pop_char(&mut self.form_user);
            },
            FormField::Notes => {
                let _ = pop_char(&mut self.form_notes);
            },
        }
    }

    pub fn cancel_modal(&mut self)
        ensures
            final(self).view_spec() == View::List,
            final(self).wf() == old(self).wf(),
    {
        self.view = View::List;
    }
}

proof fn lemma_shown_all(entries: Seq<EntryView>, filter: Seq<char>)
    requires
        filter.len() == 0,
    ensures
        shown(entries, filter).len() == entries.len(),
    decreases entries.len(),
{
    if entries.len() > 0 {
        lemma_shown_all(entries.drop_last(), filter);
    }
}

} // verus!
