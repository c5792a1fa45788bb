//! The entry form and the text-editing commands shared by every input field.
use vstd::prelude::*;

use crate::model::PasswordEntry;
use crate::text::{char_is_whitespace, is_white_space, string_clear, string_pop, trim_whitespace_end, zeroize_string};

verus! {

/// The fields of the add/edit entry form, in tab order.
#[derive(Clone, Copy, Debug, PartialEq, Eq)]
pub enum AddField {
    Title,
    Username,
    Password,
    Url,
    Notes,
}

/// The add/edit entry form: the focused field and the text of each field.
pub struct AddEntryForm {
    field: AddField,
    title: String,
    username: String,
    password: String,
    url: String,
    notes: String,
}

/// The abstract state of the form.
pub struct FormView {
    pub field: AddField,
    pub title: Seq<char>,
    pub username: Seq<char>,
    pub password: Seq<char>,
    pub url: Seq<char>,
    pub notes: Seq<char>,
}

impl View for AddEntryForm {
    type V = FormView;

    closed spec fn view(&self) -> FormView {
        FormView {
            field: self.field,
            title: self.title@,
            username: self.username@,
            password: self.password@,
            url: self.url@,
            notes: self.notes@,
        }
    }
}

/// The field after `f` in tab order; the last field stays put.
pub open spec fn next_of(f: AddField) -> AddField {
    match f {
        AddField::Title => AddField::Username,
        AddField::Username => AddField::Password,
        AddField::Password => AddField::Url,
        AddField::Url => AddField::Notes,
        AddField::Notes => AddField::Notes,
    }
}

/// The field before `f` in tab order; the first field stays put.
pub open spec fn previous_of(f: AddField) -> AddField {
    match f {
        AddField::Title => AddField::Title,
        AddField::Username => AddField::Title,
        AddField::Password => AddField::Username,
        AddField::Url => AddField::Password,
        AddField::Notes => AddField::Url,
    }
}

/// The text of a field.
pub open spec fn field_text(v: FormView, f: AddField) -> Seq<char> {
    match f {
        AddField::Title => v.title,
        AddField::Username => v.username,
        AddField::Password => v.password,
        AddField::Url => v.url,
        AddField::Notes => v.notes,
    }
}

/// The form with the text of field `f` replaced.
pub open spec fn with_field_text(v: FormView, f: AddField, t: Seq<char>) -> FormView {
    match f {
        AddField::Title => FormView { title: t, ..v },
        AddField::Username => FormView { username: t, ..v },
        AddField::Password => FormView { password: t, ..v },
        AddField::Url => FormView { url: t, ..v },
        AddField::Notes => FormView { notes: t, ..v },
    }
}

/// An empty form focused on the title.
pub open spec fn empty_form() -> FormView {
    FormView {
        field: AddField::Title,
        title: Seq::empty(),
        username: Seq::empty(),
        password: Seq::empty(),
        url: Seq::empty(),
        notes: Seq::empty(),
    }
}

/// The length of `s[..end]` once the trailing run of non-whitespace is dropped.
pub open spec fn trim_word_end(s: Seq<char>, end: int) -> int
    decreases end,
{
    if end > 0 && !is_white_space(s[end - 1]) {
        trim_word_end(s, end - 1)
    } else {
        end
    }
}

/// `s` without its trailing whitespace and then its last word.
pub open spec fn without_previous_word(s: Seq<char>) -> Seq<char> {
    s.subrange(0, trim_word_end(s, trim_whitespace_end(s, s.len() as int)))
}

/// Trimming never lengthens the text.
proof fn lemma_trim_bounds(s: Seq<char>, end: int)
    requires
        0 <= end,
    ensures
        0 <= trim_whitespace_end(s, end) <= end,
        0 <= trim_word_end(s, end) <= end,
    decreases end,
{
    if end > 0 {
        lemma_trim_bounds(s, end - 1);
    }
}

impl AddField {
    /// The next field in tab order (the last field stays put).
    pub fn next(self) -> (f: AddField)
        ensures
            f == next_of(self),
    {
        match self {
            AddField::Title => AddField::Username,
            AddField::Username => AddField::Password,
            AddField::Password => AddField::Url,
            AddField::Url => AddField::Notes,
            AddField::Notes => AddField::Notes,
        }
    }

    /// The previous field in tab order (the first field stays put).
    pub fn previous(self) -> (f: AddField)
        ensures
            f == previous_of(self),
    {
        match self {
            AddField::Title => AddField::Title,
            AddField::Username => AddField::Title,
            AddField::Password => AddField::Username,
            AddField::Url => AddField::Password,
            AddField::Notes => AddField::Url,
        }
    }
}

/// The last character of `s` (`s.chars().next_back()`).
#[verifier::external_body]
fn last_char(s: &str) -> (c: Option<char>)
    ensures
        s@.len() == 0 ==> c is None,
        s@.len() > 0 ==> c == Some(s@.last()),
{
    s.chars().next_back()
}

/// Deletes the word before the end of the text: first any trailing
/// whitespace, then the run of non-whitespace characters before it.
pub fn delete_previous_word(value: &mut String)
    ensures
        final(value)@ == without_previous_word(old(value)@),
{
    let ghost s = old(value)@;
    proof {
        lemma_trim_bounds(s, s.len() as int);
        lemma_trim_bounds(s, trim_whitespace_end(s, s.len() as int));
    }
    loop
        invariant
            value@ == s.subrange(0, value@.len() as int),
            value@.len() <= s.len(),
            trim_whitespace_end(s, s.len() as int) == trim_whitespace_end(s, value@.len() as int),
        ensures
            value@ == s.subrange(0, trim_whitespace_end(s, s.len() as int)),
        decreases value@.len(),
    {
        match last_char(value.as_str()) {
            Some(c) => {
                if !char_is_whitespace(c) {
                    break;
                }
                string_pop(value);
            },
            None => break,
        }
    }
    loop
        invariant
            value@ == s.subrange(0, value@.len() as int),
            value@.len() <= s.len(),
            trim_word_end(s, trim_whitespace_end(s, s.len() as int)) == trim_word_end(s, value@.len() as int),
        ensures
            value@ == without_previous_word(s),
        decreases value@.len(),
    {
        match last_char(value.as_str()) {
            Some(c) => {
                if char_is_whitespace(c) {
                    break;
                }
                string_pop(value);
            },
            None => break,
        }
    }
}

/// Wipes and empties an input field.
pub fn clear_text_input(value: &mut String)
    ensures
        final(value)@ == Seq::<char>::empty(),
{
    zeroize_string(value);
    string_clear(value);
}

impl AddEntryForm {
    /// An empty form focused on the title.
    pub fn new() -> (form: AddEntryForm)
        ensures
            form@ == empty_form(),
    {
        AddEntryForm {
            field: AddField::Title,
            title: String::new(),
            username: String::new(),
            password: String::new(),
            url: String::new(),
            notes: String::new(),
        }
    }

    /// Wipes every field and focuses the title.
    pub fn reset(&mut self)
        ensures
            final(self)@ == empty_form(),
    {
        clear_text_input(&mut self.title);
        clear_text_input(&mut self.username);
        clear_text_input(&mut self.password);
        clear_text_input(&mut self.url);
        clear_text_input(&mut self.notes);
        self.field = AddField::Title;
    }

    /// Resets the form and fills it with the fields of an entry, focusing the
    /// title.
    pub fn load_from_entry(&mut self, entry: &PasswordEntry)
        ensures
            final(self)@ == (FormView {
                field: AddField::Title,
                title: entry.title@,
                username: entry.username@,
                password: entry.password@,
                url: entry.url@,
                notes: entry.notes@,
            }),
    {
        self.reset();
        self.title.append(entry.title.as_str());
        self.username.append(entry.username.as_str());
        self.password.append(entry.password.as_str());
        self.url.append(entry.url.as_str());
        self.notes.append(entry.notes.as_str());
    }

    /// The focused field.
    pub fn field(&self) -> (f: AddField)
        ensures
            f == self@.field,
    {
        self.field
    }

    /// Focuses a field.
    pub fn set_field(&mut self, f: AddField)
        ensures
            final(self)@ == (FormView { field: f, ..old(self)@ }),
    {
        self.field = f;
    }

    /// The text of a field.
    pub fn value(&self, field: AddField) -> (t: &str)
        ensures
            t@ == field_text(self@, field),
    {
        match field {
            AddField::Title => self.title.as_str(),
            AddField::Username => self.username.as_str(),
            AddField::Password => self.password.as_str(),
            AddField::Url => self.url.as_str(),
            AddField::Notes => self.notes.as_str(),
        }
    }

    /// The text of the focused field, for editing.
    pub fn current_value_mut(&mut self) -> (t: &mut String)
        ensures
            t@ == field_text(old(self)@, old(self)@.field),
            final(self)@ == with_field_text(old(self)@, old(self)@.field, final(t)@),
    {
        match self.field {
            AddField::Title => &mut self.title,
            AddField::Username => &mut self.username,
            AddField::Password => &mut self.password,
            AddField::Url => &mut self.url,
            AddField::Notes => &mut self.notes,
        }
    }

    /// Moves the focus to the next field.
    pub fn next_field(&mut self)
        ensures
            final(self)@ == (FormView { field: next_of(old(self)@.field), ..old(self)@ }),
    {
        self.field = self.field.next();
    }

    /// Moves the focus to the previous field.
    pub fn previous_field(&mut self)
        ensures
            final(self)@ == (FormView { field: previous_of(old(self)@.field), ..old(self)@ }),
    {
        self.field = self.field.previous();
    }
}

} // verus!
