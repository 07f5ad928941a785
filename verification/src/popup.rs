//! The event-entry popup: a five-field form (start date, start time, end
//! date, end time, description) that the user fills one field at a time.
//! The form itself is pure state — which field is active and what text each
//! field holds; reading keys and parsing the finished form into an event
//! belong to the surrounding application.

use vstd::prelude::*;

verus! {

/// Which form field currently receives typed characters.
#[derive(Clone, Copy, Debug, PartialEq, Eq, Structural)]
pub enum PopupInputState {
    StartDate,
    StartTime,
    EndDate,
    EndTime,
    Description,
}

/// The field the form moves to when the user confirms the active one;
/// confirming the last field wraps around to the first.
pub open spec fn next_field(f: PopupInputState) -> PopupInputState {
    match f {
        PopupInputState::StartDate => PopupInputState::StartTime,
        PopupInputState::StartTime => PopupInputState::EndDate,
        PopupInputState::EndDate => PopupInputState::EndTime,
        PopupInputState::EndTime => PopupInputState::Description,
        PopupInputState::Description => PopupInputState::StartDate,
    }
}

/// The field the form moves back to; stepping back from the first field
/// stays there (the application closes the popup instead).
pub open spec fn prev_field(f: PopupInputState) -> PopupInputState {
    match f {
        PopupInputState::StartDate => PopupInputState::StartDate,
        PopupInputState::StartTime => PopupInputState::StartDate,
        PopupInputState::EndDate => PopupInputState::StartTime,
        PopupInputState::EndTime => PopupInputState::EndDate,
        PopupInputState::Description => PopupInputState::EndTime,
    }
}

/// The popup form: the active field and the text of all five fields.
#[derive(Debug)]
pub struct PopupInput {
    pub state: PopupInputState,
    pub start_date: String,
    pub start_time: String,
    pub end_date: String,
    pub end_time: String,
    pub description: String,
}

impl PopupInput {
    /// The text the field `f` holds.
    pub open spec fn field_text(self, f: PopupInputState) -> Seq<char> {
        match f {
            PopupInputState::StartDate => self.start_date@,
            PopupInputState::StartTime => self.start_time@,
            PopupInputState::EndDate => self.end_date@,
            PopupInputState::EndTime => self.end_time@,
            PopupInputState::Description => self.description@,
        }
    }

    /// A freshly opened form: first field active, no text anywhere.
    pub open spec fn blank(self) -> bool {
        &&& self.state == PopupInputState::StartDate
        &&& forall|f: PopupInputState| self.field_text(f) == Seq::<char>::empty()
    }

    /// Appends a typed character to the active field; the active field and
    /// all other fields' text stay as they were.
    pub fn on_key(&mut self, c: char)
        ensures
            final(self).state == old(self).state,
            final(self).field_text(old(self).state) == old(self).field_text(
                old(self).state,
            ).push(c),
            forall|f: PopupInputState|
                f != old(self).state ==> final(self).field_text(f) == old(self).field_text(f),
    {
        match self.state {
            PopupInputState::StartDate => push_char(&mut self.start_date, c),
            PopupInputState::StartTime => push_char(&mut self.start_time, c),
            PopupInputState::EndDate => push_char(&mut self.end_date, c),
            PopupInputState::EndTime => push_char(&mut self.end_time, c),
            PopupInputState::Description => push_char(&mut self.description, c),
        }
    }

    /// Erases the last character of the active field, when it has one.
    pub fn on_erase(&mut self)
        ensures
            final(self).state == old(self).state,
            old(self).field_text(old(self).state).len() == 0 ==> final(self).field_text(
                old(self).state,
            ) == old(self).field_text(old(self).state),
            old(self).field_text(old(self).state).len() > 0 ==> final(self).field_text(
                old(self).state,
            ) == old(self).field_text(old(self).state).drop_last(),
            forall|f: PopupInputState|
                f != old(self).state ==> final(self).field_text(f) == old(self).field_text(f),
    {
        match self.state {
            PopupInputState::StartDate => {
                let _ = pop_char(&mut self.start_date);
            },
            PopupInputState::StartTime => {
                let _ = pop_char(&mut self.start_time);
            },
            PopupInputState::EndDate => {
                let _ = pop_char(&mut self.end_date);
            },
            PopupInputState::EndTime => {
                let _ = pop_char(&mut self.end_time);
            },
            PopupInputState::Description => {
                let _ = pop_char(&mut self.description);
            },
        }
    }

    /// Confirms the active field and moves to the next one. Returns true
    /// exactly when the confirmed field was the last: the form is finished
    /// and the caller should parse and store it.
    pub fn on_next(&mut self) -> (finished: bool)
        ensures
            final(self).state == next_field(old(self).state),
            finished == (old(self).state == PopupInputState::Description),
            forall|f: PopupInputState|
                #[trigger] final(self).field_text(f) == old(self).field_text(f),
    {
        match self.state {
            PopupInputState::StartDate => {
                self.state = PopupInputState::StartTime;
                false
            },
            PopupInputState::StartTime => {
                self.state = PopupInputState::EndDate;
                false
            },
            PopupInputState::EndDate => {
                self.state = PopupInputState::EndTime;
                false
            },
            PopupInputState::EndTime => {
                self.state = PopupInputState::Description;
                false
            },
            PopupInputState::Description => {
                self.state = PopupInputState::StartDate;
                true
            },
        }
    }

    /// Moves back to the previous field. Returns true exactly when the form
    /// was already on its first field: the caller should close the popup.
    pub fn on_previous(&mut self) -> (exit: bool)
        ensures
            final(self).state == prev_field(old(self).state),
            exit == (old(self).state == PopupInputState::StartDate),
            forall|f: PopupInputState|
                #[trigger] final(self).field_text(f) == old(self).field_text(f),
    {
        match self.state {
            PopupInputState::StartDate => true,
            PopupInputState::StartTime => {
                self.state = PopupInputState::StartDate;
                false
            },
            PopupInputState::EndDate => {
                self.state = PopupInputState::StartTime;
                false
            },
            PopupInputState::EndTime => {
                self.state = PopupInputState::EndDate;
                false
            },
            PopupInputState::Description => {
                self.state = PopupInputState::EndTime;
                false
            },
        }
    }

    /// Pre-fills both date fields with the given text, as happens when the
    /// popup opens on the selected calendar day.
    pub fn set_date(&mut self, date: String)
        ensures
            final(self).state == old(self).state,
            final(self).start_date@ == date@,
            final(self).end_date@ == date@,
            final(self).start_time@ == old(self).start_time@,
            final(self).end_time@ == old(self).end_time@,
            final(self).description@ == old(self).description@,
    {
        self.end_date = date.clone();
        self.start_date = date;
    }
}

impl Default for PopupInput {
    /// A blank form.
    fn default() -> (r: Self)
        ensures
            r.blank(),
    {
        let r = PopupInput {
            state: PopupInputState::StartDate,
            start_date: String::new(),
            start_time: String::new(),
            end_date: String::new(),
            end_time: String::new(),
            description: String::new(),
        };
        proof {
            assert forall|f: PopupInputState| r.field_text(f) == Seq::<char>::empty() by {
            }
        }
        r
    }
}

/// The popup as the application sees it: the form plus its visibility.
#[derive(Debug)]
pub struct PopupState {
    pub input: PopupInput,
    pub visible: bool,
}

impl PopupState {
    /// A popup holding the given form, initially hidden.
    pub fn new(input: PopupInput) -> (r: Self)
        ensures
            r.input == input,
            !r.visible,
    {
        Self { input, visible: false }
    }

    /// Resets the form to blank; visibility is untouched.
    pub fn clear(&mut self)
        ensures
            final(self).input.blank(),
            final(self).visible == old(self).visible,
    {
        self.input = PopupInput::default();
    }
}

/// Relies on `String::push`: appends the given character to the string.
#[verifier::external_body]
fn push_char(s: &mut String, c: char)
    ensures
        final(s)@ == old(s)@.push(c),
{
    s.push(c)
}

/// Relies on `String::pop`: removes and returns the last character, or
/// returns `None` and leaves the string as it was when it is empty.
#[verifier::external_body]
fn pop_char(s: &mut String) -> (r: Option<char>)
    ensures
        old(s)@.len() == 0 ==> r is None && final(s)@ == old(s)@,
        old(s)@.len() > 0 ==> r == Some(old(s)@.last()) && final(s)@ == old(s)@.drop_last(),
{
    s.pop()
}

} // verus!
