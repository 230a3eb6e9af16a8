use crate::components::component::Component;
use crate::components::component::{opt, opt_text};
use crate::components::input::{
    input_changes, input_key, input_step, input_wf, message_for, Input, InputMode, InputMsg,
    InputOutput, InputView,
};
use crate::key::{Key, KeyCode};
use crate::model::{empty_contact, opt_view, or_empty, Contact, ContactView};
use vstd::prelude::*;

verus! {

/// What a form can be told to do.
#[derive(Debug, Clone, Copy, PartialEq, Eq)]
pub enum FormMsg {
    Input(InputMsg),
    Next,
    Previous,
    Submit,
    Cancel,
}

/// What a form reports to its parent.
#[derive(Debug, PartialEq, Eq)]
pub enum FormOutput {
    Submitted(Contact),
    Cancelled,
}

/// What a form reports, as plain mathematical values.
pub enum FormOutputView {
    Submitted(ContactView),
    Cancelled,
}

impl View for FormOutput {
    type V = FormOutputView;

    open spec fn view(&self) -> FormOutputView {
        match self {
            FormOutput::Submitted(c) => FormOutputView::Submitted(c@),
            FormOutput::Cancelled => FormOutputView::Cancelled,
        }
    }
}

/// The fields of a form, in the order in which the focus visits them.
#[derive(Debug, Clone, Copy, PartialEq, Eq)]
pub enum FormField {
    Name,
    Company,
    Email,
    Phone,
}

/// How many fields a form has.
pub const FIELD_COUNT: usize = 4;

/// The form for a contact: one input per field, the contact as entered so
/// far, and the place of the focused field.
#[derive(Debug)]
pub struct Form {
    fields: Vec<Input>,
    contact: Contact,
    focused: usize,
    editing_id: Option<i64>,
}

/// The state of a form as plain mathematical values.
pub struct FormView {
    pub fields: Seq<InputView>,
    pub contact: ContactView,
    pub focused: nat,
    pub editing_id: Option<i64>,
}

impl View for Form {
    type V = FormView;

    closed spec fn view(&self) -> FormView {
        FormView {
            fields: self.fields@.map_values(|f: Input| f@),
            contact: self.contact@,
            focused: self.focused as nat,
            editing_id: self.editing_id,
        }
    }
}

/// The field at a place in the focus order.
pub open spec fn field_at(i: nat) -> FormField {
    if i == 0 {
        FormField::Name
    } else if i == 1 {
        FormField::Company
    } else if i == 2 {
        FormField::Email
    } else {
        FormField::Phone
    }
}

/// A form is well-formed when it has its four inputs, each well-formed, and
/// exactly the input in focus is marked as focused.
pub open spec fn form_wf(s: FormView) -> bool {
    &&& s.fields.len() == FIELD_COUNT
    &&& s.focused < FIELD_COUNT
    &&& forall|i: int|
        0 <= i < s.fields.len() ==> input_wf(#[trigger] s.fields[i]) && (s.fields[i].focused <==> i
            == s.focused)
}

/// The contact with the text `value` taken over into one of its fields. The
/// name takes the text as it is; an optional field is absent for the empty
/// text.
pub open spec fn mirror(c: ContactView, field: FormField, value: Seq<char>) -> ContactView {
    match field {
        FormField::Name => ContactView { name: value, ..c },
        FormField::Company => ContactView { company: opt_text(value), ..c },
        FormField::Email => ContactView { email: opt_text(value), ..c },
        FormField::Phone => ContactView { phone: opt_text(value), ..c },
    }
}

/// An input after the focus has come or gone: the cursor stands at the end.
pub open spec fn with_focus(f: InputView, focused: bool) -> InputView {
    InputView { focused, cursor: f.value.len(), ..f }
}

/// The form with the focus moved to the field at `to`.
pub open spec fn refocus(s: FormView, to: nat) -> FormView {
    FormView {
        fields: s.fields.update(s.focused as int, with_focus(s.fields[s.focused as int], false)).update(
            to as int,
            with_focus(s.fields[to as int], true),
        ),
        focused: to,
        ..s
    }
}

/// The state of a form after a message. A message for the input goes to the
/// field in focus alone, and where it changes the text, the contact takes the
/// new text over. `Next` and `Previous` move the focus round the fields.
/// `Submit` and `Cancel` leave the form as it is.
pub open spec fn form_step(s: FormView, msg: FormMsg) -> FormView {
    match msg {
        FormMsg::Input(m) => {
            let field = input_step(s.fields[s.focused as int], m);
            FormView {
                fields: s.fields.update(s.focused as int, field),
                contact: if input_changes(s.fields[s.focused as int], m) {
                    mirror(s.contact, field_at(s.focused), field.value)
                } else {
                    s.contact
                },
                ..s
            }
        },
        FormMsg::Next => refocus(s, (s.focused + 1) % (FIELD_COUNT as nat)),
        FormMsg::Previous => refocus(s, (s.focused + FIELD_COUNT - 1) as nat % (FIELD_COUNT as nat)),
        FormMsg::Submit => s,
        FormMsg::Cancel => s,
    }
}

/// What a message makes a form report: the contact on `Submit`, the
/// cancellation on `Cancel`, nothing otherwise.
pub open spec fn form_output(s: FormView, msg: FormMsg) -> Option<FormOutputView> {
    match msg {
        FormMsg::Submit => Some(FormOutputView::Submitted(s.contact)),
        FormMsg::Cancel => Some(FormOutputView::Cancelled),
        _ => None,
    }
}

/// The view of what a form reports.
pub open spec fn form_output_view(o: Option<FormOutput>) -> Option<FormOutputView> {
    match o {
        Some(out) => Some(out@),
        None => None,
    }
}

/// The message that a key stands for in a form, if any.
pub open spec fn form_key(key: Key) -> Option<FormMsg> {
    match key.code {
        KeyCode::Tab => Some(FormMsg::Next),
        KeyCode::BackTab => Some(FormMsg::Previous),
        KeyCode::Enter => Some(FormMsg::Submit),
        KeyCode::Esc => Some(FormMsg::Cancel),
        _ => match input_key(key) {
            Some(m) => Some(FormMsg::Input(m)),
            None => None,
        },
    }
}

/// The input of a form field holding `value`, as it is when a contact has
/// just been staged.
pub open spec fn staged_field(label: Seq<char>, value: Seq<char>, max_len: nat, focused: bool) -> InputView {
    InputView {
        label,
        label_width: 10,
        value,
        cursor: value.len(),
        focused,
        mode: InputMode::Inline,
        max_len,
    }
}

/// The form with `c` staged: the fields hold its texts, the focus is on the
/// name, and the form edits an existing contact exactly when `c` has an id.
pub open spec fn staged(c: ContactView) -> FormView {
    FormView {
        fields: seq![
            staged_field("Name"@, c.name, 30, true),
            staged_field("Company"@, or_empty(c.company), 30, false),
            staged_field("Email"@, or_empty(c.email), 30, false),
            staged_field("Phone"@, or_empty(c.phone), 20, false),
        ],
        contact: c,
        focused: 0,
        editing_id: if c.id == 0 {
            None
        } else {
            Some(c.id)
        },
    }
}

/// A staged form is well-formed.
pub proof fn lemma_staged_is_wf(c: ContactView)
    ensures
        form_wf(staged(c)),
{
}

/// Whatever message a well-formed form receives, it stays well-formed.
pub proof fn lemma_step_keeps_wf(s: FormView, msg: FormMsg)
    requires
        form_wf(s),
    ensures
        form_wf(form_step(s, msg)),
{
    match msg {
        FormMsg::Input(m) => {},
        FormMsg::Next => {},
        FormMsg::Previous => {},
        FormMsg::Submit => {},
        FormMsg::Cancel => {},
    }
}

/// The contact holds what the fields show: the name as it is, every other
/// field absent where its input is empty.
pub open spec fn form_in_sync(s: FormView) -> bool {
    &&& s.contact.name == s.fields[0].value
    &&& s.contact.company == opt_text(s.fields[1].value)
    &&& s.contact.email == opt_text(s.fields[2].value)
    &&& s.contact.phone == opt_text(s.fields[3].value)
}

/// Once the contact holds what the fields show, it goes on doing so whatever
/// is typed, and its id never changes.
pub proof fn lemma_step_keeps_sync(s: FormView, msg: FormMsg)
    requires
        form_wf(s),
        form_in_sync(s),
    ensures
        form_in_sync(form_step(s, msg)),
        form_step(s, msg).contact.id == s.contact.id,
        form_step(s, msg).editing_id == s.editing_id,
{
    match msg {
        FormMsg::Input(m) => {
            let at = s.focused as int;
            if !input_changes(s.fields[at], m) {
                assert(input_step(s.fields[at], m).value == s.fields[at].value);
            }
        },
        FormMsg::Next => {},
        FormMsg::Previous => {},
        FormMsg::Submit => {},
        FormMsg::Cancel => {},
    }
}

/// A staged contact holds what the fields show, provided none of its
/// optional fields is present and empty.
pub proof fn lemma_staged_is_in_sync(c: ContactView)
    requires
        c.company != Some(Seq::<char>::empty()),
        c.email != Some(Seq::<char>::empty()),
        c.phone != Some(Seq::<char>::empty()),
    ensures
        form_in_sync(staged(c)),
{
    assert(c.company is Some ==> c.company->0.len() > 0) by {
        if c.company is Some && c.company->0.len() == 0 {
            assert(c.company->0 =~= Seq::<char>::empty());
        }
    }
    assert(c.email is Some ==> c.email->0.len() > 0) by {
        if c.email is Some && c.email->0.len() == 0 {
            assert(c.email->0 =~= Seq::<char>::empty());
        }
    }
    assert(c.phone is Some ==> c.phone->0.len() > 0) by {
        if c.phone is Some && c.phone->0.len() == 0 {
            assert(c.phone->0 =~= Seq::<char>::empty());
        }
    }
}

/// Moving the focus forward and then back, or back and then forward, puts it
/// where it was.
pub proof fn lemma_focus_ring(s: FormView)
    requires
        form_wf(s),
    ensures
        form_step(form_step(s, FormMsg::Next), FormMsg::Previous).focused == s.focused,
        form_step(form_step(s, FormMsg::Previous), FormMsg::Next).focused == s.focused,
        form_step(
            form_step(form_step(form_step(s, FormMsg::Next), FormMsg::Next), FormMsg::Next),
            FormMsg::Next,
        ).focused == s.focused,
{
}

/// A contact that is staged and submitted at once comes back as it was.
pub proof fn lemma_submit_returns_staged(c: ContactView)
    ensures
        form_output(staged(c), FormMsg::Submit) == Some(FormOutputView::Submitted(c)),
{
}

/// The text to show for an optional field.
fn text_of(o: &Option<String>) -> (r: String)
    ensures
        r@ == or_empty(opt_view(*o)),
{
    match o {
        Some(s) => s.clone(),
        None => String::new(),
    }
}

impl Form {
    /// See [`form_wf`].
    pub open spec fn wf(&self) -> bool {
        form_wf(self@)
    }

    /// An empty form, for a new contact.
    pub fn new() -> (r: Self)
        ensures
            r.wf(),
            r@ == staged(empty_contact()),
    {
        let mut name = Input::new("Name", "", 10, InputMode::Inline, 30);
        name.set_focused(true);
        let fields = vec![
            name,
            Input::new("Company", "", 10, InputMode::Inline, 30),
            Input::new("Email", "", 10, InputMode::Inline, 30),
            Input::new("Phone", "", 10, InputMode::Inline, 20),
        ];
        let r = Form { fields, contact: Contact::default(), focused: 0, editing_id: None };
        proof {
            reveal_strlit("");
            assert(""@ =~= Seq::<char>::empty());
            let want = staged(empty_contact()).fields;
            assert(r@.fields.len() == 4);
            assert(r@.fields[0] == want[0]);
            assert(r@.fields[1] == want[1]);
            assert(r@.fields[2] == want[2]);
            assert(r@.fields[3] == want[3]);
            assert(r@.fields =~= want);
        }
        r
    }

    /// Stages `contact`: the fields take its texts, and the focus goes to the
    /// name. The form holds a copy of its own, so nothing that is entered
    /// reaches `contact` itself.
    pub fn set_contact(&mut self, contact: Contact)
        ensures
            final(self).wf(),
            final(self)@ == staged(contact@),
    {
        let mut name = Input::new("Name", contact.name.as_str(), 10, InputMode::Inline, 30);
        name.set_focused(true);
        let company = text_of(&contact.company);
        let email = text_of(&contact.email);
        let phone = text_of(&contact.phone);
        self.fields = vec![
            name,
            Input::new("Company", company.as_str(), 10, InputMode::Inline, 30),
            Input::new("Email", email.as_str(), 10, InputMode::Inline, 30),
            Input::new("Phone", phone.as_str(), 10, InputMode::Inline, 20),
        ];
        self.editing_id = if contact.id == 0 {
            None
        } else {
            Some(contact.id)
        };
        self.focused = 0;
        self.contact = contact;
        proof {
            let want = staged(contact@).fields;
            assert(self@.fields.len() == 4);
            assert(self@.fields[0] == want[0]);
            assert(self@.fields[1] == want[1]);
            assert(self@.fields[2] == want[2]);
            assert(self@.fields[3] == want[3]);
            assert(self@.fields =~= want);
        }
    }

    /// The contact as entered so far.
    pub fn contact(&self) -> (r: &Contact)
        ensures
            r@ == self@.contact,
    {
        &self.contact
    }

    /// The place of the field in focus.
    pub fn focused(&self) -> (r: usize)
        ensures
            r == self@.focused,
    {
        self.focused
    }

    /// The id of the contact being edited; `None` while a new one is entered.
    pub fn editing_id(&self) -> (r: Option<i64>)
        ensures
            r == self@.editing_id,
    {
        self.editing_id
    }

    /// How many fields there are.
    pub fn field_count(&self) -> (r: usize)
        ensures
            r == self@.fields.len(),
    {
        self.fields.len()
    }

    /// The input of the field at place `i`.
    pub fn field(&self, i: usize) -> (r: Option<&Input>)
        ensures
            i < self@.fields.len() ==> r is Some && r->0@ == self@.fields[i as int],
            i >= self@.fields.len() ==> r is None,
    {
        if i < self.fields.len() {
            Some(&self.fields[i])
        } else {
            None
        }
    }

    /// The message that `key` stands for, if any.
    pub fn handle_key(&self, key: Key) -> (r: Option<FormMsg>)
        ensures
            r == form_key(key),
    {
        match key.code {
            KeyCode::Tab => Some(FormMsg::Next),
            KeyCode::BackTab => Some(FormMsg::Previous),
            KeyCode::Enter => Some(FormMsg::Submit),
            KeyCode::Esc => Some(FormMsg::Cancel),
            _ => match message_for(key) {
                Some(m) => Some(FormMsg::Input(m)),
                None => None,
            },
        }
    }

    /// Moves the focus to the field at `to`.
    fn focus(&mut self, to: usize)
        requires
            old(self).wf(),
            to < FIELD_COUNT,
        ensures
            final(self).wf(),
            final(self)@ == refocus(old(self)@, to as nat),
    {
        let from = self.focused;
        self.fields[from].set_focused(false);
        self.focused = to;
        self.fields[to].set_focused(true);
        proof {
            assert(self@.fields =~= refocus(old(self)@, to as nat).fields);
        }
    }

    /// Applies one message, and reports a submission or a cancellation.
    pub fn update(&mut self, msg: FormMsg) -> (r: Option<FormOutput>)
        requires
            old(self).wf(),
        ensures
            final(self).wf(),
            final(self)@ == form_step(old(self)@, msg),
            form_output_view(r) == form_output(old(self)@, msg),
    {
        match msg {
            FormMsg::Input(input_msg) => {
                let at = self.focused;
                let changed = self.fields[at].update(input_msg);
                match changed {
                    Some(InputOutput::Changed(val)) => {
                        if at == 0 {
                            self.contact.name = val;
                        } else if at == 1 {
                            self.contact.company = opt(val);
                        } else if at == 2 {
                            self.contact.email = opt(val);
                        } else {
                            self.contact.phone = opt(val);
                        }
                    },
                    None => {},
                }
                proof {
                    assert(self@.fields =~= form_step(old(self)@, msg).fields);
                }
                None
            },
            FormMsg::Next => {
                self.focus((self.focused + 1) % FIELD_COUNT);
                None
            },
            FormMsg::Previous => {
                self.focus((self.focused + FIELD_COUNT - 1) % FIELD_COUNT);
                None
            },
            FormMsg::Submit => Some(FormOutput::Submitted(self.contact.clone())),
            FormMsg::Cancel => Some(FormOutput::Cancelled),
        }
    }
}

impl Component for Form {
    type Msg = FormMsg;

    type Output = FormOutput;

    open spec fn well_formed(&self) -> bool {
        self.wf()
    }

    open spec fn message_of(&self, key: Key) -> Option<FormMsg> {
        form_key(key)
    }

    open spec fn steps_to(&self, msg: FormMsg, after: &Self, out: Option<FormOutput>) -> bool {
        &&& after@ == form_step(self@, msg)
        &&& form_output_view(out) == form_output(self@, msg)
    }

    fn handle_key(&self, key: Key) -> Option<FormMsg> {
        self.handle_key(key)
    }

    fn update(&mut self, msg: FormMsg) -> Option<FormOutput> {
        self.update(msg)
    }
}

} // verus!
