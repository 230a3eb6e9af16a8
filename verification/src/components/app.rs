use crate::components::browse::{
    browse_activated, browse_in_sync, browse_key, browse_step, empty_search, fresh_list,
    lemma_browse_stays_in_sync, Browse, BrowseMsg, BrowseOutput, BrowseView,
};
use crate::components::component::Component;
use crate::components::contact_list::{
    lemma_step_keeps_selection_in_range, list_selection, list_wf, ContactListView,
};
use crate::components::delete_confirmation::{
    delete_decision, delete_key, DeleteConfirmation, DeleteMsg, DeleteOutput, DeleteOutputView,
};
use crate::components::error_dialog::{error_key, ErrorDialog, ErrorMsg, ErrorOutput};
use crate::components::form::{
    form_key, form_output, form_step, form_wf, lemma_staged_is_wf, lemma_step_keeps_wf, staged,
    Form, FormMsg, FormOutput, FormOutputView, FormView,
};
use crate::components::input::input_wf;
use crate::components::status_bar::{StatusBar, StatusBarMsg, StatusBarView};
use crate::filter::lemma_empty_query_shows_all;
use crate::key::{Key, KeyCode};
use crate::mode::{AppMode, AppModeView};
use crate::model::{empty_contact, opt_contact_view, views, Contact, ContactView};
use vstd::prelude::*;

verus! {

/// What the application asks of the store that keeps the contacts. The
/// application itself never touches the store: it hands a request out, and
/// whoever runs it performs the request and hands the reply back in.
#[derive(Debug, PartialEq, Eq)]
pub enum StoreRequest {
    Create(Contact),
    Update(i64, Contact),
    Delete(i64),
    LoadAll,
}

/// A request as plain mathematical values.
pub enum StoreRequestView {
    Create(ContactView),
    Update(i64, ContactView),
    Delete(i64),
    LoadAll,
}

impl View for StoreRequest {
    type V = StoreRequestView;

    open spec fn view(&self) -> StoreRequestView {
        match self {
            StoreRequest::Create(c) => StoreRequestView::Create(c@),
            StoreRequest::Update(id, c) => StoreRequestView::Update(*id, c@),
            StoreRequest::Delete(id) => StoreRequestView::Delete(*id),
            StoreRequest::LoadAll => StoreRequestView::LoadAll,
        }
    }
}

/// How the store answered: a change was made, the contacts were read (in the
/// order of their names), or the request failed for the reason given.
#[derive(Debug, PartialEq, Eq)]
pub enum StoreReply {
    Done,
    Loaded(Vec<Contact>),
    Failed(String),
}

/// What the application can be told.
#[derive(Debug)]
pub enum AppMsg {
    Browse(BrowseMsg),
    Form(FormMsg),
    DeleteDialog(DeleteMsg),
    ErrorDialog(ErrorMsg),
    StatusBar(StatusBarMsg),
    AddContact,
    EditContact(Contact),
    ConfirmDelete(Contact),
    ShowError(String),
    Quit,
    Store(StoreReply),
}

/// What the application hands out after a message: a further message of its
/// own, to be given back to it at once, or a request for the store.
#[derive(Debug)]
pub enum AppOutput {
    Dispatch(AppMsg),
    Store(StoreRequest),
}

/// An output with its request as plain mathematical values.
pub enum AppOutputView {
    Dispatch(AppMsg),
    Store(StoreRequestView),
}

impl View for AppOutput {
    type V = AppOutputView;

    open spec fn view(&self) -> AppOutputView {
        match self {
            AppOutput::Dispatch(m) => AppOutputView::Dispatch(*m),
            AppOutput::Store(r) => AppOutputView::Store(r@),
        }
    }
}

/// The application: the mode, the quit flag, the contact that the global keys
/// act on, and one of each component.
#[derive(Debug)]
pub struct App {
    pub selected_contact: Option<Contact>,
    pub mode: AppMode,
    pub should_quit: bool,
    pub browse: Browse,
    pub contact_form: Form,
    pub error_dialog: ErrorDialog,
    pub delete_confirmation: DeleteConfirmation,
    pub status_bar: StatusBar,
}

/// The state of the application as plain mathematical values.
pub struct AppView {
    pub selected: Option<ContactView>,
    pub mode: AppModeView,
    pub should_quit: bool,
    pub browse: BrowseView,
    pub form: FormView,
    pub error: Seq<char>,
    pub delete: ContactView,
    pub status: StatusBarView,
}

impl View for App {
    type V = AppView;

    open spec fn view(&self) -> AppView {
        AppView {
            selected: opt_contact_view(self.selected_contact),
            mode: self.mode@,
            should_quit: self.should_quit,
            browse: self.browse@,
            form: self.contact_form@,
            error: self.error_dialog@,
            delete: self.delete_confirmation@,
            status: self.status_bar@,
        }
    }
}

/// The state with the status bar brought up to date: the counts of the
/// browse screen and the current mode.
pub open spec fn with_status(s: AppView) -> AppView {
    AppView {
        status: StatusBarView {
            total: s.browse.all.len(),
            filtered: s.browse.list.filtered.len(),
            mode: s.mode,
        },
        ..s
    }
}

/// The request that submitting `c` leads to: a contact without an id is
/// created, any other is updated under its id.
pub open spec fn save_request(c: ContactView) -> StoreRequestView {
    if c.id == 0 {
        StoreRequestView::Create(c)
    } else {
        StoreRequestView::Update(c.id, c)
    }
}

/// The browse screen after the store has handed over `list`: it holds the
/// new contacts and shows what the unchanged query shows of them.
pub open spec fn reloaded(b: BrowseView, list: Seq<ContactView>) -> BrowseView {
    BrowseView { all: list, list: fresh_list(list, b.search.value), ..b }
}

/// The state in which the application starts over `contacts`: browsing all
/// of them under an empty query, the first one selected and staged for the
/// delete dialog, an empty form, no error.
pub open spec fn initial(contacts: Seq<ContactView>) -> AppView {
    let list = ContactListView { filtered: contacts, selected: 0 };
    with_status(
        AppView {
            selected: list_selection(list),
            mode: AppModeView::Browse,
            should_quit: false,
            browse: BrowseView { search: empty_search(), list, all: contacts },
            form: staged(empty_contact()),
            error: Seq::empty(),
            delete: match list_selection(list) {
                Some(c) => c,
                None => empty_contact(),
            },
            status: StatusBarView { total: 0, filtered: 0, mode: AppModeView::Browse },
        },
    )
}

/// The state after a message, before the status bar is brought up to date.
pub open spec fn core_step(s: AppView, msg: AppMsg) -> AppView {
    match msg {
        AppMsg::Quit => AppView { should_quit: true, selected: None, ..s },
        AppMsg::Browse(m) => {
            let browse = browse_step(s.browse, m);
            match browse_activated(s.browse, m) {
                Some(c) => AppView { browse, selected: Some(c), should_quit: true, ..s },
                None => AppView { browse, selected: list_selection(browse.list), ..s },
            }
        },
        AppMsg::Form(m) => {
            let form = form_step(s.form, m);
            match form_output(s.form, m) {
                Some(FormOutputView::Cancelled) => AppView { form, mode: AppModeView::Browse, ..s },
                _ => AppView { form, ..s },
            }
        },
        AppMsg::DeleteDialog(m) => match delete_decision(s.delete, m) {
            DeleteOutputView::Cancelled => AppView { mode: AppModeView::Browse, ..s },
            DeleteOutputView::Confirmed(_) => s,
        },
        AppMsg::ErrorDialog(_) => AppView { mode: AppModeView::Browse, error: Seq::empty(), ..s },
        AppMsg::StatusBar(_) => s,
        AppMsg::AddContact => AppView {
            mode: AppModeView::ContactForm,
            form: staged(empty_contact()),
            ..s
        },
        AppMsg::EditContact(c) => AppView { mode: AppModeView::ContactForm, form: staged(c@), ..s },
        AppMsg::ConfirmDelete(c) => AppView { mode: AppModeView::Delete, delete: c@, ..s },
        AppMsg::ShowError(e) => AppView { mode: AppModeView::Error(e@), error: e@, ..s },
        AppMsg::Store(reply) => match reply {
            StoreReply::Done => s,
            StoreReply::Loaded(list) => {
                let browse = reloaded(s.browse, views(list@));
                AppView {
                    browse,
                    selected: list_selection(browse.list),
                    mode: AppModeView::Browse,
                    ..s
                }
            },
            StoreReply::Failed(_) => s,
        },
    }
}

/// The state after a message.
pub open spec fn app_step(s: AppView, msg: AppMsg) -> AppView {
    with_status(core_step(s, msg))
}

/// What the application hands out after a message. A submitted form and a
/// confirmed deletion lead to a request; a change that the store has made
/// leads to reading the contacts anew; a failure of the store comes back as
/// the message to show it.
pub open spec fn app_output(s: AppView, msg: AppMsg) -> Option<AppOutputView> {
    match msg {
        AppMsg::Form(m) => match form_output(s.form, m) {
            Some(FormOutputView::Submitted(c)) => Some(AppOutputView::Store(save_request(c))),
            _ => None,
        },
        AppMsg::DeleteDialog(m) => match delete_decision(s.delete, m) {
            DeleteOutputView::Confirmed(c) => Some(
                AppOutputView::Store(StoreRequestView::Delete(c.id)),
            ),
            DeleteOutputView::Cancelled => None,
        },
        AppMsg::Store(reply) => match reply {
            StoreReply::Done => Some(AppOutputView::Store(StoreRequestView::LoadAll)),
            StoreReply::Loaded(_) => None,
            StoreReply::Failed(e) => Some(AppOutputView::Dispatch(AppMsg::ShowError(e))),
        },
        _ => None,
    }
}

/// The view of what the application hands out.
pub open spec fn app_output_view(o: Option<AppOutput>) -> Option<AppOutputView> {
    match o {
        Some(out) => Some(out@),
        None => None,
    }
}

/// How many more messages a message can set off inside the application.
pub open spec fn msg_rank(msg: AppMsg) -> nat {
    match msg {
        AppMsg::Store(StoreReply::Failed(_)) => 1,
        _ => 0,
    }
}

/// A message that the application hands out to itself always ranks below the
/// message that set it off, so handing messages back and forth comes to an
/// end.
pub proof fn lemma_dispatch_ends(s: AppView, msg: AppMsg)
    ensures
        match app_output(s, msg) {
            Some(AppOutputView::Dispatch(next)) => msg_rank(next) < msg_rank(msg),
            _ => true,
        },
{
}

/// What holds of the application in every state it reaches: its components
/// are in good order, the list shows what the query shows of all contacts,
/// the contact for the global keys is the selected one until the application
/// quits, the status bar is up to date, and in error mode the dialog shows
/// the error of the mode.
pub open spec fn app_inv(s: AppView) -> bool {
    &&& input_wf(s.browse.search)
    &&& form_wf(s.form)
    &&& browse_in_sync(s.browse)
    &&& list_wf(s.browse.list)
    &&& (s.should_quit || s.selected == list_selection(s.browse.list))
    &&& s.status == with_status(s).status
    &&& (s.mode matches AppModeView::Error(m) ==> s.error == m)
}

/// The application starts in a state of which [`app_inv`] holds.
pub proof fn lemma_initial_inv(contacts: Seq<ContactView>)
    ensures
        app_inv(initial(contacts)),
{
    lemma_staged_is_wf(empty_contact());
    lemma_empty_query_shows_all(contacts);
}

/// Whatever message arrives, [`app_inv`] goes on holding.
pub proof fn lemma_step_keeps_inv(s: AppView, msg: AppMsg)
    requires
        app_inv(s),
    ensures
        app_inv(app_step(s, msg)),
{
    match msg {
        AppMsg::Browse(m) => {
            lemma_browse_stays_in_sync(s.browse, m);
            match m {
                BrowseMsg::List(l) => {
                    lemma_step_keeps_selection_in_range(s.browse.list, l);
                },
                BrowseMsg::Input(_) => {},
            }
        },
        AppMsg::Form(m) => {
            lemma_step_keeps_wf(s.form, m);
        },
        AppMsg::AddContact => {
            lemma_staged_is_wf(empty_contact());
        },
        AppMsg::EditContact(c) => {
            lemma_staged_is_wf(c@);
        },
        _ => {},
    }
}

/// Where handing messages back and forth ends: the state then, and the
/// request for the store, if it ended on one.
pub open spec fn app_run(s: AppView, msg: AppMsg) -> (AppView, Option<StoreRequestView>)
    decreases msg_rank(msg),
{
    let next = app_step(s, msg);
    match app_output(s, msg) {
        None => (next, None),
        Some(AppOutputView::Store(request)) => (next, Some(request)),
        Some(AppOutputView::Dispatch(m)) => if msg_rank(m) < msg_rank(msg) {
            app_run(next, m)
        } else {
            (next, None)
        },
    }
}

/// Handing back and forth written out: a failure of the store takes two
/// steps, the second being the message that shows it; every other message
/// takes one.
pub proof fn lemma_run(s: AppView, msg: AppMsg)
    ensures
        app_run(s, msg) == match msg {
            AppMsg::Store(StoreReply::Failed(e)) => (
                app_step(app_step(s, msg), AppMsg::ShowError(e)),
                None::<StoreRequestView>,
            ),
            _ => (
                app_step(s, msg),
                match app_output(s, msg) {
                    Some(AppOutputView::Store(request)) => Some(request),
                    _ => None,
                },
            ),
        },
{
    reveal_with_fuel(app_run, 3);
}

/// When the store fails, the application shows the reason in error mode,
/// asks nothing more of the store, and keeps its contacts, its query and its
/// list as they were.
pub proof fn lemma_failure_is_shown(s: AppView, reason: String)
    ensures
        app_run(s, AppMsg::Store(StoreReply::Failed(reason))).1 is None,
        app_run(s, AppMsg::Store(StoreReply::Failed(reason))).0.mode == AppModeView::Error(
            reason@,
        ),
        app_run(s, AppMsg::Store(StoreReply::Failed(reason))).0.error == reason@,
        app_run(s, AppMsg::Store(StoreReply::Failed(reason))).0.browse == s.browse,
{
    lemma_run(s, AppMsg::Store(StoreReply::Failed(reason)));
}

/// Dismissing an error always leads back to browsing.
pub proof fn lemma_dismissal_leads_to_browse(s: AppView, msg: ErrorMsg)
    ensures
        app_step(s, AppMsg::ErrorDialog(msg)).mode == AppModeView::Browse,
        app_output(s, AppMsg::ErrorDialog(msg)) is None,
        app_step(s, AppMsg::ErrorDialog(msg)).browse == s.browse,
{
}

/// The view of an optional request.
pub open spec fn opt_request_view(o: Option<StoreRequest>) -> Option<StoreRequestView> {
    match o {
        Some(r) => Some(r@),
        None => None,
    }
}

impl App {
    /// The application is well-formed when its browse screen and its form
    /// are.
    pub open spec fn wf(&self) -> bool {
        self.browse.wf() && self.contact_form.wf()
    }

    /// The message that a key stands for. Control with `q`, `a`, `e` or `d`
    /// is taken first, whatever the mode: quit, add, edit the selected
    /// contact, delete the selected contact (the last two stand for nothing
    /// while no contact is selected). Every other key goes to the component
    /// of the current mode.
    pub open spec fn key_message(&self, key: Key) -> Option<AppMsg> {
        if key.ctrl && key.code == KeyCode::Char('q') {
            Some(AppMsg::Quit)
        } else if key.ctrl && key.code == KeyCode::Char('a') {
            Some(AppMsg::AddContact)
        } else if key.ctrl && key.code == KeyCode::Char('e') {
            match self.selected_contact {
                Some(c) => Some(AppMsg::EditContact(c)),
                None => None,
            }
        } else if key.ctrl && key.code == KeyCode::Char('d') {
            match self.selected_contact {
                Some(c) => Some(AppMsg::ConfirmDelete(c)),
                None => None,
            }
        } else {
            match self.mode {
                AppMode::Browse => match browse_key(key) {
                    Some(m) => Some(AppMsg::Browse(m)),
                    None => None,
                },
                AppMode::ContactForm => match form_key(key) {
                    Some(m) => Some(AppMsg::Form(m)),
                    None => None,
                },
                AppMode::Delete => match delete_key(key) {
                    Some(m) => Some(AppMsg::DeleteDialog(m)),
                    None => None,
                },
                AppMode::Error(_) => match error_key(key) {
                    Some(m) => Some(AppMsg::ErrorDialog(m)),
                    None => None,
                },
            }
        }
    }

    /// The application over `contacts` as the store holds them: browsing,
    /// with an empty query and the first contact selected.
    pub fn new(contacts: &[Contact]) -> (r: Self)
        ensures
            r.wf(),
            r.browse.all_contacts@ == contacts@,
            r.browse.contact_list.filtered_contacts@ == contacts@,
            r@ == initial(views(contacts@)),
    {
        let browse = Browse::new(contacts);
        let selected_contact = browse.contact_list.get_selected_contact();
        let mut delete_confirmation = DeleteConfirmation::new();
        match browse.contact_list.get_selected_contact() {
            Some(contact) => {
                delete_confirmation.set_contact(contact);
            },
            None => {},
        }
        let mut app = App {
            selected_contact,
            mode: AppMode::Browse,
            should_quit: false,
            browse,
            contact_form: Form::new(),
            error_dialog: ErrorDialog::new(),
            delete_confirmation,
            status_bar: StatusBar::new(),
        };
        app.sync_status();
        app
    }

    /// Brings the status bar up to date.
    fn sync_status(&mut self)
        ensures
            final(self).selected_contact == old(self).selected_contact,
            final(self).mode == old(self).mode,
            final(self).should_quit == old(self).should_quit,
            final(self).browse == old(self).browse,
            final(self).contact_form == old(self).contact_form,
            final(self).error_dialog == old(self).error_dialog,
            final(self).delete_confirmation == old(self).delete_confirmation,
            final(self)@ == with_status(old(self)@),
    {
        let total = self.browse.all_contacts.len();
        let filtered = self.browse.contact_list.filtered_contacts.len();
        self.status_bar.update(StatusBarMsg::UpdateCounts { total, filtered });
        self.status_bar.update(StatusBarMsg::UpdateMode(self.mode.clone()));
    }

    /// The message that `key` stands for, if any.
    pub fn handle_key(&self, key: Key) -> (r: Option<AppMsg>)
        ensures
            r == self.key_message(key),
    {
        match key.code {
            KeyCode::Char(c) => {
                if key.ctrl {
                    if c == 'q' {
                        return Some(AppMsg::Quit);
                    } else if c == 'a' {
                        return Some(AppMsg::AddContact);
                    } else if c == 'e' {
                        return match &self.selected_contact {
                            Some(contact) => Some(AppMsg::EditContact(contact.clone())),
                            None => None,
                        };
                    } else if c == 'd' {
                        return match &self.selected_contact {
                            Some(contact) => Some(AppMsg::ConfirmDelete(contact.clone())),
                            None => None,
                        };
                    }
                }
            },
            _ => {},
        }
        match self.mode {
            AppMode::Browse => match self.browse.handle_key(key) {
                Some(m) => Some(AppMsg::Browse(m)),
                None => None,
            },
            AppMode::ContactForm => match self.contact_form.handle_key(key) {
                Some(m) => Some(AppMsg::Form(m)),
                None => None,
            },
            AppMode::Delete => match self.delete_confirmation.handle_key(key) {
                Some(m) => Some(AppMsg::DeleteDialog(m)),
                None => None,
            },
            AppMode::Error(_) => match self.error_dialog.handle_key(key) {
                Some(m) => Some(AppMsg::ErrorDialog(m)),
                None => None,
            },
        }
    }

    /// Applies one message and hands out what follows from it: nothing, a
    /// message to give back at once, or a request for the store. The state
    /// is changed before anything is handed out.
    pub fn update(&mut self, msg: AppMsg) -> (r: Option<AppOutput>)
        requires
            old(self).wf(),
        ensures
            final(self).wf(),
            final(self)@ == app_step(old(self)@, msg),
            app_output_view(r) == app_output(old(self)@, msg),
    {
        let out = match msg {
            AppMsg::Quit => {
                self.should_quit = true;
                self.selected_contact = None;
                None
            },
            AppMsg::Browse(browse_msg) => {
                match self.browse.update(browse_msg) {
                    Some(BrowseOutput::ContactActivated(contact)) => {
                        self.selected_contact = Some(contact);
                        self.should_quit = true;
                    },
                    None => {
                        self.selected_contact = self.browse.contact_list.get_selected_contact();
                    },
                }
                None
            },
            AppMsg::Form(form_msg) => {
                match self.contact_form.update(form_msg) {
                    Some(FormOutput::Submitted(contact)) => {
                        if contact.id == 0 {
                            Some(AppOutput::Store(StoreRequest::Create(contact)))
                        } else {
                            Some(AppOutput::Store(StoreRequest::Update(contact.id, contact)))
                        }
                    },
                    Some(FormOutput::Cancelled) => {
                        self.mode = AppMode::Browse;
                        None
                    },
                    None => None,
                }
            },
            AppMsg::DeleteDialog(delete_msg) => {
                match self.delete_confirmation.update(delete_msg) {
                    Some(DeleteOutput::Confirmed(contact)) => Some(
                        AppOutput::Store(StoreRequest::Delete(contact.id)),
                    ),
                    Some(DeleteOutput::Cancelled) => {
                        self.mode = AppMode::Browse;
                        None
                    },
                    None => None,
                }
            },
            AppMsg::ErrorDialog(error_msg) => {
                match self.error_dialog.update(error_msg) {
                    Some(ErrorOutput::Dismissed) => {
                        self.mode = AppMode::Browse;
                        self.error_dialog.set_error("");
                        proof {
                            reveal_strlit("");
                            assert(""@ =~= Seq::<char>::empty());
                        }
                    },
                    None => {},
                }
                None
            },
            AppMsg::StatusBar(_) => None,
            AppMsg::AddContact => {
                self.contact_form.set_contact(Contact::default());
                self.mode = AppMode::ContactForm;
                None
            },
            AppMsg::EditContact(contact) => {
                self.contact_form.set_contact(contact);
                self.mode = AppMode::ContactForm;
                None
            },
            AppMsg::ConfirmDelete(contact) => {
                self.delete_confirmation.set_contact(contact);
                self.mode = AppMode::Delete;
                None
            },
            AppMsg::ShowError(error) => {
                self.error_dialog.set_error(error.as_str());
                self.mode = AppMode::Error(error);
                None
            },
            AppMsg::Store(reply) => match reply {
                StoreReply::Done => Some(AppOutput::Store(StoreRequest::LoadAll)),
                StoreReply::Loaded(list) => {
                    self.browse.set_contacts(list.as_slice());
                    self.selected_contact = self.browse.contact_list.get_selected_contact();
                    self.mode = AppMode::Browse;
                    None
                },
                StoreReply::Failed(error) => Some(AppOutput::Dispatch(AppMsg::ShowError(error))),
            },
        };
        self.sync_status();
        out
    }

    /// Applies `msg` and then every message that the application hands out
    /// to itself, until nothing is handed out or a request for the store is.
    /// The request, if any, is returned: its reply is due back as the next
    /// message.
    pub fn dispatch(&mut self, msg: AppMsg) -> (r: Option<StoreRequest>)
        requires
            old(self).wf(),
        ensures
            final(self).wf(),
            final(self)@ == app_run(old(self)@, msg).0,
            opt_request_view(r) == app_run(old(self)@, msg).1,
        decreases msg_rank(msg),
    {
        proof {
            lemma_dispatch_ends(self@, msg);
        }
        match self.update(msg) {
            None => None,
            Some(AppOutput::Store(request)) => Some(request),
            Some(AppOutput::Dispatch(next)) => self.dispatch(next),
        }
    }
}

impl Component for App {
    type Msg = AppMsg;

    type Output = AppOutput;

    open spec fn well_formed(&self) -> bool {
        self.wf()
    }

    open spec fn message_of(&self, key: Key) -> Option<AppMsg> {
        self.key_message(key)
    }

    open spec fn steps_to(&self, msg: AppMsg, after: &Self, out: Option<AppOutput>) -> bool {
        &&& after@ == app_step(self@, msg)
        &&& app_output_view(out) == app_output(self@, msg)
    }

    fn handle_key(&self, key: Key) -> Option<AppMsg> {
        self.handle_key(key)
    }

    fn update(&mut self, msg: AppMsg) -> Option<AppOutput> {
        self.update(msg)
    }
}

} // verus!
