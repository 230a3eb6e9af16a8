use crate::components::component::Component;
use crate::key::Key;
use crate::mode::{AppMode, AppModeView};
use crate::text::{append_decimal, decimal};
use vstd::prelude::*;
use vstd::string::*;

verus! {

/// What a status bar can be told.
#[derive(Debug)]
pub enum StatusBarMsg {
    UpdateCounts { total: usize, filtered: usize },
    UpdateMode(AppMode),
}

/// The line at the foot of the screen: key help for the current mode, and how
/// many contacts are shown out of how many.
#[derive(Debug)]
pub struct StatusBar {
    total_contacts: usize,
    filtered_contacts: usize,
    current_mode: AppMode,
}

/// The state of a status bar as plain mathematical values.
pub struct StatusBarView {
    pub total: nat,
    pub filtered: nat,
    pub mode: AppModeView,
}

impl View for StatusBar {
    type V = StatusBarView;

    closed spec fn view(&self) -> StatusBarView {
        StatusBarView {
            total: self.total_contacts as nat,
            filtered: self.filtered_contacts as nat,
            mode: self.current_mode@,
        }
    }
}

/// The state of a status bar after a message.
pub open spec fn status_step(s: StatusBarView, msg: StatusBarMsg) -> StatusBarView {
    match msg {
        StatusBarMsg::UpdateCounts { total, filtered } => StatusBarView {
            total: total as nat,
            filtered: filtered as nat,
            ..s
        },
        StatusBarMsg::UpdateMode(mode) => StatusBarView { mode: mode@, ..s },
    }
}

/// The key help for a mode.
pub open spec fn help_text(mode: AppModeView) -> Seq<char> {
    match mode {
        AppModeView::Browse =>
            "↑↓: Navigate | Enter: Select | Ctrl+A: Add | Ctrl+E: Edit | Ctrl+D: Delete | Ctrl+Q: Quit"@,
        AppModeView::ContactForm => "Tab: Next Field | Enter: Save | Esc: Cancel"@,
        AppModeView::Delete => "Y: Confirm | N/Esc: Cancel"@,
        AppModeView::Error(_) => "Esc: Dismiss"@,
    }
}

/// The counts as shown: contacts on display, a stroke, contacts in all.
pub open spec fn counts_text(s: StatusBarView) -> Seq<char> {
    "Contacts: "@ + decimal(s.filtered) + "/"@ + decimal(s.total)
}

impl Default for StatusBar {
    fn default() -> (r: Self)
        ensures
            r@ == (StatusBarView { total: 0, filtered: 0, mode: AppModeView::Browse }),
    {
        StatusBar { total_contacts: 0, filtered_contacts: 0, current_mode: AppMode::Browse }
    }
}

impl StatusBar {
    /// A status bar for browsing an empty list.
    pub fn new() -> (r: Self)
        ensures
            r@ == (StatusBarView { total: 0, filtered: 0, mode: AppModeView::Browse }),
    {
        StatusBar { total_contacts: 0, filtered_contacts: 0, current_mode: AppMode::Browse }
    }

    /// Takes over new counts or a new mode.
    pub fn update(&mut self, msg: StatusBarMsg)
        ensures
            final(self)@ == status_step(old(self)@, msg),
    {
        match msg {
            StatusBarMsg::UpdateCounts { total, filtered } => {
                self.total_contacts = total;
                self.filtered_contacts = filtered;
            },
            StatusBarMsg::UpdateMode(mode) => {
                self.current_mode = mode;
            },
        }
    }

    /// The key help for the current mode.
    pub fn get_help_text(&self) -> (r: &'static str)
        ensures
            r@ == help_text(self@.mode),
    {
        match self.current_mode {
            AppMode::Browse =>
                "↑↓: Navigate | Enter: Select | Ctrl+A: Add | Ctrl+E: Edit | Ctrl+D: Delete | Ctrl+Q: Quit",
            AppMode::ContactForm => "Tab: Next Field | Enter: Save | Esc: Cancel",
            AppMode::Delete => "Y: Confirm | N/Esc: Cancel",
            AppMode::Error(_) => "Esc: Dismiss",
        }
    }

    /// The counts, ready to be shown.
    pub fn get_counts_text(&self) -> (r: String)
        ensures
            r@ == counts_text(self@),
    {
        let mut r = "Contacts: ".to_owned();
        append_decimal(&mut r, self.filtered_contacts);
        r.append("/");
        append_decimal(&mut r, self.total_contacts);
        r
    }
}

impl Component for StatusBar {
    type Msg = StatusBarMsg;

    type Output = StatusBarMsg;

    open spec fn well_formed(&self) -> bool {
        true
    }

    open spec fn message_of(&self, key: Key) -> Option<StatusBarMsg> {
        None
    }

    open spec fn steps_to(
        &self,
        msg: StatusBarMsg,
        after: &Self,
        out: Option<StatusBarMsg>,
    ) -> bool {
        &&& after@ == status_step(self@, msg)
        &&& out is None
    }

    /// A status bar reacts to no key.
    fn handle_key(&self, key: Key) -> Option<StatusBarMsg> {
        None
    }

    /// Takes the message over and reports nothing.
    fn update(&mut self, msg: StatusBarMsg) -> Option<StatusBarMsg> {
        self.update(msg);
        None
    }
}

} // verus!
