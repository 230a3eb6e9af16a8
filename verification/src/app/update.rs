use crate::app::message::{AppMessage, Message};
use crate::app::state::{starting, Model, ModelView, RunningState};
use crate::components::contact_list::{move_down, move_up};
use crate::filter::{filter, filtered, lemma_empty_query_shows_all, shows_matches};
use crate::key::{Key, KeyCode};
use crate::modal::ModalMessage;
use crate::model::ContactView;
use crate::text::{chars_of, push_char, string_of};
use vstd::prelude::*;

verus! {

/// The message that a key stands for in the plain browser, if any. Control
/// with `q` quits; any other character goes into the query.
pub open spec fn model_key(key: Key) -> Option<Message> {
    match key.code {
        KeyCode::Char(c) => if key.ctrl && c == 'q' {
            Some(Message::App(AppMessage::Quit))
        } else {
            Some(Message::App(AppMessage::UpdateQueryAppend(c)))
        },
        KeyCode::Home => Some(Message::App(AppMessage::MoveStart)),
        KeyCode::Up => Some(Message::App(AppMessage::MoveUp)),
        KeyCode::Down => Some(Message::App(AppMessage::MoveDown)),
        KeyCode::End => Some(Message::App(AppMessage::MoveEnd)),
        KeyCode::Esc => Some(Message::App(AppMessage::ClearQuery)),
        KeyCode::Enter => Some(Message::App(AppMessage::Select)),
        KeyCode::Backspace => Some(Message::App(AppMessage::UpdateQueryBackspace)),
        _ => None,
    }
}

/// The state with a new query: it shows what the query shows of all
/// contacts, the first entry selected.
pub open spec fn with_query(s: ModelView, query: Seq<char>) -> ModelView {
    ModelView { query, filtered: filtered(s.all, query), selected: 0, ..s }
}

/// A query without its last character; the empty query stays empty.
pub open spec fn shortened(query: Seq<char>) -> Seq<char> {
    if query.len() > 0 {
        query.drop_last()
    } else {
        query
    }
}

/// The state of the plain browser after a message. Moving stops at the first
/// and at the last contact shown. Every change of the query shows the
/// contacts anew. Clearing an empty query ends the browser, as quitting and
/// selecting do.
pub open spec fn model_step(s: ModelView, msg: AppMessage) -> ModelView {
    let len = s.filtered.len();
    match msg {
        AppMessage::MoveUp => ModelView { selected: move_up(s.selected, 1), ..s },
        AppMessage::MoveDown => ModelView { selected: move_down(s.selected, 1, len), ..s },
        AppMessage::MoveStart => ModelView { selected: 0, ..s },
        AppMessage::MoveEnd => ModelView {
            selected: if len == 0 {
                0
            } else {
                (len - 1) as nat
            },
            ..s
        },
        AppMessage::Quit => ModelView { running: RunningState::Done, ..s },
        AppMessage::Select => ModelView { running: RunningState::Done, ..s },
        AppMessage::UpdateQueryAppend(c) => with_query(s, s.query.push(c)),
        AppMessage::UpdateQueryBackspace => with_query(s, shortened(s.query)),
        AppMessage::ClearQuery => if s.query.len() == 0 {
            ModelView { running: RunningState::Done, ..s }
        } else {
            with_query(s, Seq::empty())
        },
    }
}

/// The state after a message for the browser or for its modal. A message for
/// the modal leaves the state as it is.
pub open spec fn message_step(s: ModelView, msg: Message) -> ModelView {
    match msg {
        Message::App(m) => model_step(s, m),
        Message::Modal(_) => s,
    }
}

/// The state after a run of messages, applied from left to right.
pub open spec fn model_run(s: ModelView, msgs: Seq<Message>) -> ModelView
    decreases msgs.len(),
{
    if msgs.len() == 0 {
        s
    } else {
        message_step(model_run(s, msgs.drop_last()), msgs.last())
    }
}

/// The plain browser in good order: it shows what its query shows of all
/// contacts, and its selection points at one of the contacts shown, or
/// stands at 0 where none is shown.
pub open spec fn model_wf(s: ModelView) -> bool {
    &&& s.filtered == filtered(s.all, s.query)
    &&& (s.selected < s.filtered.len() || (s.filtered.len() == 0 && s.selected == 0))
}

/// The starting state is in good order.
pub proof fn lemma_starting_is_wf(contacts: Seq<ContactView>)
    ensures
        model_wf(starting(contacts)),
{
    lemma_empty_query_shows_all(contacts);
}

/// No message takes the plain browser out of good order, and none changes
/// what contacts there are.
pub proof fn lemma_message_keeps_wf(s: ModelView, msg: Message)
    requires
        model_wf(s),
    ensures
        model_wf(message_step(s, msg)),
        message_step(s, msg).all == s.all,
{
}

/// However many messages arrive, and in whatever order, the selection of a
/// browser that started in good order stays on the contacts shown: between 0
/// and one less than their number.
pub proof fn lemma_model_selection_stays_in_range(s: ModelView, msgs: Seq<Message>)
    requires
        model_wf(s),
    ensures
        model_wf(model_run(s, msgs)),
        model_run(s, msgs).all == s.all,
        model_run(s, msgs).filtered.len() > 0 ==> 0 <= model_run(s, msgs).selected
            <= model_run(s, msgs).filtered.len() - 1,
    decreases msgs.len(),
{
    if msgs.len() > 0 {
        lemma_model_selection_stays_in_range(s, msgs.drop_last());
        lemma_message_keeps_wf(model_run(s, msgs.drop_last()), msgs.last());
    }
}

/// The message that `key` stands for, if any.
pub fn handle_key(key: Key) -> (r: Option<Message>)
    ensures
        r == model_key(key),
{
    match key.code {
        KeyCode::Char(c) => {
            if key.ctrl && c == 'q' {
                Some(Message::App(AppMessage::Quit))
            } else {
                Some(Message::App(AppMessage::UpdateQueryAppend(c)))
            }
        },
        KeyCode::Home => Some(Message::App(AppMessage::MoveStart)),
        KeyCode::Up => Some(Message::App(AppMessage::MoveUp)),
        KeyCode::Down => Some(Message::App(AppMessage::MoveDown)),
        KeyCode::End => Some(Message::App(AppMessage::MoveEnd)),
        KeyCode::Esc => Some(Message::App(AppMessage::ClearQuery)),
        KeyCode::Enter => Some(Message::App(AppMessage::Select)),
        KeyCode::Backspace => Some(Message::App(AppMessage::UpdateQueryBackspace)),
        _ => None,
    }
}

/// Shows what the query shows of all contacts, and selects the first entry.
pub fn apply_filter(model: &mut Model)
    ensures
        final(model).all_contacts == old(model).all_contacts,
        final(model)@ == with_query(old(model)@, old(model)@.query),
        shows_matches(
            old(model).all_contacts@,
            old(model).search_query@,
            final(model).filtered_contacts@,
        ),
{
    model.filtered_contacts = filter(model.all_contacts.as_slice(), model.search_query.as_str());
    model.selected_index = 0;
}

/// Takes the last character off a text, if it has one.
fn drop_last_char(text: &mut String)
    ensures
        final(text)@ == shortened(old(text)@),
{
    let mut chars = chars_of(text.as_str());
    if chars.len() > 0 {
        chars.pop();
        *text = string_of(&chars);
    }
}

/// Applies one message for the browser itself. Nothing is handed back.
pub fn update_app(model: &mut Model, msg: AppMessage) -> (r: Option<Message>)
    ensures
        final(model).all_contacts == old(model).all_contacts,
        final(model)@ == model_step(old(model)@, msg),
        r is None,
{
    let len = model.filtered_contacts.len();
    match msg {
        AppMessage::MoveUp => {
            if model.selected_index > 0 {
                model.selected_index -= 1;
            }
        },
        AppMessage::MoveDown => {
            if len > 0 {
                model.selected_index = if model.selected_index < len - 1 {
                    model.selected_index + 1
                } else {
                    len - 1
                };
            }
        },
        AppMessage::MoveStart => {
            model.selected_index = 0;
        },
        AppMessage::MoveEnd => {
            model.selected_index = if len == 0 {
                0
            } else {
                len - 1
            };
        },
        AppMessage::Quit => {
            model.running_state = RunningState::Done;
        },
        AppMessage::UpdateQueryAppend(c) => {
            push_char(&mut model.search_query, c);
            apply_filter(model);
        },
        AppMessage::UpdateQueryBackspace => {
            drop_last_char(&mut model.search_query);
            apply_filter(model);
        },
        AppMessage::ClearQuery => {
            if model.search_query.as_str().is_empty() {
                model.running_state = RunningState::Done;
            } else {
                model.search_query = String::new();
                apply_filter(model);
            }
        },
        AppMessage::Select => {
            model.running_state = RunningState::Done;
        },
    }
    None
}

/// Hands a message to the modal on show, if there is one. The state stays as
/// it is, and nothing is handed back.
pub fn update_modal(model: &mut Model, msg: ModalMessage) -> (r: Option<Message>)
    ensures
        *final(model) == *old(model),
        r is None,
{
    match &mut model.modal {
        Some(modal) => {
            modal.update(msg);
        },
        None => {},
    }
    None
}

/// Applies one message, for the browser or for its modal. Nothing is ever
/// handed back, so no message sets off another.
pub fn update(model: &mut Model, msg: Message) -> (r: Option<Message>)
    ensures
        final(model).all_contacts == old(model).all_contacts,
        final(model)@ == message_step(old(model)@, msg),
        r is None,
{
    match msg {
        Message::App(app_msg) => update_app(model, app_msg),
        Message::Modal(modal_msg) => update_modal(model, modal_msg),
    }
}

} // verus!
