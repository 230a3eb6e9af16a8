use vstd::prelude::*;

verus! {

/// What the application is doing: browsing, or showing one of its overlays.
/// Exactly one mode is active at a time.
#[derive(Debug, PartialEq, Eq)]
pub enum AppMode {
    Browse,
    Delete,
    ContactForm,
    Error(String),
}

/// A mode as plain mathematical values.
pub enum AppModeView {
    Browse,
    Delete,
    ContactForm,
    Error(Seq<char>),
}

impl View for AppMode {
    type V = AppModeView;

    open spec fn view(&self) -> AppModeView {
        match self {
            AppMode::Browse => AppModeView::Browse,
            AppMode::Delete => AppModeView::Delete,
            AppMode::ContactForm => AppModeView::ContactForm,
            AppMode::Error(message) => AppModeView::Error(message@),
        }
    }
}

impl Clone for AppMode {
    fn clone(&self) -> (r: Self)
        ensures
            r == *self,
    {
        match self {
            AppMode::Browse => AppMode::Browse,
            AppMode::Delete => AppMode::Delete,
            AppMode::ContactForm => AppMode::ContactForm,
            AppMode::Error(message) => AppMode::Error(message.clone()),
        }
    }
}

impl Default for AppMode {
    fn default() -> (r: Self)
        ensures
            r == AppMode::Browse,
    {
        AppMode::Browse
    }
}

} // verus!
