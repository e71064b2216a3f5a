//! The front end's plain state values.
//!
//! The engine's records are shown by a terminal front end that lives
//! outside the library. The values it keeps between frames — modals,
//! notifications, focus, key events — are plain data, and the reducer in
//! [`crate::state`] moves them around, so they are modelled here; all
//! rendering stays outside.

use vstd::prelude::*;

verus! {

/// What a modal asks of the user.
#[derive(Clone, Copy, PartialEq, Eq, Structural, Debug)]
pub enum ModalType {
    YesNo,
    Okay,
    Custom,
}

/// The option a yes/no modal has selected.
#[derive(Clone, Copy, PartialEq, Eq, Structural, Debug)]
pub enum ModalOpt {
    Yes,
    No,
}

impl ModalOpt {
    /// The other option.
    pub fn toggle(&self) -> (r: ModalOpt)
        ensures
            r == match *self {
                ModalOpt::Yes => ModalOpt::No,
                ModalOpt::No => ModalOpt::Yes,
            },
    {
        match *self {
            ModalOpt::Yes => ModalOpt::No,
            ModalOpt::No => ModalOpt::Yes,
        }
    }

    /// Flip to the other option in place.
    pub fn mut_toggle(&mut self)
        ensures
            *final(self) == match *old(self) {
                ModalOpt::Yes => ModalOpt::No,
                ModalOpt::No => ModalOpt::Yes,
            },
    {
        *self = self.toggle()
    }
}

/// One modal dialog's state.
#[derive(PartialEq, Debug)]
pub struct Modal {
    pub modal_type: ModalType,
    pub title: String,
    pub message: String,
    pub selected: ModalOpt,
}

impl Modal {
    /// A fresh modal with `Yes` selected.
    pub fn new(title: &str, message: &str, modal_type: ModalType) -> (m: Modal)
        ensures
            m.title@ == title@,
            m.message@ == message@,
            m.selected == ModalOpt::Yes,
            m.modal_type == modal_type,
    {
        Modal {
            title: title.to_owned(),
            message: message.to_owned(),
            selected: ModalOpt::Yes,
            modal_type,
        }
    }

    /// A field-for-field copy.
    pub fn duplicate(&self) -> (m: Modal)
        ensures
            m == *self,
    {
        Modal {
            modal_type: self.modal_type,
            title: self.title.clone(),
            message: self.message.clone(),
            selected: self.selected,
        }
    }
}

/// How loud a notification is.
#[derive(Clone, Copy, PartialEq, Eq, Structural, Debug)]
pub enum NotificationLevel {
    Info,
    Warn,
}

/// A short notice in the corner of the screen.
#[derive(PartialEq, Debug)]
pub struct Notification {
    pub title: String,
    pub message: String,
    pub level: NotificationLevel,
}

impl Default for Notification {
    /// An empty informational status notice.
    fn default() -> (n: Notification)
        ensures
            n.title@ == "Status"@,
            n.message@ == Seq::<char>::empty(),
            n.level == NotificationLevel::Info,
    {
        Notification {
            title: "Status".to_owned(),
            message: String::new(),
            level: NotificationLevel::Info,
        }
    }
}

impl Notification {
    /// An informational notice.
    pub fn info(title: &str, message: &str) -> (n: Notification)
        ensures
            n.title@ == title@,
            n.message@ == message@,
            n.level == NotificationLevel::Info,
    {
        Notification {
            title: title.to_owned(),
            message: message.to_owned(),
            level: NotificationLevel::Info,
        }
    }

    /// A notice at the given level.
    pub fn new(title: &str, message: &str, level: NotificationLevel) -> (n: Notification)
        ensures
            n.title@ == title@,
            n.message@ == message@,
            n.level == level,
    {
        Notification { title: title.to_owned(), message: message.to_owned(), level }
    }

    /// A field-for-field copy.
    pub fn duplicate(&self) -> (n: Notification)
        ensures
            n == *self,
    {
        Notification {
            title: self.title.clone(),
            message: self.message.clone(),
            level: self.level,
        }
    }
}

/// The front end's pages.
#[derive(Clone, Copy, PartialEq, Eq, Structural, Debug)]
pub enum Page {
    MainPage,
    ServiceScanPage,
}

/// What part of a page holds the focus.
#[derive(Clone, Copy, PartialEq, Eq, Structural, Debug)]
pub enum PageContent {
    QueryInput,
    HostTable,
    SearchFilters,
    ServiceSelect,
}

impl Default for PageContent {
    /// Focus starts on the host table.
    fn default() -> (r: PageContent)
        ensures
            r == PageContent::HostTable,
    {
        PageContent::HostTable
    }
}

/// Which records the host table shows.
#[derive(Clone, Copy, PartialEq, Eq, Structural, Debug)]
pub enum SearchFilterOption {
    ShowAll,
    ShowFound,
    HasPort(usize),
}

impl Default for SearchFilterOption {
    /// Everything is shown until a filter is picked.
    fn default() -> (r: SearchFilterOption)
        ensures
            r == SearchFilterOption::ShowAll,
    {
        SearchFilterOption::ShowAll
    }
}

/// How a text input is drawn.
#[derive(Clone, Copy, PartialEq, Eq, Structural, Debug)]
pub enum InputStyleState {
    Focused,
}

/// What the event reader hands the front end: a key, or a timer tick.
#[derive(Clone, Copy, PartialEq, Eq, Structural, Debug)]
pub enum Event {
    Key(Key),
    Tick,
}

/// A key press, already freed of the terminal backend's own types.
#[derive(Clone, Copy, PartialEq, Eq, Structural, Debug)]
pub enum Key {
    Char(char),
    Ctrl(char),
    Shift(char),
    Tab,
    BackTab,
    Up,
    Down,
    Left,
    Right,
    PageUp,
    PageDown,
    Backspace,
    Esc,
    Enter,
    Unknown,
}

} // verus!
