use crate::limits::Platform;
use vstd::prelude::*;
use vstd::string::*;

verus! {

/// The occasions on which the user is notified.
#[derive(PartialEq, Eq, Clone, Copy, Debug, Structural)]
pub enum NotificationType {
    FirstStepDone,
    FirstStepDoneBC,
    BackupCanceled,
    BackupStarted,
    BackupDone,
    GenericError,
    ConfigError,
}

/// The severity of a message dialog.
#[derive(PartialEq, Eq, Clone, Copy, Debug, Structural)]
pub enum MessageKind {
    Info,
    Warning,
    Error,
}

/// What is to be shown to the user.
#[derive(Debug)]
pub enum Popup {
    /// A desktop notification.
    Notification { summary: String, body: String, icon: String },
    /// A message dialog without a button of its own. If `close_first` names
    /// the title of an earlier dialog, that one is closed before this one
    /// is shown.
    Dialog { close_first: Option<String>, kind: MessageKind, title: String, text: String },
}

/// A `Popup` as mathematical values.
pub enum PopupModel {
    Notification { summary: Seq<char>, body: Seq<char>, icon: Seq<char> },
    Dialog { close_first: Option<Seq<char>>, kind: MessageKind, title: Seq<char>, text: Seq<char> },
}

impl View for Popup {
    type V = PopupModel;

    open spec fn view(&self) -> PopupModel {
        match self {
            Popup::Notification { summary, body, icon } => PopupModel::Notification {
                summary: summary@,
                body: body@,
                icon: icon@,
            },
            Popup::Dialog { close_first, kind, title, text } => PopupModel::Dialog {
                close_first: match close_first {
                    Some(t) => Some(t@),
                    None => None,
                },
                kind: *kind,
                title: title@,
                text: text@,
            },
        }
    }
}

/// Whether the occasion is an error, whose text the caller supplies.
pub open spec fn is_error(notification_type: NotificationType) -> bool {
    notification_type == NotificationType::GenericError || notification_type
        == NotificationType::ConfigError
}

/// The text of a desktop notification.
pub open spec fn notification_body(notification_type: NotificationType, msg: Option<Seq<char>>)
    -> Seq<char> {
    match notification_type {
        NotificationType::BackupDone => "Backup done"@,
        NotificationType::BackupStarted => "Backup started"@,
        NotificationType::BackupCanceled => "Backup canceled"@,
        NotificationType::FirstStepDoneBC => "Emergency backup software was activated. By making 3 consecutive quick clicks:\n- left clicks you will confirm\n- right clicks you will cancel"@,
        NotificationType::FirstStepDone => "Emergency backup software was activated. By drawing a:\n- clockwise rectangle you will confirm\n- counterclockwise rectangle you will cancel"@,
        _ => match msg {
            Some(text) => text,
            None => "An error occurred"@,
        },
    }
}

/// The icon of a desktop notification.
pub open spec fn notification_icon(notification_type: NotificationType) -> Seq<char> {
    match notification_type {
        NotificationType::BackupDone => "face-smile"@,
        NotificationType::BackupStarted => "dialog-information"@,
        NotificationType::BackupCanceled => "dialog-warning"@,
        NotificationType::FirstStepDoneBC => "dialog-information"@,
        NotificationType::FirstStepDone => "dialog-information"@,
        _ => "dialog-error"@,
    }
}

/// The severity of the dialog of an occasion.
pub open spec fn dialog_kind(notification_type: NotificationType) -> MessageKind {
    match notification_type {
        NotificationType::FirstStepDone => MessageKind::Warning,
        NotificationType::FirstStepDoneBC => MessageKind::Warning,
        NotificationType::BackupDone => MessageKind::Info,
        NotificationType::BackupStarted => MessageKind::Info,
        NotificationType::BackupCanceled => MessageKind::Info,
        _ => MessageKind::Error,
    }
}

/// The title of the dialog of an occasion. The two first steps share one.
pub open spec fn dialog_title(notification_type: NotificationType) -> Seq<char> {
    match notification_type {
        NotificationType::FirstStepDone => "Backup di Emergenza - FirstStepDone"@,
        NotificationType::FirstStepDoneBC => "Backup di Emergenza - FirstStepDone"@,
        NotificationType::BackupDone => "Backup di Emergenza - BackupDone"@,
        NotificationType::BackupStarted => "Backup di Emergenza - BackupStarted"@,
        NotificationType::BackupCanceled => "Backup di Emergenza - BackupCanceled"@,
        _ => "Backup di Emergenza - Error"@,
    }
}

/// The text of the dialog of an occasion.
pub open spec fn dialog_text(notification_type: NotificationType, msg: Option<Seq<char>>) -> Seq<
    char,
>
    recommends
        is_error(notification_type) ==> msg is Some,
{
    match notification_type {
        NotificationType::FirstStepDone => "  Emergency backup software was activated. By drawing a:\n  - clockwise rectangle you will confirm\n  - counterclockwise rectangle you will cancel"@,
        NotificationType::FirstStepDoneBC => "  Emergency backup software was activated. By making 3 consecutive quick clicks:\n  - left clicks you will confirm\n  - right clicks you will cancel"@,
        NotificationType::BackupDone => "  Backup done"@,
        NotificationType::BackupStarted => "  Backup started"@,
        NotificationType::BackupCanceled => "  Backup canceled"@,
        _ => msg->Some_0,
    }
}

/// The title of the dialog that an occasion makes obsolete, if any: the
/// start and the cancellation close the first step, the end closes the
/// start, a first step closes the cancellation.
pub open spec fn obsolete_title(notification_type: NotificationType) -> Option<Seq<char>> {
    match notification_type {
        NotificationType::BackupStarted => Some("Backup di Emergenza - FirstStepDone"@),
        NotificationType::BackupCanceled => Some("Backup di Emergenza - FirstStepDone"@),
        NotificationType::BackupDone => Some("Backup di Emergenza - BackupStarted"@),
        NotificationType::FirstStepDone => Some("Backup di Emergenza - BackupCanceled"@),
        NotificationType::FirstStepDoneBC => Some("Backup di Emergenza - BackupCanceled"@),
        _ => None,
    }
}

/// The popup of an occasion on a platform.
pub open spec fn popup_of(
    platform: Platform,
    notification_type: NotificationType,
    msg: Option<Seq<char>>,
) -> PopupModel
    recommends
        platform == Platform::Windows && is_error(notification_type) ==> msg is Some,
{
    match platform {
        Platform::Windows => PopupModel::Dialog {
            close_first: obsolete_title(notification_type),
            kind: dialog_kind(notification_type),
            title: dialog_title(notification_type),
            text: dialog_text(notification_type, msg),
        },
        Platform::Unix => PopupModel::Notification {
            summary: "Emergency backup"@,
            body: notification_body(notification_type, msg),
            icon: notification_icon(notification_type),
        },
    }
}

/// The texts of an optional string.
pub open spec fn text_of(msg: Option<String>) -> Option<Seq<char>> {
    match msg {
        Some(text) => Some(text@),
        None => None,
    }
}

/// Names the dialog that the dialog of this occasion replaces.
pub fn close_related_popups(notification_type: NotificationType) -> (title: Option<String>)
    ensures
        text_of(title) == obsolete_title(notification_type),
{
    match notification_type {
        NotificationType::BackupStarted | NotificationType::BackupCanceled => Some(
            String::from_str("Backup di Emergenza - FirstStepDone"),
        ),
        NotificationType::BackupDone => Some(
            String::from_str("Backup di Emergenza - BackupStarted"),
        ),
        NotificationType::FirstStepDone | NotificationType::FirstStepDoneBC => Some(
            String::from_str("Backup di Emergenza - BackupCanceled"),
        ),
        _ => None,
    }
}

/// Composes the message dialog of an occasion. An error shows the text
/// that comes with it.
pub fn show_notification_popup(notification_type: NotificationType, msg: Option<String>) -> (popup:
    Popup)
    requires
        is_error(notification_type) ==> msg is Some,
    ensures
        popup@ == popup_of(Platform::Windows, notification_type, text_of(msg)),
{
    let close_first = close_related_popups(notification_type);
    let kind = match notification_type {
        NotificationType::FirstStepDone | NotificationType::FirstStepDoneBC => MessageKind::Warning,
        NotificationType::BackupDone
        | NotificationType::BackupStarted
        | NotificationType::BackupCanceled => MessageKind::Info,
        _ => MessageKind::Error,
    };
    let title = match notification_type {
        NotificationType::FirstStepDone | NotificationType::FirstStepDoneBC => String::from_str(
            "Backup di Emergenza - FirstStepDone",
        ),
        NotificationType::BackupDone => String::from_str("Backup di Emergenza - BackupDone"),
        NotificationType::BackupStarted => String::from_str("Backup di Emergenza - BackupStarted"),
        NotificationType::BackupCanceled => String::from_str(
            "Backup di Emergenza - BackupCanceled",
        ),
        _ => String::from_str("Backup di Emergenza - Error"),
    };
    let text = match notification_type {
        NotificationType::FirstStepDone => String::from_str(
            "  Emergency backup software was activated. By drawing a:\n  - clockwise rectangle you will confirm\n  - counterclockwise rectangle you will cancel",
        ),
        NotificationType::FirstStepDoneBC => String::from_str(
            "  Emergency backup software was activated. By making 3 consecutive quick clicks:\n  - left clicks you will confirm\n  - right clicks you will cancel",
        ),
        NotificationType::BackupDone => String::from_str("  Backup done"),
        NotificationType::BackupStarted => String::from_str("  Backup started"),
        NotificationType::BackupCanceled => String::from_str("  Backup canceled"),
        _ => msg.unwrap(),
    };
    Popup::Dialog { close_first, kind, title, text }
}

/// Composes what is shown to the user on an occasion. On Windows it is a
/// message dialog, which replaces the dialog that the occasion makes
/// obsolete; elsewhere it is a desktop notification, and an error without a
/// text of its own gets a general one.
pub fn show_popup(platform: Platform, notification_type: NotificationType, msg: Option<String>)
    -> (popup: Popup)
    requires
        platform == Platform::Windows && is_error(notification_type) ==> msg is Some,
    ensures
        popup@ == popup_of(platform, notification_type, text_of(msg)),
{
    match platform {
        Platform::Windows => show_notification_popup(notification_type, msg),
        Platform::Unix => {
            let body = match notification_type {
                NotificationType::BackupDone => String::from_str("Backup done"),
                NotificationType::BackupStarted => String::from_str("Backup started"),
                NotificationType::BackupCanceled => String::from_str("Backup canceled"),
                NotificationType::FirstStepDoneBC => String::from_str(
                    "Emergency backup software was activated. By making 3 consecutive quick clicks:\n- left clicks you will confirm\n- right clicks you will cancel",
                ),
                NotificationType::FirstStepDone => String::from_str(
                    "Emergency backup software was activated. By drawing a:\n- clockwise rectangle you will confirm\n- counterclockwise rectangle you will cancel",
                ),
                _ => match msg {
                    Some(text) => text,
                    None => String::from_str("An error occurred"),
                },
            };
            let icon = match notification_type {
                NotificationType::BackupDone => "face-smile",
                NotificationType::BackupStarted => "dialog-information",
                NotificationType::BackupCanceled => "dialog-warning",
                NotificationType::FirstStepDoneBC => "dialog-information",
                NotificationType::FirstStepDone => "dialog-information",
                _ => "dialog-error",
            };
            Popup::Notification {
                summary: String::from_str("Emergency backup"),
                body,
                icon: String::from_str(icon),
            }
        },
    }
}

/// A window of the desktop: its handle, its title and its class.
#[derive(Debug)]
pub struct WindowInfo {
    pub handle: isize,
    pub title: String,
    pub class_name: String,
}

/// Finds the first window with the given title among those enumerated.
pub fn get_window_by_title(windows: &Vec<WindowInfo>, title: &str) -> (found: Option<usize>)
    ensures
        match found {
            Some(i) => i < windows.len() && windows[i as int].title@ == title@ && forall|j: int|
                0 <= j < i ==> (#[trigger] windows[j]).title@ != title@,
            None => forall|j: int| 0 <= j < windows.len() ==> (#[trigger] windows[j]).title@ != title@,
        },
{
    let wanted = String::from_str(title);
    let mut i: usize = 0;
    while i < windows.len()
        invariant
            i <= windows.len(),
            wanted@ == title@,
            forall|j: int| 0 <= j < i ==> (#[trigger] windows[j]).title@ != title@,
        decreases windows.len() - i,
    {
        if windows[i].title == wanted {
            return Some(i);
        }
        i = i + 1;
    }
    None
}

/// Finds the button with the given title among the children enumerated of
/// a dialog.
pub fn get_button_by_parent_handler_and_title(children: &Vec<WindowInfo>, button_title: &str) -> (found:
    Option<usize>)
    ensures
        match found {
            Some(i) => i < children.len() && children[i as int].title@ == button_title@
                && forall|j: int| 0 <= j < i ==> (#[trigger] children[j]).title@ != button_title@,
            None => forall|j: int|
                0 <= j < children.len() ==> (#[trigger] children[j]).title@ != button_title@,
        },
{
    get_window_by_title(children, button_title)
}

/// Says how the dialog whose children were enumerated is closed: by a
/// click on its first button `OK`, whose handle is returned. A dialog
/// without such a button stays open.
pub fn close_popup(children: &Vec<WindowInfo>) -> (button: Option<isize>)
    ensures
        match button {
            Some(handle) => exists|i: int|
                0 <= i < children.len() && (#[trigger] children[i]).title@ == "OK"@ && children[i].handle
                    == handle && forall|j: int|
                    0 <= j < i ==> (#[trigger] children[j]).title@ != "OK"@,
            None => forall|j: int| 0 <= j < children.len() ==> (#[trigger] children[j]).title@ != "OK"@,
        },
{
    match get_button_by_parent_handler_and_title(children, "OK") {
        Some(i) => Some(children[i].handle),
        None => None,
    }
}

/// Whether an enumerated window is kept: it has a title and is visible.
pub fn lists_window(title: &str, visible: bool) -> (kept: bool)
    ensures
        kept == (title@.len() > 0 && visible),
{
    title.unicode_len() > 0 && visible
}

} // verus!
