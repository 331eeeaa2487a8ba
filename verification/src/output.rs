//! Where text output goes, such as the emoji that was picked.
use vstd::prelude::*;

verus! {

/// Where to put text output.
#[derive(Clone, Copy, PartialEq, Eq, Debug, Structural)]
pub enum OutputChoice {
    /// Copy it to the clipboard (through `wl-copy`).
    Clipboard,
    /// Write it to standard output.
    Stdout,
    /// Write it to standard error.
    Stderr,
}

/// Text output goes to standard output unless asked otherwise: the picked emoji or
/// dmenu line is written there.
impl Default for OutputChoice {
    fn default() -> (c: Self)
        ensures
            c == OutputChoice::Stdout,
    {
        OutputChoice::Stdout
    }
}

/// What the window does with a text.
pub enum OutputAction {
    /// Copy the text to the clipboard, and show the notification body if there is one.
    Clipboard { text: String, notification: Option<String> },
    /// Write the text to standard output.
    Stdout(String),
    /// Write the text to standard error.
    Stderr(String),
}

/// The body of the notification shown after copying `text`.
pub open spec fn copied_notification(text: Seq<char>) -> Seq<char> {
    "Copied to clipboard: "@ + text
}

/// The text of a notification body: "Copied to clipboard: " and the text.
pub fn copied_notification_body(text: &str) -> (r: String)
    ensures
        r@ == copied_notification(text@),
{
    let mut body = String::from_str("Copied to clipboard: ");
    body.append(text);
    body
}

/// What outputting `text` does for the chosen output: the clipboard gets the text
/// and, where asked for, a notification; standard output and error get the text.
pub open spec fn outputs(choice: OutputChoice, text: Seq<char>, notify: bool, r: OutputAction) -> bool {
        match choice {
            OutputChoice::Clipboard => r matches OutputAction::Clipboard { text: t, notification: n }
                && t@ == text && (if notify {
                n matches Some(b) && b@ == copied_notification(text)
            } else {
                n is None
            }),
            OutputChoice::Stdout => r matches OutputAction::Stdout(t) && t@ == text,
            OutputChoice::Stderr => r matches OutputAction::Stderr(t) && t@ == text,
        }
}

/// The output action for a text.
pub fn text_output(choice: OutputChoice, text: &str, notify: bool) -> (r: OutputAction)
    ensures
        outputs(choice, text@, notify, r),
{
    match choice {
        OutputChoice::Clipboard => {
            let notification = if notify {
                Some(copied_notification_body(text))
            } else {
                None
            };
            OutputAction::Clipboard { text: text.to_owned(), notification }
        },
        OutputChoice::Stdout => OutputAction::Stdout(text.to_owned()),
        OutputChoice::Stderr => OutputAction::Stderr(text.to_owned()),
    }
}

} // verus!
