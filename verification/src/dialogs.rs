//! Dialogs: a list's name and color, and what is said before something is
//! deleted.

use vstd::prelude::*;
use vstd::string::*;

use crate::cli::alike;
use crate::number::{decimal, decimal_text};
use crate::task::ListView;
use crate::text::{chars, glue3, same_chars, trim, trim_text, upper_ascii};

verus! {

/// The colors that lists have, by name.
pub const COLORS: [(&'static str, &'static str); 20] = [
    ("Berry Red", "#c42d78"),
    ("Red", "#e23d3d"),
    ("Orange", "#ff8a2a"),
    ("Yellow", "#f5c400"),
    ("Olive Green", "#9cab3a"),
    ("Lime Green", "#70c741"),
    ("Green", "#27983a"),
    ("Mint Green", "#55cbb0"),
    ("Teal", "#1492b2"),
    ("Sky Blue", "#139ef7"),
    ("Light Blue", "#7fb9e8"),
    ("Blue", "#3c6dff"),
    ("Grape", "#7b44e6"),
    ("Violet", "#a02adb"),
    ("Lavender", "#d89ae8"),
    ("Magenta", "#d6458d"),
    ("Salmon", "#f77c70"),
    ("Charcoal", "#666666"),
    ("Grey", "#a0a0a0"),
    ("Taupe", "#b99780"),
];

/// What asst is.
pub const ABOUT: &'static str =
    "Tasks and reminders on Nextcloud, in step with Apple Reminders on the iPhone.";

/// Signing in: the title, why, and what to do meanwhile.
pub const SIGN_IN: (&'static str, &'static str, &'static str) = (
    "Sign in to Nextcloud",
    "asst keeps your tasks on Nextcloud, where Apple Reminders on your iPhone finds them too.",
    "Approve asst in the browser, then come back.",
);

/// The keys: the section, what they do, and the accelerators.
pub const SHORTCUTS: [(&'static str, &'static str, &'static str); 33] = [
    ("Moving around", "Next / previous task", "j k"),
    ("Moving around", "First / last task", "g G"),
    ("Moving around", "Previous / next view", "bracketleft bracketright"),
    ("Moving around", "Inbox", "<Control>i"),
    ("Moving around", "Today", "<Control>t"),
    ("Moving around", "Scheduled", "<Control>u"),
    ("Moving around", "A list in the sidebar", "<Control>1...<Control>9"),
    ("Moving around", "Quick Find", "<Control>f slash"),
    ("Moving around", "Show or hide the sidebar", "<Control>b"),
    ("Tasks", "Add a task", "a"),
    ("Tasks", "Open the selected task", "e Return"),
    ("Tasks", "Complete or reopen", "x space"),
    ("Tasks", "Delete", "d+d"),
    ("Tasks", "Priority 1–4", "1...4"),
    ("Tasks", "Due today / tomorrow", "t m"),
    ("Tasks", "Next week", "w"),
    ("Tasks", "Select tasks", "v"),
    ("Tasks", "From the title to the notes", "Tab"),
    ("Tasks", "Pick a date or reminders for the open task", "<Control>d <Control>r"),
    ("Tasks", "Close the task or selection", "Escape"),
    ("Adding", "Add and keep going", "Return"),
    ("Adding", "Add from the notes", "<Control>Return"),
    ("Adding", "Add a task from the clipboard", "<Control>v"),
    ("Adding", "Pick a date", "<Control>d"),
    ("Adding", "Pick reminders", "<Control>r"),
    ("Adding", "Keep quick add open", "<Control>k"),
    ("Adding", "Stop adding", "Escape"),
    ("General", "New list", "p"),
    ("General", "Sync now", "s"),
    ("General", "Preferences", "<Control>comma"),
    ("General", "Keyboard shortcuts", "question"),
    ("General", "Close the window", "<Control>w"),
    ("General", "Quit", "<Control>q"),
];

/// The color a list starts with in the dialog: its own, or blue.
pub open spec fn first_color(list: Option<&ListView>) -> Seq<char> {
    match list {
        Some(l) => match l.color {
            Some(c) => c@,
            None => "#3c6dff"@,
        },
        None => "#3c6dff"@,
    }
}

/// The dialog's title, its button, the name and the color it starts with.
pub fn list_dialog(list: Option<&ListView>) -> (r: (&'static str, &'static str, String, String))
    ensures
        r.0@ == (if list is Some {
            "Edit List"@
        } else {
            "New List"@
        }),
        r.1@ == (if list is Some {
            "Save"@
        } else {
            "Add List"@
        }),
        r.2@ == (match list {
            Some(l) => l.name@,
            None => Seq::empty(),
        }),
        r.3@ == first_color(list),
{
    match list {
        Some(l) => {
            let color = match &l.color {
                Some(c) => c.clone(),
                None => String::from_str("#3c6dff"),
            };
            ("Edit List", "Save", l.name.clone(), color)
        },
        None => ("New List", "Add List", String::new(), String::from_str("#3c6dff")),
    }
}

/// Whether a swatch is the color chosen, in any case of its letters.
pub fn is_chosen(chosen: &str, color: &str) -> (r: bool)
    ensures
        r == alike(chosen@, color@),
{
    same_chars(&upper_ascii(&chars(chosen)), &upper_ascii(&chars(color)))
}

/// The name to save; none when there is nothing but space.
pub fn name_to_save(typed: &str) -> (r: Option<String>)
    ensures
        match r {
            Some(s) => s@ == trim(typed@) && s@.len() > 0,
            None => trim(typed@).len() == 0,
        },
{
    let s = trim_text(typed);
    if s.as_str().is_empty() {
        None
    } else {
        Some(s)
    }
}

/// What goes with a list that is deleted.
pub open spec fn delete_list_body(open: nat) -> Seq<char> {
    if open == 0 {
        "Nextcloud keeps deleted lists in its trash bin for a while, where they can be restored from the web."@
    } else if open == 1 {
        "Its 1 open task goes with it, on every device. Nextcloud keeps deleted lists in its trash bin for a while."@
    } else {
        "Its "@ + decimal(open)
            + " open tasks go with it, on every device. Nextcloud keeps deleted lists in its trash bin for a while."@
    }
}

/// The question before a list is deleted, and what goes with it.
pub fn delete_list_words(name: &str, open: usize) -> (r: (String, String))
    ensures
        r.0@ == "Delete “"@ + name@ + "”?"@,
        r.1@ == delete_list_body(open as nat),
{
    let body = if open == 0 {
        String::from_str(
            "Nextcloud keeps deleted lists in its trash bin for a while, where they can be restored from the web.",
        )
    } else if open == 1 {
        String::from_str(
            "Its 1 open task goes with it, on every device. Nextcloud keeps deleted lists in its trash bin for a while.",
        )
    } else {
        glue3(
            "Its ",
            decimal_text(open as u64).as_str(),
            " open tasks go with it, on every device. Nextcloud keeps deleted lists in its trash bin for a while.",
        )
    };
    (glue3("Delete “", name, "”?"), body)
}

/// The question before completed tasks are deleted, and where they go from:
/// a list's name in quotes, or `every list`.
pub fn delete_completed_words(n: usize, from: &str) -> (r: (String, String))
    ensures
        r.0@ == (if n == 1 {
            "Delete 1 completed task?"@
        } else {
            "Delete "@ + decimal(n as nat) + " completed tasks?"@
        }),
        r.1@ == "They go from "@ + from@
            + " on every device, the iPhone too. Nextcloud keeps deleted tasks in its trash bin for a while."@,
{
    let heading = if n == 1 {
        String::from_str("Delete 1 completed task?")
    } else {
        glue3("Delete ", decimal_text(n as u64).as_str(), " completed tasks?")
    };
    let body = glue3(
        "They go from ",
        from,
        " on every device, the iPhone too. Nextcloud keeps deleted tasks in its trash bin for a while.",
    );
    (heading, body)
}

/// What is said once completed tasks were deleted; nothing when there were
/// none.
pub fn deleted_completed(n: u32) -> (r: String)
    ensures
        r@ == (if n == 0 {
            Seq::empty()
        } else if n == 1 {
            "Deleted 1 completed task"@
        } else {
            "Deleted "@ + decimal(n as nat) + " completed tasks"@
        }),
{
    if n == 0 {
        String::new()
    } else if n == 1 {
        String::from_str("Deleted 1 completed task")
    } else {
        glue3("Deleted ", decimal_text(n as u64).as_str(), " completed tasks")
    }
}

/// What is said of a task that was opened again, or copied.
pub fn said_of(verb: &str, summary: &str) -> (r: String)
    ensures
        r@ == verb@ + " "@ + crate::steps::in_quotes(summary@),
{
    glue3(verb, " ", crate::steps::quoted(summary).as_str())
}

} // verus!
