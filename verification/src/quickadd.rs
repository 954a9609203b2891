//! Quick add: a popup with the add card. Enter adds and closes, Shift+Enter
//! (or Keep adding) adds and stays, Esc closes.

use vstd::prelude::*;
use vstd::string::*;

use crate::addcard::{Target, TargetView};
use crate::change::AddSpec;
use crate::content::target_opt;
use crate::task::ListView;
use crate::text::{glue3, trim, trim_text};

verus! {

/// A key that quick add looks at.
#[derive(Debug, Clone, Copy, PartialEq, Eq, Structural)]
pub enum PopupKey {
    Escape,
    Enter,
    Other,
}

/// What a key does.
#[derive(Debug, Clone, Copy, PartialEq, Eq, Structural)]
pub enum Pressed {
    /// It goes where it was going.
    Passed,
    Close,
    Submit,
}

/// What is asked for.
#[derive(Debug)]
pub enum PopupDo {
    Add(AddSpec),
    Close,
}

/// What is said under the card, and whether it is an error.
#[derive(Debug)]
pub struct Said {
    pub text: String,
    pub error: bool,
}

/// What comes of adding: the list to remember, whether the popup closes, and
/// what it says otherwise.
#[derive(Debug)]
pub struct After {
    pub remember: Option<String>,
    pub closes: bool,
    pub says: Option<Said>,
}

/// The answer to adding a task.
#[derive(Debug)]
pub struct AddedTo {
    pub existed: bool,
    pub summary: String,
    pub list: String,
    pub list_name: String,
}

/// The popup: whether a task is on its way, and whether it stays open after.
#[derive(Debug, Clone, Copy, PartialEq, Eq, Structural)]
pub struct QuickAdd {
    pub busy: bool,
    pub keep_open: bool,
}

/// What is said once a task was added.
pub open spec fn says_added(result: Result<AddedTo, String>, s: Said) -> bool {
    match result {
        Err(e) => s.error && s.text@ == e@,
        Ok(a) => !s.error && s.text@ == (if a.existed {
            "Already there: “"@ + a.summary@ + "”"@
        } else {
            "Added “"@ + a.summary@ + "” to "@ + a.list_name@
        }),
    }
}

impl QuickAdd {
    pub fn new() -> (r: QuickAdd)
        ensures
            r == (QuickAdd { busy: false, keep_open: false }),
    {
        QuickAdd { busy: false, keep_open: false }
    }

    /// A key. `taken` when a popover, or the suggestions under the title, have
    /// it; `in_field` when it is pressed in a field; `keeps` when it is held
    /// with Shift, or Keep adding is on.
    pub fn press(&mut self, key: PopupKey, taken: bool, in_field: bool, keeps: bool) -> (r: Pressed)
        ensures
            if taken {
                r == Pressed::Passed && *final(self) == *old(self)
            } else if key == PopupKey::Escape {
                r == Pressed::Close && *final(self) == *old(self)
            } else if key == PopupKey::Enter && in_field {
                r == Pressed::Submit && *final(self) == (QuickAdd { keep_open: keeps, ..*old(self) })
            } else {
                r == Pressed::Passed && *final(self) == *old(self)
            },
    {
        if taken {
            return Pressed::Passed;
        }
        if key == PopupKey::Escape {
            Pressed::Close
        } else if key == PopupKey::Enter && in_field {
            self.keep_open = keeps;
            Pressed::Submit
        } else {
            Pressed::Passed
        }
    }

    /// A task to add; one at a time.
    pub fn add_task(&mut self, spec: AddSpec) -> (r: Option<PopupDo>)
        ensures
            if old(self).busy {
                r is None && *final(self) == *old(self)
            } else {
                r == Some(PopupDo::Add(spec)) && *final(self) == (QuickAdd {
                    busy: true,
                    ..*old(self)
                })
            },
    {
        if self.busy {
            return None;
        }
        self.busy = true;
        Some(PopupDo::Add(spec))
    }

    /// The answer: the popup closes, or says what became of it and stays.
    pub fn added(&mut self, result: Result<AddedTo, String>, remember: bool) -> (r: After)
        ensures
            *final(self) == (QuickAdd { busy: false, keep_open: false }),
            r.closes == (result is Ok && !old(self).keep_open),
            r.remember == (match result {
                Ok(a) if remember => Some(a.list),
                _ => None,
            }),
            r.says is Some == !r.closes,
            r.says matches Some(s) ==> says_added(result, s),
    {
        let stays = self.keep_open;
        self.busy = false;
        self.keep_open = false;
        match result {
            Err(e) => After {
                remember: None,
                closes: false,
                says: Some(Said { text: e, error: true }),
            },
            Ok(a) => {
                let list = if remember {
                    Some(a.list.clone())
                } else {
                    None
                };
                if !stays {
                    return After { remember: list, closes: true, says: None };
                }
                let text = if a.existed {
                    glue3("Already there: “", a.summary.as_str(), "”")
                } else {
                    let mut s = glue3("Added “", a.summary.as_str(), "” to ");
                    s.append(a.list_name.as_str());
                    s
                };
                After { remember: list, closes: false, says: Some(Said { text, error: false }) }
            },
        }
    }
}

/// A list that can be written has an address.
pub open spec fn can_start_in(lists: Seq<ListView>, href: Seq<char>) -> bool {
    exists|i: int| 0 <= i < lists.len() && (#[trigger] lists[i]).href@ == href && lists[i].writable
}

/// Where the card starts: in the list of the last task, if that is to be
/// remembered and there still is such a list.
pub fn start_target(lists: &[ListView], last: &str, remember: bool) -> (r: Option<Target>)
    ensures
        target_opt(r) == (if remember && can_start_in(lists@, trim(last@)) {
            Some(TargetView::List(trim(last@)))
        } else {
            None
        }),
{
    if !remember {
        return None;
    }
    let href = trim_text(last);
    for i in 0..lists.len()
        invariant
            href@ == trim(last@),
            remember,
            forall|j: int|
                0 <= j < i ==> !((#[trigger] lists@[j]).href@ == href@ && lists@[j].writable),
    {
        if lists[i].href == href && lists[i].writable {
            return Some(Target::List(href));
        }
    }
    None
}

/// Whether starting it once more closes it: the key that opens it toggles.
pub fn closes_again(activations: u32) -> (r: bool)
    ensures
        r == (activations > 1),
{
    activations > 1
}

} // verus!
