//! Event command codes used by the RPG Maker MV/MZ engines.

use vstd::prelude::*;

verus! {

/// Event command codes used in RPG Maker MV/MZ event lists.
#[derive(Debug, Clone, Copy, PartialEq, Eq, Hash, Structural)]
pub enum EventCode {
    /// Show Text - carries speaker/face info (101).
    ShowText,
    /// Show Text Body - actual dialogue content (401).
    ShowTextBody,
    /// Show Scrolling Text header (105).
    ShowScrollingText,
    /// Show Scrolling Text body (405).
    ScrollingTextBody,
    /// Comment header (108).
    Comment,
    /// Comment body/continuation (408).
    CommentBody,
    /// Show Choices - multiple choice options (102).
    ShowChoices,
    /// When [Choice] - choice branch handler (402).
    WhenChoice,
    /// When Cancel - cancel branch handler (403).
    WhenCancel,
    /// Choices End (404).
    ChoicesEnd,
    /// Input Number (103).
    InputNumber,
    /// Select Item (104).
    SelectItem,
    /// Plugin Command - MV/MZ plugin commands (357).
    PluginCommand,
    /// Script header (355).
    Script,
    /// Script body/continuation (655).
    ScriptBody,
    /// Script body continuation used by some plugins (657).
    ScriptBodyAlt,
    /// Change Nickname (324).
    ChangeNickname,
    /// Change Profile (325).
    ChangeProfile,
    /// Unknown or custom command code.
    Unknown(i32),
}

impl EventCode {
    /// The numeric value of a code.
    pub open spec fn spec_code(self) -> i32 {
        match self {
            EventCode::ShowText => 101,
            EventCode::ShowTextBody => 401,
            EventCode::ShowScrollingText => 105,
            EventCode::ScrollingTextBody => 405,
            EventCode::Comment => 108,
            EventCode::CommentBody => 408,
            EventCode::ShowChoices => 102,
            EventCode::WhenChoice => 402,
            EventCode::WhenCancel => 403,
            EventCode::ChoicesEnd => 404,
            EventCode::InputNumber => 103,
            EventCode::SelectItem => 104,
            EventCode::PluginCommand => 357,
            EventCode::Script => 355,
            EventCode::ScriptBody => 655,
            EventCode::ScriptBodyAlt => 657,
            EventCode::ChangeNickname => 324,
            EventCode::ChangeProfile => 325,
            EventCode::Unknown(code) => code,
        }
    }

    /// The code an integer stands for.
    pub open spec fn spec_from_code(code: i32) -> EventCode {
        if code == 101 {
            EventCode::ShowText
        } else if code == 401 {
            EventCode::ShowTextBody
        } else if code == 105 {
            EventCode::ShowScrollingText
        } else if code == 405 {
            EventCode::ScrollingTextBody
        } else if code == 108 {
            EventCode::Comment
        } else if code == 408 {
            EventCode::CommentBody
        } else if code == 102 {
            EventCode::ShowChoices
        } else if code == 402 {
            EventCode::WhenChoice
        } else if code == 403 {
            EventCode::WhenCancel
        } else if code == 404 {
            EventCode::ChoicesEnd
        } else if code == 103 {
            EventCode::InputNumber
        } else if code == 104 {
            EventCode::SelectItem
        } else if code == 357 {
            EventCode::PluginCommand
        } else if code == 355 {
            EventCode::Script
        } else if code == 655 {
            EventCode::ScriptBody
        } else if code == 657 {
            EventCode::ScriptBodyAlt
        } else if code == 324 {
            EventCode::ChangeNickname
        } else if code == 325 {
            EventCode::ChangeProfile
        } else {
            EventCode::Unknown(code)
        }
    }

    /// The numeric code value.
    pub fn code(&self) -> (r: i32)
        ensures
            r == self.spec_code(),
    {
        match self {
            EventCode::ShowText => 101,
            EventCode::ShowTextBody => 401,
            EventCode::ShowScrollingText => 105,
            EventCode::ScrollingTextBody => 405,
            EventCode::Comment => 108,
            EventCode::CommentBody => 408,
            EventCode::ShowChoices => 102,
            EventCode::WhenChoice => 402,
            EventCode::WhenCancel => 403,
            EventCode::ChoicesEnd => 404,
            EventCode::InputNumber => 103,
            EventCode::SelectItem => 104,
            EventCode::PluginCommand => 357,
            EventCode::Script => 355,
            EventCode::ScriptBody => 655,
            EventCode::ScriptBodyAlt => 657,
            EventCode::ChangeNickname => 324,
            EventCode::ChangeProfile => 325,
            EventCode::Unknown(code) => *code,
        }
    }

    /// Whether this command carries translatable text.
    pub fn is_translatable(&self) -> (r: bool)
        ensures
            r == matches!(
                *self,
                EventCode::ShowText | EventCode::ShowTextBody | EventCode::ScrollingTextBody
                    | EventCode::CommentBody | EventCode::ShowChoices | EventCode::WhenChoice
                    | EventCode::PluginCommand | EventCode::ScriptBodyAlt
                    | EventCode::ChangeNickname | EventCode::ChangeProfile
            ),
    {
        matches!(
            self,
            EventCode::ShowText | EventCode::ShowTextBody | EventCode::ScrollingTextBody
                | EventCode::CommentBody | EventCode::ShowChoices | EventCode::WhenChoice
                | EventCode::PluginCommand | EventCode::ScriptBodyAlt | EventCode::ChangeNickname
                | EventCode::ChangeProfile
        )
    }

    /// Whether this command continues a previous command.
    pub fn is_continuation(&self) -> (r: bool)
        ensures
            r == matches!(
                *self,
                EventCode::ShowTextBody | EventCode::ScrollingTextBody | EventCode::CommentBody
                    | EventCode::ScriptBody | EventCode::ScriptBodyAlt
            ),
    {
        matches!(
            self,
            EventCode::ShowTextBody | EventCode::ScrollingTextBody | EventCode::CommentBody
                | EventCode::ScriptBody | EventCode::ScriptBodyAlt
        )
    }

    /// A short name for the command.
    pub fn name(&self) -> (r: &'static str)
        ensures
            *self is Unknown ==> r@ == "Unknown"@,
            *self is ShowText ==> r@ == "ShowText"@,
            *self is ShowTextBody ==> r@ == "TextBody"@,
    {
        match self {
            EventCode::ShowText => "ShowText",
            EventCode::ShowTextBody => "TextBody",
            EventCode::ShowScrollingText => "ScrollingText",
            EventCode::ScrollingTextBody => "ScrollingTextBody",
            EventCode::Comment => "Comment",
            EventCode::CommentBody => "CommentBody",
            EventCode::ShowChoices => "Choices",
            EventCode::WhenChoice => "ChoiceBranch",
            EventCode::WhenCancel => "CancelBranch",
            EventCode::ChoicesEnd => "ChoicesEnd",
            EventCode::InputNumber => "InputNumber",
            EventCode::SelectItem => "SelectItem",
            EventCode::PluginCommand => "PluginCommand",
            EventCode::Script => "Script",
            EventCode::ScriptBody => "ScriptBody",
            EventCode::ScriptBodyAlt => "ScriptBodyAlt",
            EventCode::ChangeNickname => "ChangeNickname",
            EventCode::ChangeProfile => "ChangeProfile",
            EventCode::Unknown(_) => "Unknown",
        }
    }
}

impl From<i32> for EventCode {
    /// Map a numeric code to the corresponding command.
    fn from(code: i32) -> (r: EventCode) {
        EventCode::from_code(code)
    }
}

impl vstd::std_specs::convert::FromSpecImpl<i32> for EventCode {
    open spec fn obeys_from_spec() -> bool {
        true
    }

    open spec fn from_spec(v: i32) -> EventCode {
        EventCode::spec_from_code(v)
    }
}

impl From<EventCode> for i32 {
    /// Map a command back to its numeric code.
    fn from(code: EventCode) -> (r: i32) {
        code.code()
    }
}

impl vstd::std_specs::convert::FromSpecImpl<EventCode> for i32 {
    open spec fn obeys_from_spec() -> bool {
        true
    }

    open spec fn from_spec(v: EventCode) -> i32 {
        v.spec_code()
    }
}

impl EventCode {
    /// Executable form of the code mapping, shared by `From`.
    pub fn from_code(code: i32) -> (r: EventCode)
        ensures
            r == EventCode::spec_from_code(code),
    {
        if code == 101 {
            EventCode::ShowText
        } else if code == 401 {
            EventCode::ShowTextBody
        } else if code == 105 {
            EventCode::ShowScrollingText
        } else if code == 405 {
            EventCode::ScrollingTextBody
        } else if code == 108 {
            EventCode::Comment
        } else if code == 408 {
            EventCode::CommentBody
        } else if code == 102 {
            EventCode::ShowChoices
        } else if code == 402 {
            EventCode::WhenChoice
        } else if code == 403 {
            EventCode::WhenCancel
        } else if code == 404 {
            EventCode::ChoicesEnd
        } else if code == 103 {
            EventCode::InputNumber
        } else if code == 104 {
            EventCode::SelectItem
        } else if code == 357 {
            EventCode::PluginCommand
        } else if code == 355 {
            EventCode::Script
        } else if code == 655 {
            EventCode::ScriptBody
        } else if code == 657 {
            EventCode::ScriptBodyAlt
        } else if code == 324 {
            EventCode::ChangeNickname
        } else if code == 325 {
            EventCode::ChangeProfile
        } else {
            EventCode::Unknown(code)
        }
    }
}

} // verus!
