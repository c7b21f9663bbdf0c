//! Builders for the desktop dialog tool: a message box with a choice of
//! button sets, and an input box. The library builds the exact argument list
//! the tool is invoked with and interprets its exit code; the caller runs
//! the process.

use vstd::prelude::*;

verus! {

/// Which button the user pressed, read back from the dialog tool's exit
/// code.
#[derive(Clone, Copy, PartialEq, Eq, Structural, Debug)]
pub enum ClickedButton {
    /// The single confirm button of a plain message box.
    OkButton,
    Yes,
    No,
    Cancel,
    /// The dialog was closed without any button, or reported an unknown
    /// code.
    Closed,
}

/// The button set a message box shows.
#[derive(Clone, Copy, PartialEq, Eq, Structural, Debug)]
pub enum MessageBoxButtons {
    OkOnly,
    YesNo,
    YesNoCancel,
}

impl MessageBoxButtons {
    /// The dialog-tool flag selecting this button set.
    pub open spec fn spec_flag(&self) -> Seq<char> {
        match self {
            MessageBoxButtons::OkOnly => "--msgbox"@,
            MessageBoxButtons::YesNo => "--yesno"@,
            MessageBoxButtons::YesNoCancel => "--yesnocancel"@,
        }
    }
}

/// A message box: a label, an optional window title, and a button set.
pub struct MessageBox {
    buttons: MessageBoxButtons,
    label: String,
    title: Option<String>,
}

impl MessageBox {
    /// The label shown in the box.
    pub closed spec fn spec_label(&self) -> Seq<char> {
        self.label@
    }

    /// The window title, if one was set.
    pub closed spec fn spec_title(&self) -> Option<Seq<char>> {
        match self.title {
            Some(t) => Some(t@),
            None => None,
        }
    }

    /// The button set.
    pub closed spec fn spec_buttons(&self) -> MessageBoxButtons {
        self.buttons
    }

    /// A message box with this label, no title, and a single confirm
    /// button.
    pub fn new(label: String) -> (r: Self)
        ensures
            r.spec_label() == label@,
            r.spec_title() is None,
            r.spec_buttons() == MessageBoxButtons::OkOnly,
    {
        MessageBox { label, buttons: MessageBoxButtons::OkOnly, title: None }
    }

    /// The same box with this window title.
    pub fn title(self, title: String) -> (r: Self)
        ensures
            r.spec_label() == self.spec_label(),
            r.spec_title() == Some(title@),
            r.spec_buttons() == self.spec_buttons(),
    {
        MessageBox { title: Some(title), ..self }
    }

    /// The same box with this button set.
    pub fn buttons(self, buttons: MessageBoxButtons) -> (r: Self)
        ensures
            r.spec_label() == self.spec_label(),
            r.spec_title() == self.spec_title(),
            r.spec_buttons() == buttons,
    {
        MessageBox { buttons, ..self }
    }

    /// The arguments the dialog tool is invoked with: the title pair when a
    /// title was set, the button-set flag, then the label.
    pub fn argv(&self) -> (r: Vec<String>)
        ensures
            r.deep_view() == spec_dialog_argv(
                self.spec_title(),
                self.spec_buttons().spec_flag(),
                self.spec_label(),
            ),
    {
        let mut args: Vec<String> = Vec::new();
        match &self.title {
            Some(t) => {
                args.push(String::from_str("--title"));
                args.push(t.clone());
            },
            None => {},
        }
        match self.buttons {
            MessageBoxButtons::OkOnly => args.push(String::from_str("--msgbox")),
            MessageBoxButtons::YesNo => args.push(String::from_str("--yesno")),
            MessageBoxButtons::YesNoCancel => args.push(String::from_str("--yesnocancel")),
        }
        args.push(self.label.clone());
        proof {
            assert(args.deep_view() =~~= spec_dialog_argv(
                self.spec_title(),
                self.spec_buttons().spec_flag(),
                self.spec_label(),
            ));
        }
        args
    }

    /// The button the tool's exit code means for this box: 0 is the confirm
    /// button of a plain box and Yes otherwise, 1 is No, 2 is Cancel, and
    /// anything else (or no code at all) means the dialog was closed.
    pub fn interpret_exit_code(&self, code: Option<i32>) -> (r: ClickedButton)
        ensures
            r == spec_clicked_button(self.spec_buttons(), code),
    {
        match code {
            Some(0) => {
                if matches!(self.buttons, MessageBoxButtons::OkOnly) {
                    ClickedButton::OkButton
                } else {
                    ClickedButton::Yes
                }
            },
            Some(1) => ClickedButton::No,
            Some(2) => ClickedButton::Cancel,
            _ => ClickedButton::Closed,
        }
    }
}

/// The argument list of a dialog invocation: optional title pair, the main
/// flag, then the label.
pub open spec fn spec_dialog_argv(
    title: Option<Seq<char>>,
    flag: Seq<char>,
    label: Seq<char>,
) -> Seq<Seq<char>> {
    let head: Seq<Seq<char>> = match title {
        Some(t) => Seq::empty().push("--title"@).push(t),
        None => Seq::empty(),
    };
    head.push(flag).push(label)
}

/// The button an exit code means, given the button set shown.
pub open spec fn spec_clicked_button(
    buttons: MessageBoxButtons,
    code: Option<i32>,
) -> ClickedButton {
    match code {
        Some(c) => if c == 0 {
            if buttons == MessageBoxButtons::OkOnly {
                ClickedButton::OkButton
            } else {
                ClickedButton::Yes
            }
        } else if c == 1 {
            ClickedButton::No
        } else if c == 2 {
            ClickedButton::Cancel
        } else {
            ClickedButton::Closed
        },
        None => ClickedButton::Closed,
    }
}

/// The kind of input an input box asks for.
#[derive(Clone, Copy, PartialEq, Eq, Structural, Debug)]
pub enum InputBoxType {
    Text,
    Password,
    NewPassword,
    TextArea,
}

impl InputBoxType {
    /// The dialog-tool flag selecting this input kind.
    pub open spec fn spec_flag(&self) -> Seq<char> {
        match self {
            InputBoxType::Text => "--inputbox"@,
            InputBoxType::Password => "--password"@,
            InputBoxType::NewPassword => "--newpassword"@,
            InputBoxType::TextArea => "--textinputbox"@,
        }
    }
}

/// An input box: a label, an optional window title, an initial value, and
/// the kind of input asked for.
pub struct InputBox {
    label: String,
    title: Option<String>,
    initial: String,
    input_box_type: InputBoxType,
}

impl InputBox {
    /// The label shown next to the input.
    pub closed spec fn spec_label(&self) -> Seq<char> {
        self.label@
    }

    /// The window title, if one was set.
    pub closed spec fn spec_title(&self) -> Option<Seq<char>> {
        match self.title {
            Some(t) => Some(t@),
            None => None,
        }
    }

    /// The initial value of the input.
    pub closed spec fn spec_initial(&self) -> Seq<char> {
        self.initial@
    }

    /// The kind of input asked for.
    pub closed spec fn spec_input_box_type(&self) -> InputBoxType {
        self.input_box_type
    }

    /// An input box with this label and input kind, no title, and an empty
    /// initial value.
    pub fn new(label: String, input_box_type: InputBoxType) -> (r: Self)
        ensures
            r.spec_label() == label@,
            r.spec_title() is None,
            r.spec_initial() == Seq::<char>::empty(),
            r.spec_input_box_type() == input_box_type,
    {
        InputBox { label, title: None, initial: String::new(), input_box_type }
    }

    /// The same box with this window title.
    pub fn title(self, title: String) -> (r: Self)
        ensures
            r.spec_label() == self.spec_label(),
            r.spec_title() == Some(title@),
            r.spec_initial() == self.spec_initial(),
            r.spec_input_box_type() == self.spec_input_box_type(),
    {
        InputBox { title: Some(title), ..self }
    }

    /// The same box with this initial value.
    pub fn initial(self, initial: String) -> (r: Self)
        ensures
            r.spec_label() == self.spec_label(),
            r.spec_title() == self.spec_title(),
            r.spec_initial() == initial@,
            r.spec_input_box_type() == self.spec_input_box_type(),
    {
        InputBox { initial, ..self }
    }

    /// The arguments the dialog tool is invoked with: the title pair when a
    /// title was set, the input-kind flag, then the label.
    pub fn argv(&self) -> (r: Vec<String>)
        ensures
            r.deep_view() == spec_dialog_argv(
                self.spec_title(),
                self.spec_input_box_type().spec_flag(),
                self.spec_label(),
            ),
    {
        let mut args: Vec<String> = Vec::new();
        match &self.title {
            Some(t) => {
                args.push(String::from_str("--title"));
                args.push(t.clone());
            },
            None => {},
        }
        match self.input_box_type {
            InputBoxType::Text => args.push(String::from_str("--inputbox")),
            InputBoxType::Password => args.push(String::from_str("--password")),
            InputBoxType::NewPassword => args.push(String::from_str("--newpassword")),
            InputBoxType::TextArea => args.push(String::from_str("--textinputbox")),
        }
        args.push(self.label.clone());
        proof {
            assert(args.deep_view() =~~= spec_dialog_argv(
                self.spec_title(),
                self.spec_input_box_type().spec_flag(),
                self.spec_label(),
            ));
        }
        args
    }
}

} // verus!
