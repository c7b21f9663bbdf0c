use trayplay::kdialog::{ClickedButton, InputBox, InputBoxType, MessageBox, MessageBoxButtons};

#[test]
fn message_box_argv_without_title() {
    let b = MessageBox::new(String::from("hello"));
    assert_eq!(b.argv(), vec![String::from("--msgbox"), String::from("hello")]);
}

#[test]
fn message_box_argv_with_title_and_buttons() {
    let b = MessageBox::new(String::from("sure?"))
        .title(String::from("Confirm"))
        .buttons(MessageBoxButtons::YesNoCancel);
    assert_eq!(
        b.argv(),
        vec![
            String::from("--title"),
            String::from("Confirm"),
            String::from("--yesnocancel"),
            String::from("sure?"),
        ]
    );
}

#[test]
fn message_box_yes_no_flag() {
    let b = MessageBox::new(String::from("q")).buttons(MessageBoxButtons::YesNo);
    assert_eq!(b.argv()[0], "--yesno");
}

#[test]
fn exit_codes_map_to_buttons() {
    let ok_box = MessageBox::new(String::from("x"));
    assert_eq!(ok_box.interpret_exit_code(Some(0)), ClickedButton::OkButton);
    let yes_no = MessageBox::new(String::from("x")).buttons(MessageBoxButtons::YesNo);
    assert_eq!(yes_no.interpret_exit_code(Some(0)), ClickedButton::Yes);
    assert_eq!(yes_no.interpret_exit_code(Some(1)), ClickedButton::No);
    assert_eq!(yes_no.interpret_exit_code(Some(2)), ClickedButton::Cancel);
    assert_eq!(yes_no.interpret_exit_code(Some(77)), ClickedButton::Closed);
    assert_eq!(yes_no.interpret_exit_code(None), ClickedButton::Closed);
}

#[test]
fn input_box_argv_kinds() {
    let plain = InputBox::new(String::from("Duration"), InputBoxType::Text);
    assert_eq!(plain.argv(), vec![String::from("--inputbox"), String::from("Duration")]);
    let password = InputBox::new(String::from("p"), InputBoxType::Password);
    assert_eq!(password.argv()[0], "--password");
    let new_password = InputBox::new(String::from("p"), InputBoxType::NewPassword);
    assert_eq!(new_password.argv()[0], "--newpassword");
    let area = InputBox::new(String::from("p"), InputBoxType::TextArea);
    assert_eq!(area.argv()[0], "--textinputbox");
}

#[test]
fn input_box_argv_with_title() {
    let b = InputBox::new(String::from("Framerate"), InputBoxType::Text)
        .title(String::from("Custom value"))
        .initial(String::from("60"));
    assert_eq!(
        b.argv(),
        vec![
            String::from("--title"),
            String::from("Custom value"),
            String::from("--inputbox"),
            String::from("Framerate"),
        ]
    );
}
