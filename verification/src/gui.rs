use vstd::prelude::*;
use vstd::string::*;

verus! {

/// The kinds of message box.
#[derive(Clone, Copy, Debug, PartialEq, Eq, Structural)]
pub enum MessageType {
    Info,
    Warn,
    YesNo,
}

/// The dialog program that shows message boxes.
pub fn message_box_program() -> (p: &'static str)
    ensures
        p@ == "zenity"@,
{
    "zenity"
}

pub open spec fn type_option(t: MessageType) -> Seq<char> {
    match t {
        MessageType::Info => "--info"@,
        MessageType::Warn => "--warning"@,
        MessageType::YesNo => "--question"@,
    }
}

pub open spec fn ok_label_option(t: MessageType) -> Seq<char> {
    match t {
        MessageType::YesNo => "--ok-label=Yes"@,
        _ => ""@,
    }
}

pub open spec fn cancel_label_option(t: MessageType) -> Seq<char> {
    match t {
        MessageType::YesNo => "--cancel-label=No"@,
        _ => ""@,
    }
}

/// The arguments of the dialog program for a message box: the title, the
/// kind, the text, and for a question the labels "Yes" and "No" (empty
/// arguments otherwise).
pub fn message_box_args(message_type: MessageType, message: &str) -> (args: Vec<String>)
    ensures
        args@.len() == 5,
        args@[0]@ == "--title=Mince"@,
        args@[1]@ == type_option(message_type),
        args@[2]@ == "--text="@ + message@,
        args@[3]@ == ok_label_option(message_type),
        args@[4]@ == cancel_label_option(message_type),
{
    let title = String::from_str("--title=Mince");
    let type_string = match message_type {
        MessageType::Info => "--info",
        MessageType::Warn => "--warning",
        MessageType::YesNo => "--question",
    };
    let (ok_label, cancel_label) = match message_type {
        MessageType::YesNo => ("--ok-label=Yes", "--cancel-label=No"),
        _ => ("", ""),
    };
    let mut text = String::from_str("--text=");
    text.append(message);
    let mut args: Vec<String> = Vec::new();
    args.push(title);
    args.push(String::from_str(type_string));
    args.push(text);
    args.push(String::from_str(ok_label));
    args.push(String::from_str(cancel_label));
    args
}

/// The dialog's answer: exit code 0 means "OK" or "Yes".
pub fn answer_from_exit_code(code: i32) -> (answer: bool)
    ensures
        answer == (code == 0),
{
    match code {
        0 => true,
        _ => false,
    }
}

} // verus!
