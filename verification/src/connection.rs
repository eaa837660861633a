use vstd::prelude::*;

verus! {

/// Appends one character, by `String::push`, which adds the character at
/// the end of the text and leaves the rest as it was.
#[verifier::external_body]
fn push_char(text: &mut String, c: char)
    ensures
        final(text)@ == old(text)@.push(c),
{
    text.push(c);
}

/// A key typed on the connection screen: Return, Backspace, or another key
/// together with the first character of its name.
#[derive(Debug, Clone, Copy, PartialEq, Eq)]
pub enum TypedKey {
    Return,
    Back,
    Other(char),
}

/// One key typed into a field of the connection screen. Return keeps what is
/// shown as the field's value; Backspace does nothing; any other key adds the
/// first character of its name to what is shown.
pub fn type_key(shown: &mut String, value: &mut String, key: TypedKey)
    ensures
        match key {
            TypedKey::Return => final(shown)@ == old(shown)@ && final(value)@ == old(shown)@,
            TypedKey::Back => final(shown)@ == old(shown)@ && final(value)@ == old(value)@,
            TypedKey::Other(c) => final(shown)@ == old(shown)@.push(c) && final(value)@ == old(
                value,
            )@,
        },
{
    match key {
        TypedKey::Return => {
            *value = shown.clone();
        },
        TypedKey::Back => {},
        TypedKey::Other(c) => {
            push_char(shown, c);
        },
    }
}

/// How a button of the connection screen looks.
#[derive(Debug, Clone, Copy, PartialEq, Eq)]
pub enum ButtonShade {
    Pressed,
    Hovered,
    Idle,
}

/// How the mouse stands to a button.
#[derive(Debug, Clone, Copy, PartialEq, Eq)]
pub enum Interaction {
    Clicked,
    Hovered,
    Idle,
}

/// What the buttons of the connection screen do.
#[derive(Debug, Clone, Copy, PartialEq, Eq)]
pub enum ButtonAction {
    Connect,
    SetIp,
    SetUsername,
}

/// A button's shade follows the mouse, and a click on Connect starts the
/// connection; nothing else starts it.
pub fn press_button(interaction: Interaction, action: ButtonAction) -> (res: (ButtonShade, bool))
    ensures
        res.0 == match interaction {
            Interaction::Clicked => ButtonShade::Pressed,
            Interaction::Hovered => ButtonShade::Hovered,
            Interaction::Idle => ButtonShade::Idle,
        },
        res.1 == (interaction == Interaction::Clicked && action == ButtonAction::Connect),
{
    match interaction {
        Interaction::Clicked => {
            let connect = match action {
                ButtonAction::Connect => true,
                _ => false,
            };
            (ButtonShade::Pressed, connect)
        },
        Interaction::Hovered => (ButtonShade::Hovered, false),
        Interaction::Idle => (ButtonShade::Idle, false),
    }
}

} // verus!
