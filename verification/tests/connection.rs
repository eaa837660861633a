use multiplayer_fps::connection::{press_button, type_key, ButtonAction, ButtonShade, Interaction, TypedKey};

#[test]
fn typing_then_return_sets_the_value() {
    let mut shown = String::from("127.0.0.");
    let mut value = String::new();
    type_key(&mut shown, &mut value, TypedKey::Other('1'));
    assert_eq!(shown, "127.0.0.1");
    assert_eq!(value, "");
    type_key(&mut shown, &mut value, TypedKey::Back);
    assert_eq!(shown, "127.0.0.1");
    type_key(&mut shown, &mut value, TypedKey::Return);
    assert_eq!(value, "127.0.0.1");
    assert_eq!(shown, "127.0.0.1");
}

#[test]
fn only_a_click_on_connect_connects() {
    assert_eq!(press_button(Interaction::Clicked, ButtonAction::Connect), (ButtonShade::Pressed, true));
    assert_eq!(press_button(Interaction::Clicked, ButtonAction::SetIp), (ButtonShade::Pressed, false));
    assert_eq!(press_button(Interaction::Hovered, ButtonAction::Connect), (ButtonShade::Hovered, false));
    assert_eq!(press_button(Interaction::Idle, ButtonAction::SetUsername), (ButtonShade::Idle, false));
}
