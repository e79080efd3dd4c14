use taskhomie::computer::{
    bgra_to_rgb, exclusion_window, keystroke_script, mac_key_event, parse_key, parse_key_combo,
    screenshot_for_model, ComputerAction, ComputerControl, ComputerError, InputStep, KeyName,
    Modifier, MouseButton, PanelState, ScrollAxis,
};

fn action(name: &str) -> ComputerAction {
    ComputerAction {
        action: name.to_string(),
        coordinate: None,
        start_coordinate: None,
        text: None,
        scroll_direction: None,
        scroll_amount: None,
    }
}

#[test]
fn control_keeps_dimensions() {
    let c = ComputerControl::with_dimensions(2560, 1600);
    assert_eq!(c.screen_width, 2560);
    assert_eq!(c.screen_height, 1600);
}

#[test]
fn click_moves_then_clicks() {
    let c = ComputerControl::with_dimensions(1280, 800);
    let mut a = action("left_click");
    a.coordinate = Some([10, 20]);
    let steps = c.plan_action(&a).unwrap();
    assert_eq!(steps.len(), 2);
    assert!(matches!(steps[0], InputStep::MoveMouse { x: 10, y: 20 }));
    assert!(matches!(steps[1], InputStep::Click(MouseButton::Left)));
    let steps = c.plan_action(&action("double_click")).unwrap();
    assert_eq!(steps.len(), 2);
}

#[test]
fn scroll_defaults_and_directions() {
    let c = ComputerControl::with_dimensions(1280, 800);
    let steps = c.plan_action(&action("scroll")).unwrap();
    assert!(matches!(steps[0], InputStep::Scroll { amount: 3, axis: ScrollAxis::Vertical }));
    let mut a = action("scroll");
    a.scroll_direction = Some("left".to_string());
    a.scroll_amount = Some(5);
    let steps = c.plan_action(&a).unwrap();
    assert!(matches!(steps[0], InputStep::Scroll { amount: -5, axis: ScrollAxis::Horizontal }));
}

#[test]
fn drag_presses_moves_releases() {
    let c = ComputerControl::with_dimensions(1280, 800);
    let mut a = action("left_click_drag");
    a.start_coordinate = Some([1, 2]);
    a.coordinate = Some([3, 4]);
    let steps = c.plan_action(&a).unwrap();
    assert!(matches!(steps[0], InputStep::MoveMouse { x: 1, y: 2 }));
    assert!(matches!(steps[1], InputStep::Press(MouseButton::Left)));
    assert!(matches!(steps[2], InputStep::MoveMouse { x: 3, y: 4 }));
    assert!(matches!(steps[3], InputStep::Release(MouseButton::Left)));
}

#[test]
fn unknown_action_is_refused() {
    let c = ComputerControl::with_dimensions(1280, 800);
    match c.plan_action(&action("fly")) {
        Err(ComputerError::UnknownAction(n)) => assert_eq!(n, "fly"),
        other => panic!("unexpected {:?}", other),
    }
    assert_eq!(ComputerError::UnknownAction("fly".to_string()).message(), "Unknown action: fly");
    assert_eq!(ComputerError::Input("x".to_string()).message(), "Input error: x");
    assert_eq!(ComputerError::Screenshot("y".to_string()).message(), "Screenshot error: y");
}

#[test]
fn key_names_and_combinations() {
    assert_eq!(parse_key("Enter").unwrap(), KeyName::Return);
    assert_eq!(parse_key("PageDown").unwrap(), KeyName::PageDown);
    assert_eq!(parse_key("F5").unwrap(), KeyName::F(5));
    assert_eq!(parse_key("x").unwrap(), KeyName::Unicode('x'));
    match parse_key("") {
        Err(ComputerError::UnknownAction(m)) => assert_eq!(m, "Unknown key: "),
        other => panic!("unexpected {:?}", other),
    }
    let combo = parse_key_combo("ctrl+Shift+a").unwrap();
    assert_eq!(combo.modifiers, vec![Modifier::Control, Modifier::Shift]);
    assert_eq!(combo.main, Some(KeyName::Unicode('a')));
    match parse_key_combo("cmd++") {
        Err(ComputerError::UnknownAction(m)) => assert_eq!(m, "Unknown key: "),
        other => panic!("unexpected {:?}", other),
    }
}

#[test]
fn mac_key_events() {
    let k = mac_key_event("cmd+shift+Return").unwrap();
    assert!(k.command && k.shift && !k.control && !k.alternate);
    assert_eq!(k.key_code, 0x24);
    let k = mac_key_event("ctrl+a").unwrap();
    assert!(k.control);
    assert_eq!(k.key_code, 0x00);
    match mac_key_event("cmd+@@") {
        Err(ComputerError::Input(m)) => assert_eq!(m, "unknown key: @@"),
        other => panic!("unexpected {:?}", other),
    }
}

#[test]
fn applescript_typing_is_escaped() {
    assert_eq!(
        keystroke_script("say \"hi\" \\o/"),
        "tell application \"System Events\" to keystroke \"say \\\"hi\\\" \\\\o/\"\n"
    );
}

#[test]
fn bgra_frames_become_rgb() {
    // two pixels in a row of 12 bytes (4 bytes of padding)
    let raw = vec![1, 2, 3, 255, 4, 5, 6, 255, 0, 0, 0, 0];
    assert_eq!(bgra_to_rgb(&raw, 2, 1, 12), vec![3, 2, 1, 6, 5, 4]);
}

#[test]
fn screenshots_become_base64_jpeg() {
    let rgba = vec![200u8; 4 * 4 * 4];
    let s = screenshot_for_model(rgba, 4, 4, true).unwrap();
    // a JPEG file starts with FF D8 FF, "/9j/" in base64
    assert!(s.starts_with("/9j/"));
    let rgb = vec![10u8; 3 * 2 * 2];
    assert!(screenshot_for_model(rgb, 2, 2, false).unwrap().starts_with("/9j/"));
}

#[test]
fn short_frame_is_refused() {
    match screenshot_for_model(vec![0u8; 5], 2, 2, false) {
        Err(ComputerError::Screenshot(m)) => assert_eq!(m, "Failed to create image"),
        other => panic!("unexpected {:?}", other.map(|s| s.len())),
    }
}

#[test]
fn exclusion_takes_first_visible_panel() {
    let panels = vec![
        None,
        Some(PanelState { visible: false, window_id: 7 }),
        Some(PanelState { visible: true, window_id: 9 }),
    ];
    assert_eq!(exclusion_window(&panels), Some(9));
    assert_eq!(exclusion_window(&vec![Some(PanelState { visible: false, window_id: 1 })]), None);
}
