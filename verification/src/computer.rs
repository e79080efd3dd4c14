//! Turning the model's computer actions into input steps, and parsing key
//! combinations.
use vstd::prelude::*;
use crate::media::{base64_of, encode_base64, encode_jpeg, jpeg_of, scale_rgb, scale_rgba, scaled_rgb, scaled_rgba};
use crate::text::{chars_of, lowercase, split_chars, split_on, str_eq, string_of, to_lowercase, push_all, push_str};

verus! {

/// Width of the screen as the model sees it.
pub const AI_WIDTH: u32 = 1280;

/// Height of the screen as the model sees it.
pub const AI_HEIGHT: u32 = 800;

/// JPEG quality of screenshots sent to the model.
pub const JPEG_QUALITY: u8 = 60;

/// Why a computer action failed.
#[derive(Debug)]
pub enum ComputerError {
    Input(String),
    Screenshot(String),
    UnknownAction(String),
}

/// The message of a `ComputerError`.
pub open spec fn computer_error_message(e: ComputerError) -> Seq<char> {
    match e {
        ComputerError::Input(m) => "Input error: "@ + m@,
        ComputerError::Screenshot(m) => "Screenshot error: "@ + m@,
        ComputerError::UnknownAction(m) => "Unknown action: "@ + m@,
    }
}

impl ComputerError {
    /// The human-readable message of this error.
    pub fn message(&self) -> (r: String)
        ensures
            r@ == computer_error_message(*self),
    {
        let (mut r, m) = match self {
            ComputerError::Input(m) => (String::from_str("Input error: "), m),
            ComputerError::Screenshot(m) => (String::from_str("Screenshot error: "), m),
            ComputerError::UnknownAction(m) => (String::from_str("Unknown action: "), m),
        };
        r.append(m.as_str());
        r
    }
}

/// An action of the model's `computer` tool, with coordinates in the
/// model's 1280x800 screen space.
#[derive(Debug, Clone)]
pub struct ComputerAction {
    pub action: String,
    pub coordinate: Option<[i32; 2]>,
    pub start_coordinate: Option<[i32; 2]>,
    pub text: Option<String>,
    pub scroll_direction: Option<String>,
    pub scroll_amount: Option<i32>,
}

/// The size of the real screen.
#[derive(Debug, Clone, Copy)]
pub struct ComputerControl {
    pub screen_width: u32,
    pub screen_height: u32,
}

impl ComputerControl {
    /// A controller for a screen of the given size.
    pub fn with_dimensions(screen_width: u32, screen_height: u32) -> (r: Self)
        ensures
            r.screen_width == screen_width,
            r.screen_height == screen_height,
    {
        ComputerControl { screen_width, screen_height }
    }
}

/// A mouse button.
#[derive(Debug, Clone, Copy, PartialEq, Eq, Structural)]
pub enum MouseButton {
    Left,
    Right,
    Middle,
}

/// A scroll axis.
#[derive(Debug, Clone, Copy, PartialEq, Eq, Structural)]
pub enum ScrollAxis {
    Vertical,
    Horizontal,
}

/// One step of input that carries out an action.
#[derive(Debug)]
pub enum InputStep {
    /// Capture the screen and hand the image back.
    Screenshot,
    /// Move the pointer to a point given in model space.
    MoveMouse { x: i32, y: i32 },
    /// Click a button.
    Click(MouseButton),
    /// Press a button and hold it.
    Press(MouseButton),
    /// Release a held button.
    Release(MouseButton),
    /// Type a text.
    TypeText(String),
    /// Press a key combination such as `ctrl+shift+a`.
    Key(String),
    /// Scroll; positive amounts go down or right.
    Scroll { amount: i32, axis: ScrollAxis },
    /// Wait one second.
    Wait,
}

/// The direction of a scroll action (`down` when none is given).
pub open spec fn scroll_direction(a: ComputerAction) -> Seq<char> {
    match a.scroll_direction {
        Some(d) => d@,
        None => "down"@,
    }
}

/// The amount of a scroll action (3 when none is given).
pub open spec fn scroll_amount(a: ComputerAction) -> i32 {
    match a.scroll_amount {
        Some(n) => n,
        None => 3,
    }
}

/// The action negates its scroll amount (up or left), which overflows for
/// `i32::MIN`.
pub open spec fn scroll_negates(a: ComputerAction) -> bool {
    a.action@ == "scroll"@ && (scroll_direction(a) == "up"@ || scroll_direction(a) == "left"@)
}

/// A move to the action's coordinate, if it has one.
pub open spec fn move_to(a: ComputerAction) -> Seq<InputStep> {
    match a.coordinate {
        Some(c) => seq![InputStep::MoveMouse { x: c[0], y: c[1] }],
        None => Seq::empty(),
    }
}

/// The steps that carry out an action, or `None` for an unknown action.
pub open spec fn plan_of(a: ComputerAction) -> Option<Seq<InputStep>> {
    let name = a.action@;
    if name == "screenshot"@ {
        Some(seq![InputStep::Screenshot])
    } else if name == "mouse_move"@ {
        Some(move_to(a))
    } else if name == "left_click"@ {
        Some(move_to(a).push(InputStep::Click(MouseButton::Left)))
    } else if name == "right_click"@ {
        Some(move_to(a).push(InputStep::Click(MouseButton::Right)))
    } else if name == "middle_click"@ {
        Some(move_to(a).push(InputStep::Click(MouseButton::Middle)))
    } else if name == "double_click"@ {
        Some(move_to(a).push(InputStep::Click(MouseButton::Left)).push(InputStep::Click(MouseButton::Left)))
    } else if name == "triple_click"@ {
        Some(
            move_to(a).push(InputStep::Click(MouseButton::Left)).push(InputStep::Click(MouseButton::Left)).push(
                InputStep::Click(MouseButton::Left),
            ),
        )
    } else if name == "left_click_drag"@ {
        match (a.start_coordinate, a.coordinate) {
            (Some(s), Some(e)) => Some(
                seq![
                    InputStep::MoveMouse { x: s[0], y: s[1] },
                    InputStep::Press(MouseButton::Left),
                    InputStep::MoveMouse { x: e[0], y: e[1] },
                    InputStep::Release(MouseButton::Left),
                ],
            ),
            _ => Some(Seq::empty()),
        }
    } else if name == "type"@ {
        match a.text {
            Some(t) => Some(seq![InputStep::TypeText(t)]),
            None => Some(Seq::empty()),
        }
    } else if name == "key"@ {
        match a.text {
            Some(t) => Some(seq![InputStep::Key(t)]),
            None => Some(Seq::empty()),
        }
    } else if name == "scroll"@ {
        let dir = scroll_direction(a);
        let n = scroll_amount(a);
        let amount = if dir == "up"@ || dir == "left"@ {
            -n
        } else {
            n as int
        };
        let axis = if dir == "up"@ || dir == "down"@ {
            ScrollAxis::Vertical
        } else {
            ScrollAxis::Horizontal
        };
        Some(move_to(a).push(InputStep::Scroll { amount: amount as i32, axis }))
    } else if name == "wait"@ {
        Some(seq![InputStep::Wait])
    } else {
        None
    }
}

/// The clicks of an action: `left_click`, `right_click` and `middle_click`
/// move to the action's coordinate, when it has one, and click once with
/// the button they name; `double_click` and `triple_click` click the left
/// button two and three times there.
pub proof fn lemma_click_buttons(a: ComputerAction)
    ensures
        a.action@ == "left_click"@ ==> plan_of(a) == Some(at_point(a) + seq![InputStep::Click(MouseButton::Left)]),
        a.action@ == "right_click"@ ==> plan_of(a) == Some(at_point(a) + seq![InputStep::Click(MouseButton::Right)]),
        a.action@ == "middle_click"@ ==> plan_of(a) == Some(at_point(a) + seq![InputStep::Click(MouseButton::Middle)]),
        a.action@ == "double_click"@ ==> plan_of(a) == Some(
            at_point(a) + seq![InputStep::Click(MouseButton::Left), InputStep::Click(MouseButton::Left)],
        ),
        a.action@ == "triple_click"@ ==> plan_of(a) == Some(
            at_point(a) + seq![
                InputStep::Click(MouseButton::Left),
                InputStep::Click(MouseButton::Left),
                InputStep::Click(MouseButton::Left),
            ],
        ),
{
    reveal_strlit("screenshot");
    reveal_strlit("mouse_move");
    reveal_strlit("left_click");
    reveal_strlit("right_click");
    reveal_strlit("middle_click");
    reveal_strlit("double_click");
    reveal_strlit("triple_click");
    reveal(at_point);
    let n = a.action@;
    assert("screenshot"@[0] == 's' && "mouse_move"@[0] == 'm' && "mouse_move"@[1] == 'o');
    assert("left_click"@[0] == 'l' && "right_click"@[0] == 'r');
    assert("middle_click"@[0] == 'm' && "middle_click"@[1] == 'i');
    assert("double_click"@[0] == 'd' && "triple_click"@[0] == 't');
    assert(move_to(a) == at_point(a));
    assert(at_point(a).push(InputStep::Click(MouseButton::Left)) =~= at_point(a) + seq![InputStep::Click(MouseButton::Left)]);
    assert(at_point(a).push(InputStep::Click(MouseButton::Right)) =~= at_point(a) + seq![InputStep::Click(MouseButton::Right)]);
    assert(at_point(a).push(InputStep::Click(MouseButton::Middle)) =~= at_point(a) + seq![InputStep::Click(MouseButton::Middle)]);
    assert(at_point(a).push(InputStep::Click(MouseButton::Left)).push(InputStep::Click(MouseButton::Left))
        =~= at_point(a) + seq![InputStep::Click(MouseButton::Left), InputStep::Click(MouseButton::Left)]);
    assert(at_point(a).push(InputStep::Click(MouseButton::Left)).push(InputStep::Click(MouseButton::Left)).push(InputStep::Click(MouseButton::Left))
        =~= at_point(a) + seq![InputStep::Click(MouseButton::Left), InputStep::Click(MouseButton::Left), InputStep::Click(MouseButton::Left)]);
}

/// The pointer move before a click: to the action's coordinate, or none
/// when the action has no coordinate (written out here so that the click
/// law does not rest on the planner's own helpers).
#[verifier::opaque]
pub open spec fn at_point(a: ComputerAction) -> Seq<InputStep> {
    match a.coordinate {
        Some(c) => seq![InputStep::MoveMouse { x: c[0], y: c[1] }],
        None => Seq::empty(),
    }
}

fn move_steps(a: &ComputerAction) -> (r: Vec<InputStep>)
    ensures
        r@ == move_to(*a),
{
    let mut v: Vec<InputStep> = Vec::new();
    if let Some(c) = a.coordinate {
        v.push(InputStep::MoveMouse { x: c[0], y: c[1] });
    }
    assert(v@ =~= move_to(*a));
    v
}

impl ComputerControl {
    /// The input steps that carry out `action`, or `UnknownAction` with the
    /// action's name.
    pub fn plan_action(&self, action: &ComputerAction) -> (r: Result<Vec<InputStep>, ComputerError>)
        requires
            scroll_negates(*action) ==> scroll_amount(*action) != i32::MIN,
        ensures
            match r {
                Ok(steps) => plan_of(*action) == Some(steps@),
                Err(ComputerError::UnknownAction(n)) => plan_of(*action) is None && n@ == action.action@,
                Err(_) => false,
            },
    {
        let name = action.action.as_str();
        if str_eq(name, "screenshot") {
            let mut v: Vec<InputStep> = Vec::new();
            v.push(InputStep::Screenshot);
            assert(v@ =~= seq![InputStep::Screenshot]);
            Ok(v)
        } else if str_eq(name, "mouse_move") {
            Ok(move_steps(action))
        } else if str_eq(name, "left_click") || str_eq(name, "right_click") || str_eq(name, "middle_click") {
            let b = if str_eq(name, "left_click") {
                MouseButton::Left
            } else if str_eq(name, "right_click") {
                MouseButton::Right
            } else {
                MouseButton::Middle
            };
            let mut v = move_steps(action);
            v.push(InputStep::Click(b));
            Ok(v)
        } else if str_eq(name, "double_click") {
            let mut v = move_steps(action);
            v.push(InputStep::Click(MouseButton::Left));
            v.push(InputStep::Click(MouseButton::Left));
            Ok(v)
        } else if str_eq(name, "triple_click") {
            let mut v = move_steps(action);
            v.push(InputStep::Click(MouseButton::Left));
            v.push(InputStep::Click(MouseButton::Left));
            v.push(InputStep::Click(MouseButton::Left));
            Ok(v)
        } else if str_eq(name, "left_click_drag") {
            let mut v: Vec<InputStep> = Vec::new();
            if let (Some(s), Some(e)) = (action.start_coordinate, action.coordinate) {
                v.push(InputStep::MoveMouse { x: s[0], y: s[1] });
                v.push(InputStep::Press(MouseButton::Left));
                v.push(InputStep::MoveMouse { x: e[0], y: e[1] });
                v.push(InputStep::Release(MouseButton::Left));
            }
            assert(plan_of(*action) == Some(v@));
            Ok(v)
        } else if str_eq(name, "type") || str_eq(name, "key") {
            let is_type = str_eq(name, "type");
            let mut v: Vec<InputStep> = Vec::new();
            if let Some(t) = &action.text {
                if is_type {
                    v.push(InputStep::TypeText(t.clone()));
                } else {
                    v.push(InputStep::Key(t.clone()));
                }
            }
            assert(plan_of(*action) == Some(v@));
            Ok(v)
        } else if str_eq(name, "scroll") {
            let n: i32 = match action.scroll_amount {
                Some(n) => n,
                None => 3,
            };
            let dir: &str = match &action.scroll_direction {
                Some(d) => d.as_str(),
                None => "down",
            };
            let vertical = str_eq(dir, "up") || str_eq(dir, "down");
            let negate = str_eq(dir, "up") || str_eq(dir, "left");
            let amount: i32 = if negate {
                -n
            } else {
                n
            };
            let mut v = move_steps(action);
            v.push(InputStep::Scroll {
                amount,
                axis: if vertical {
                    ScrollAxis::Vertical
                } else {
                    ScrollAxis::Horizontal
                },
            });
            Ok(v)
        } else if str_eq(name, "wait") {
            let mut v: Vec<InputStep> = Vec::new();
            v.push(InputStep::Wait);
            assert(v@ =~= seq![InputStep::Wait]);
            Ok(v)
        } else {
            Err(ComputerError::UnknownAction(action.action.clone()))
        }
    }
}


/// A key that is not a modifier.
#[derive(Debug, Clone, Copy, PartialEq, Eq, Structural)]
pub enum KeyName {
    Return,
    Tab,
    Escape,
    Backspace,
    Space,
    UpArrow,
    DownArrow,
    LeftArrow,
    RightArrow,
    Home,
    End,
    PageUp,
    PageDown,
    /// A function key `F1`..`F12`.
    F(u8),
    /// The key that types this character.
    Unicode(char),
}

/// A modifier key.
#[derive(Debug, Clone, Copy, PartialEq, Eq, Structural)]
pub enum Modifier {
    Meta,
    Control,
    Alt,
    Shift,
}

/// The modifier a lowercase key name denotes.
pub open spec fn modifier_of(lower: Seq<char>) -> Option<Modifier> {
    if lower == "cmd"@ || lower == "command"@ || lower == "super"@ || lower == "meta"@ {
        Some(Modifier::Meta)
    } else if lower == "ctrl"@ || lower == "control"@ {
        Some(Modifier::Control)
    } else if lower == "alt"@ || lower == "option"@ {
        Some(Modifier::Alt)
    } else if lower == "shift"@ {
        Some(Modifier::Shift)
    } else {
        None
    }
}

fn modifier_exec(lower: &str) -> (r: Option<Modifier>)
    ensures
        r == modifier_of(lower@),
{
    if str_eq(lower, "cmd") || str_eq(lower, "command") || str_eq(lower, "super") || str_eq(lower, "meta") {
        Some(Modifier::Meta)
    } else if str_eq(lower, "ctrl") || str_eq(lower, "control") {
        Some(Modifier::Control)
    } else if str_eq(lower, "alt") || str_eq(lower, "option") {
        Some(Modifier::Alt)
    } else if str_eq(lower, "shift") {
        Some(Modifier::Shift)
    } else {
        None
    }
}

/// The key a lowercase key name denotes, if it is a named key.
pub open spec fn named_key(lower: Seq<char>) -> Option<KeyName> {
    if lower == "return"@ || lower == "enter"@ {
        Some(KeyName::Return)
    } else if lower == "tab"@ {
        Some(KeyName::Tab)
    } else if lower == "escape"@ || lower == "esc"@ {
        Some(KeyName::Escape)
    } else if lower == "backspace"@ || lower == "delete"@ {
        Some(KeyName::Backspace)
    } else if lower == "space"@ {
        Some(KeyName::Space)
    } else if lower == "up"@ || lower == "uparrow"@ {
        Some(KeyName::UpArrow)
    } else if lower == "down"@ || lower == "downarrow"@ {
        Some(KeyName::DownArrow)
    } else if lower == "left"@ || lower == "leftarrow"@ {
        Some(KeyName::LeftArrow)
    } else if lower == "right"@ || lower == "rightarrow"@ {
        Some(KeyName::RightArrow)
    } else if lower == "home"@ {
        Some(KeyName::Home)
    } else if lower == "end"@ {
        Some(KeyName::End)
    } else if lower == "pageup"@ {
        Some(KeyName::PageUp)
    } else if lower == "pagedown"@ {
        Some(KeyName::PageDown)
    } else if lower == "f1"@ {
        Some(KeyName::F(1))
    } else if lower == "f2"@ {
        Some(KeyName::F(2))
    } else if lower == "f3"@ {
        Some(KeyName::F(3))
    } else if lower == "f4"@ {
        Some(KeyName::F(4))
    } else if lower == "f5"@ {
        Some(KeyName::F(5))
    } else if lower == "f6"@ {
        Some(KeyName::F(6))
    } else if lower == "f7"@ {
        Some(KeyName::F(7))
    } else if lower == "f8"@ {
        Some(KeyName::F(8))
    } else if lower == "f9"@ {
        Some(KeyName::F(9))
    } else if lower == "f10"@ {
        Some(KeyName::F(10))
    } else if lower == "f11"@ {
        Some(KeyName::F(11))
    } else if lower == "f12"@ {
        Some(KeyName::F(12))
    } else {
        None
    }
}

fn named_key_exec(lower: &str) -> (r: Option<KeyName>)
    ensures
        r == named_key(lower@),
{
    if str_eq(lower, "return") || str_eq(lower, "enter") {
        Some(KeyName::Return)
    } else if str_eq(lower, "tab") {
        Some(KeyName::Tab)
    } else if str_eq(lower, "escape") || str_eq(lower, "esc") {
        Some(KeyName::Escape)
    } else if str_eq(lower, "backspace") || str_eq(lower, "delete") {
        Some(KeyName::Backspace)
    } else if str_eq(lower, "space") {
        Some(KeyName::Space)
    } else if str_eq(lower, "up") || str_eq(lower, "uparrow") {
        Some(KeyName::UpArrow)
    } else if str_eq(lower, "down") || str_eq(lower, "downarrow") {
        Some(KeyName::DownArrow)
    } else if str_eq(lower, "left") || str_eq(lower, "leftarrow") {
        Some(KeyName::LeftArrow)
    } else if str_eq(lower, "right") || str_eq(lower, "rightarrow") {
        Some(KeyName::RightArrow)
    } else if str_eq(lower, "home") {
        Some(KeyName::Home)
    } else if str_eq(lower, "end") {
        Some(KeyName::End)
    } else if str_eq(lower, "pageup") {
        Some(KeyName::PageUp)
    } else if str_eq(lower, "pagedown") {
        Some(KeyName::PageDown)
    } else if str_eq(lower, "f1") {
        Some(KeyName::F(1))
    } else if str_eq(lower, "f2") {
        Some(KeyName::F(2))
    } else if str_eq(lower, "f3") {
        Some(KeyName::F(3))
    } else if str_eq(lower, "f4") {
        Some(KeyName::F(4))
    } else if str_eq(lower, "f5") {
        Some(KeyName::F(5))
    } else if str_eq(lower, "f6") {
        Some(KeyName::F(6))
    } else if str_eq(lower, "f7") {
        Some(KeyName::F(7))
    } else if str_eq(lower, "f8") {
        Some(KeyName::F(8))
    } else if str_eq(lower, "f9") {
        Some(KeyName::F(9))
    } else if str_eq(lower, "f10") {
        Some(KeyName::F(10))
    } else if str_eq(lower, "f11") {
        Some(KeyName::F(11))
    } else if str_eq(lower, "f12") {
        Some(KeyName::F(12))
    } else {
        None
    }
}

/// The macOS virtual key code of a lowercase named key.
pub open spec fn mac_named_code(lower: Seq<char>) -> Option<u16> {
    if lower == "return"@ || lower == "enter"@ {
        Some(0x24)
    } else if lower == "tab"@ {
        Some(0x30)
    } else if lower == "space"@ {
        Some(0x31)
    } else if lower == "delete"@ || lower == "backspace"@ {
        Some(0x33)
    } else if lower == "escape"@ || lower == "esc"@ {
        Some(0x35)
    } else if lower == "forwarddelete"@ {
        Some(0x75)
    } else if lower == "up"@ || lower == "uparrow"@ {
        Some(0x7E)
    } else if lower == "down"@ || lower == "downarrow"@ {
        Some(0x7D)
    } else if lower == "left"@ || lower == "leftarrow"@ {
        Some(0x7B)
    } else if lower == "right"@ || lower == "rightarrow"@ {
        Some(0x7C)
    } else if lower == "home"@ {
        Some(0x73)
    } else if lower == "end"@ {
        Some(0x77)
    } else if lower == "pageup"@ {
        Some(0x74)
    } else if lower == "pagedown"@ {
        Some(0x79)
    } else if lower == "f1"@ {
        Some(0x7A)
    } else if lower == "f2"@ {
        Some(0x78)
    } else if lower == "f3"@ {
        Some(0x63)
    } else if lower == "f4"@ {
        Some(0x76)
    } else if lower == "f5"@ {
        Some(0x60)
    } else if lower == "f6"@ {
        Some(0x61)
    } else if lower == "f7"@ {
        Some(0x62)
    } else if lower == "f8"@ {
        Some(0x64)
    } else if lower == "f9"@ {
        Some(0x65)
    } else if lower == "f10"@ {
        Some(0x6D)
    } else if lower == "f11"@ {
        Some(0x67)
    } else if lower == "f12"@ {
        Some(0x6F)
    } else {
        None
    }
}

fn mac_named_code_exec(lower: &str) -> (r: Option<u16>)
    ensures
        r == mac_named_code(lower@),
{
    if str_eq(lower, "return") || str_eq(lower, "enter") {
        Some(0x24)
    } else if str_eq(lower, "tab") {
        Some(0x30)
    } else if str_eq(lower, "space") {
        Some(0x31)
    } else if str_eq(lower, "delete") || str_eq(lower, "backspace") {
        Some(0x33)
    } else if str_eq(lower, "escape") || str_eq(lower, "esc") {
        Some(0x35)
    } else if str_eq(lower, "forwarddelete") {
        Some(0x75)
    } else if str_eq(lower, "up") || str_eq(lower, "uparrow") {
        Some(0x7E)
    } else if str_eq(lower, "down") || str_eq(lower, "downarrow") {
        Some(0x7D)
    } else if str_eq(lower, "left") || str_eq(lower, "leftarrow") {
        Some(0x7B)
    } else if str_eq(lower, "right") || str_eq(lower, "rightarrow") {
        Some(0x7C)
    } else if str_eq(lower, "home") {
        Some(0x73)
    } else if str_eq(lower, "end") {
        Some(0x77)
    } else if str_eq(lower, "pageup") {
        Some(0x74)
    } else if str_eq(lower, "pagedown") {
        Some(0x79)
    } else if str_eq(lower, "f1") {
        Some(0x7A)
    } else if str_eq(lower, "f2") {
        Some(0x78)
    } else if str_eq(lower, "f3") {
        Some(0x63)
    } else if str_eq(lower, "f4") {
        Some(0x76)
    } else if str_eq(lower, "f5") {
        Some(0x60)
    } else if str_eq(lower, "f6") {
        Some(0x61)
    } else if str_eq(lower, "f7") {
        Some(0x62)
    } else if str_eq(lower, "f8") {
        Some(0x64)
    } else if str_eq(lower, "f9") {
        Some(0x65)
    } else if str_eq(lower, "f10") {
        Some(0x6D)
    } else if str_eq(lower, "f11") {
        Some(0x67)
    } else if str_eq(lower, "f12") {
        Some(0x6F)
    } else {
        None
    }
}

/// The macOS virtual key code of the key that types `c`.
pub open spec fn mac_char_code(c: char) -> Option<u16> {
    if c == 'a' {
        Some(0x00)
    } else if c == 's' {
        Some(0x01)
    } else if c == 'd' {
        Some(0x02)
    } else if c == 'f' {
        Some(0x03)
    } else if c == 'h' {
        Some(0x04)
    } else if c == 'g' {
        Some(0x05)
    } else if c == 'z' {
        Some(0x06)
    } else if c == 'x' {
        Some(0x07)
    } else if c == 'c' {
        Some(0x08)
    } else if c == 'v' {
        Some(0x09)
    } else if c == 'b' {
        Some(0x0B)
    } else if c == 'q' {
        Some(0x0C)
    } else if c == 'w' {
        Some(0x0D)
    } else if c == 'e' {
        Some(0x0E)
    } else if c == 'r' {
        Some(0x0F)
    } else if c == 'y' {
        Some(0x10)
    } else if c == 't' {
        Some(0x11)
    } else if c == '1' {
        Some(0x12)
    } else if c == '2' {
        Some(0x13)
    } else if c == '3' {
        Some(0x14)
    } else if c == '4' {
        Some(0x15)
    } else if c == '6' {
        Some(0x16)
    } else if c == '5' {
        Some(0x17)
    } else if c == '9' {
        Some(0x19)
    } else if c == '7' {
        Some(0x1A)
    } else if c == '8' {
        Some(0x1C)
    } else if c == '0' {
        Some(0x1D)
    } else if c == 'o' {
        Some(0x1F)
    } else if c == 'u' {
        Some(0x20)
    } else if c == 'i' {
        Some(0x22)
    } else if c == 'p' {
        Some(0x23)
    } else if c == 'l' {
        Some(0x25)
    } else if c == 'j' {
        Some(0x26)
    } else if c == 'k' {
        Some(0x28)
    } else if c == 'n' {
        Some(0x2D)
    } else if c == 'm' {
        Some(0x2E)
    } else if c == '-' {
        Some(0x1B)
    } else if c == '=' {
        Some(0x18)
    } else if c == '[' {
        Some(0x21)
    } else if c == ']' {
        Some(0x1E)
    } else if c == '\\' {
        Some(0x2A)
    } else if c == ';' {
        Some(0x29)
    } else if c == '\'' {
        Some(0x27)
    } else if c == ',' {
        Some(0x2B)
    } else if c == '.' {
        Some(0x2F)
    } else if c == '/' {
        Some(0x2C)
    } else if c == '`' {
        Some(0x32)
    } else {
        None
    }
}

fn mac_char_code_exec(c: char) -> (r: Option<u16>)
    ensures
        r == mac_char_code(c),
{
    if c == 'a' {
        Some(0x00)
    } else if c == 's' {
        Some(0x01)
    } else if c == 'd' {
        Some(0x02)
    } else if c == 'f' {
        Some(0x03)
    } else if c == 'h' {
        Some(0x04)
    } else if c == 'g' {
        Some(0x05)
    } else if c == 'z' {
        Some(0x06)
    } else if c == 'x' {
        Some(0x07)
    } else if c == 'c' {
        Some(0x08)
    } else if c == 'v' {
        Some(0x09)
    } else if c == 'b' {
        Some(0x0B)
    } else if c == 'q' {
        Some(0x0C)
    } else if c == 'w' {
        Some(0x0D)
    } else if c == 'e' {
        Some(0x0E)
    } else if c == 'r' {
        Some(0x0F)
    } else if c == 'y' {
        Some(0x10)
    } else if c == 't' {
        Some(0x11)
    } else if c == '1' {
        Some(0x12)
    } else if c == '2' {
        Some(0x13)
    } else if c == '3' {
        Some(0x14)
    } else if c == '4' {
        Some(0x15)
    } else if c == '6' {
        Some(0x16)
    } else if c == '5' {
        Some(0x17)
    } else if c == '9' {
        Some(0x19)
    } else if c == '7' {
        Some(0x1A)
    } else if c == '8' {
        Some(0x1C)
    } else if c == '0' {
        Some(0x1D)
    } else if c == 'o' {
        Some(0x1F)
    } else if c == 'u' {
        Some(0x20)
    } else if c == 'i' {
        Some(0x22)
    } else if c == 'p' {
        Some(0x23)
    } else if c == 'l' {
        Some(0x25)
    } else if c == 'j' {
        Some(0x26)
    } else if c == 'k' {
        Some(0x28)
    } else if c == 'n' {
        Some(0x2D)
    } else if c == 'm' {
        Some(0x2E)
    } else if c == '-' {
        Some(0x1B)
    } else if c == '=' {
        Some(0x18)
    } else if c == '[' {
        Some(0x21)
    } else if c == ']' {
        Some(0x1E)
    } else if c == '\\' {
        Some(0x2A)
    } else if c == ';' {
        Some(0x29)
    } else if c == '\'' {
        Some(0x27)
    } else if c == ',' {
        Some(0x2B)
    } else if c == '.' {
        Some(0x2F)
    } else if c == '/' {
        Some(0x2C)
    } else if c == '`' {
        Some(0x32)
    } else {
        None
    }
}


/// The key a key name denotes: a named key (compared in lowercase), else
/// the key of the name's first character; an empty name denotes none.
pub open spec fn parse_key_spec(s: Seq<char>) -> Option<KeyName> {
    match named_key(lowercase(s)) {
        Some(k) => Some(k),
        None => if s.len() > 0 {
            Some(KeyName::Unicode(s[0]))
        } else {
            None
        },
    }
}

/// Parses one key name.
pub fn parse_key(key_str: &str) -> (r: Result<KeyName, ComputerError>)
    ensures
        match r {
            Ok(k) => parse_key_spec(key_str@) == Some(k),
            Err(ComputerError::UnknownAction(m)) => parse_key_spec(key_str@) is None && m@ == "Unknown key: "@
                + key_str@,
            Err(_) => false,
        },
{
    let lower = to_lowercase(key_str);
    match named_key_exec(lower.as_str()) {
        Some(k) => Ok(k),
        None => {
            let c = chars_of(key_str);
            if c.len() > 0 {
                Ok(KeyName::Unicode(c[0]))
            } else {
                let mut m = String::from_str("Unknown key: ");
                m.append(key_str);
                Err(ComputerError::UnknownAction(m))
            }
        },
    }
}

/// A key combination: modifiers in the order given, and the main key (the
/// last non-modifier part), if any.
#[derive(Debug)]
pub struct KeyCombo {
    pub modifiers: Vec<Modifier>,
    pub main: Option<KeyName>,
}

/// Reads the parts of a combination left to right: modifiers accumulate,
/// each other part replaces the main key, and the first part that is no
/// key stops the reading with that part.
pub open spec fn combo_of(parts: Seq<Seq<char>>) -> Result<(Seq<Modifier>, Option<KeyName>), Seq<char>>
    decreases parts.len(),
{
    if parts.len() == 0 {
        Ok((Seq::empty(), None))
    } else {
        match combo_of(parts.drop_last()) {
            Err(e) => Err(e),
            Ok((mods, main)) => {
                let p = parts.last();
                match modifier_of(lowercase(p)) {
                    Some(m) => Ok((mods.push(m), main)),
                    None => match parse_key_spec(p) {
                        Some(k) => Ok((mods, Some(k))),
                        None => Err(p),
                    },
                }
            },
        }
    }
}

/// Parses a key combination such as `ctrl+shift+a` (parts split at `+`).
#[verifier::rlimit(30)]
pub fn parse_key_combo(key_str: &str) -> (r: Result<KeyCombo, ComputerError>)
    ensures
        match r {
            Ok(c) => combo_of(split_on(key_str@, '+')) == Ok::<(Seq<Modifier>, Option<KeyName>), Seq<char>>(
                (c.modifiers@, c.main),
            ),
            Err(ComputerError::UnknownAction(m)) => exists|p: Seq<char>|
                combo_of(split_on(key_str@, '+')) == Err::<(Seq<Modifier>, Option<KeyName>), Seq<char>>(p)
                    && m@ == "Unknown key: "@ + p,
            Err(_) => false,
        },
{
    let chars = chars_of(key_str);
    let parts = split_chars(&chars, '+');
    let ghost all = parts.deep_view();
    let mut modifiers: Vec<Modifier> = Vec::new();
    let mut main: Option<KeyName> = None;
    let mut i: usize = 0;
    while i < parts.len()
        invariant
            i <= parts@.len(),
            all == parts.deep_view(),
            all.len() == parts@.len(),
            all == split_on(key_str@, '+'),
            combo_of(all.take(i as int)) == Ok::<(Seq<Modifier>, Option<KeyName>), Seq<char>>((modifiers@, main)),
        decreases parts@.len() - i,
    {
        proof {
            assert(all.take(i + 1).drop_last() == all.take(i as int));
            assert(all.take(i + 1).last() == all[i as int]);
            crate::text::lemma_chars_deep_view(parts@[i as int]);
        }
        let part = string_of(&parts[i]);
        let lower = to_lowercase(part.as_str());
        match modifier_exec(lower.as_str()) {
            Some(m) => {
                modifiers.push(m);
            },
            None => {
                match parse_key(part.as_str()) {
                    Ok(k) => {
                        main = Some(k);
                    },
                    Err(e) => {
                        assert(combo_of(all.take(i + 1)) == Err::<(Seq<Modifier>, Option<KeyName>), Seq<char>>(part@));
                        assert(all.take(parts@.len() as int) == all);
                        proof {
                            lemma_combo_err_stays(all, i as int + 1, part@);
                        }
                        return Err(e);
                    },
                }
            },
        }
        i = i + 1;
    }
    assert(all.take(parts@.len() as int) == all);
    Ok(KeyCombo { modifiers, main })
}

/// Once the reading of a prefix stops, the reading of every longer prefix
/// stops at the same part.
pub proof fn lemma_combo_err_stays(parts: Seq<Seq<char>>, n: int, p: Seq<char>)
    requires
        0 <= n <= parts.len(),
        combo_of(parts.take(n)) == Err::<(Seq<Modifier>, Option<KeyName>), Seq<char>>(p),
    ensures
        combo_of(parts) == Err::<(Seq<Modifier>, Option<KeyName>), Seq<char>>(p),
    decreases parts.len() - n,
{
    if n < parts.len() {
        assert(parts.take(n + 1).drop_last() == parts.take(n));
        lemma_combo_err_stays(parts, n + 1, p);
    } else {
        assert(parts.take(n) == parts);
    }
}

/// Modifier flags and key code of a macOS key event.
#[derive(Debug, Clone, Copy)]
pub struct MacKey {
    pub command: bool,
    pub control: bool,
    pub alternate: bool,
    pub shift: bool,
    pub key_code: u16,
}

/// Reads the parts of a combination for macOS: modifiers set their flag,
/// and the last other part, lowercased, is the main key name.
pub open spec fn mac_combo_of(parts: Seq<Seq<char>>) -> (bool, bool, bool, bool, Seq<char>)
    decreases parts.len(),
{
    if parts.len() == 0 {
        (false, false, false, false, Seq::empty())
    } else {
        let (c, k, a, s, main) = mac_combo_of(parts.drop_last());
        let lower = lowercase(parts.last());
        match modifier_of(lower) {
            Some(Modifier::Meta) => (true, k, a, s, main),
            Some(Modifier::Control) => (c, true, a, s, main),
            Some(Modifier::Alt) => (c, k, true, s, main),
            Some(Modifier::Shift) => (c, k, a, true, main),
            None => (c, k, a, s, lower),
        }
    }
}

/// The macOS key code of a lowercase main key name: a named key, else the
/// key of its first character.
pub open spec fn mac_code_of(main: Seq<char>) -> Option<u16> {
    match mac_named_code(main) {
        Some(c) => Some(c),
        None => if main.len() > 0 {
            mac_char_code(main[0])
        } else {
            None
        },
    }
}

/// Parses a key combination into a macOS key event.
pub fn mac_key_event(key_str: &str) -> (r: Result<MacKey, ComputerError>)
    ensures
        ({
            let (c, k, a, s, main) = mac_combo_of(split_on(key_str@, '+'));
            match r {
                Ok(e) => mac_code_of(main) == Some(e.key_code) && e.command == c && e.control == k
                    && e.alternate == a && e.shift == s,
                Err(ComputerError::Input(m)) => mac_code_of(main) is None && m@ == "unknown key: "@ + main,
                Err(_) => false,
            }
        }),
{
    let chars = chars_of(key_str);
    let parts = split_chars(&chars, '+');
    let ghost all = parts.deep_view();
    let mut command = false;
    let mut control = false;
    let mut alternate = false;
    let mut shift = false;
    let mut main = String::new();
    let mut i: usize = 0;
    while i < parts.len()
        invariant
            i <= parts@.len(),
            all == parts.deep_view(),
            all.len() == parts@.len(),
            all == split_on(key_str@, '+'),
            mac_combo_of(all.take(i as int)) == (command, control, alternate, shift, main@),
        decreases parts@.len() - i,
    {
        proof {
            assert(all.take(i + 1).drop_last() == all.take(i as int));
            assert(all.take(i + 1).last() == all[i as int]);
            crate::text::lemma_chars_deep_view(parts@[i as int]);
        }
        let part = string_of(&parts[i]);
        let lower = to_lowercase(part.as_str());
        match modifier_exec(lower.as_str()) {
            Some(Modifier::Meta) => {
                command = true;
            },
            Some(Modifier::Control) => {
                control = true;
            },
            Some(Modifier::Alt) => {
                alternate = true;
            },
            Some(Modifier::Shift) => {
                shift = true;
            },
            None => {
                main = lower;
            },
        }
        i = i + 1;
    }
    assert(all.take(parts@.len() as int) == all);
    let code = match mac_named_code_exec(main.as_str()) {
        Some(c) => Some(c),
        None => {
            let mc = chars_of(main.as_str());
            if mc.len() > 0 {
                mac_char_code_exec(mc[0])
            } else {
                None
            }
        },
    };
    match code {
        Some(key_code) => Ok(MacKey { command, control, alternate, shift, key_code }),
        None => {
            let mut m = String::from_str("unknown key: ");
            m.append(main.as_str());
            Err(ComputerError::Input(m))
        },
    }
}

/// Text escaped for an AppleScript string literal: backslashes and double
/// quotes get a backslash in front.
pub open spec fn applescript_escaped(t: Seq<char>) -> Seq<char>
    decreases t.len(),
{
    if t.len() == 0 {
        Seq::empty()
    } else {
        let c = t.last();
        applescript_escaped(t.drop_last()) + if c == '\\' || c == '"' {
            seq!['\\', c]
        } else {
            seq![c]
        }
    }
}

/// The AppleScript that types `text` through System Events.
pub open spec fn keystroke_script_of(text: Seq<char>) -> Seq<char> {
    "tell application \"System Events\" to keystroke \""@ + applescript_escaped(text) + "\"\n"@
}

/// Builds the AppleScript that types `text`.
pub fn keystroke_script(text: &str) -> (r: String)
    ensures
        r@ == keystroke_script_of(text@),
{
    let t = chars_of(text);
    let mut out = chars_of("tell application \"System Events\" to keystroke \"");
    let ghost start = out@;
    let mut i: usize = 0;
    while i < t.len()
        invariant
            i <= t@.len(),
            out@ == start + applescript_escaped(t@.take(i as int)),
        decreases t@.len() - i,
    {
        let c = t[i];
        assert(t@.take(i + 1).drop_last() == t@.take(i as int));
        if c == '\\' || c == '"' {
            out.push('\\');
        }
        out.push(c);
        i = i + 1;
    }
    assert(t@.take(t@.len() as int) == t@);
    push_str(&mut out, "\"\n");
    string_of(&out)
}

/// BGRA pixels with the given row stride turned into packed RGB rows.
pub open spec fn bgra_to_rgb_spec(raw: Seq<u8>, width: nat, height: nat, stride: nat) -> Seq<u8> {
    Seq::new(
        width * height * 3,
        |k: int| {
            let p = k / 3;
            let off = (p / width as int) * stride + (p % width as int) * 4;
            if k % 3 == 0 {
                raw[off + 2]
            } else if k % 3 == 1 {
                raw[off + 1]
            } else {
                raw[off]
            }
        },
    )
}

/// Converts a BGRA frame into packed RGB; every pixel read must lie in `raw`.
pub fn bgra_to_rgb(raw: &[u8], width: usize, height: usize, bytes_per_row: usize) -> (r: Vec<u8>)
    requires
        width * height * 3 <= usize::MAX,
        height > 0 && width > 0 ==> (height - 1) * bytes_per_row + (width - 1) * 4 + 3 < raw@.len(),
    ensures
        r@ == bgra_to_rgb_spec(raw@, width as nat, height as nat, bytes_per_row as nat),
{
    let ghost spec = bgra_to_rgb_spec(raw@, width as nat, height as nat, bytes_per_row as nat);
    let rl = raw.len();
    let mut out: Vec<u8> = Vec::new();
    let mut y: usize = 0;
    while y < height
        invariant
            y <= height,
            rl == raw@.len(),
            spec == bgra_to_rgb_spec(raw@, width as nat, height as nat, bytes_per_row as nat),
            width * height * 3 <= usize::MAX,
            height > 0 && width > 0 ==> (height - 1) * bytes_per_row + (width - 1) * 4 + 3 < raw@.len(),
            out@.len() == y * width * 3,
            forall|k: int| 0 <= k < out@.len() ==> out@[k] == spec[k],
        decreases height - y,
    {
        let mut x: usize = 0;
        while x < width
            invariant
                y < height,
                x <= width,
                rl == raw@.len(),
                spec == bgra_to_rgb_spec(raw@, width as nat, height as nat, bytes_per_row as nat),
                width * height * 3 <= usize::MAX,
                width > 0 ==> (height - 1) * bytes_per_row + (width - 1) * 4 + 3 < raw@.len(),
                out@.len() == y * width * 3 + x * 3,
                forall|k: int| 0 <= k < out@.len() ==> out@[k] == spec[k],
            decreases width - x,
        {
            proof {
                assert(y * bytes_per_row + x * 4 + 3 <= (height - 1) * bytes_per_row + (width - 1) * 4 + 3) by (nonlinear_arith)
                    requires y < height, x < width;
                assert(y * width * 3 + x * 3 + 3 <= width * height * 3) by (nonlinear_arith)
                    requires y < height, x < width;
            }
            let offset = y * bytes_per_row + x * 4;
            let ghost n = out@.len() as int;
            proof {
                let p = (y * width + x) as int;
                assert(n == p * 3) by (nonlinear_arith)
                    requires n == y * width * 3 + x * 3, p == y * width + x;
                assert(p / width as int == y && p % width as int == x) by (nonlinear_arith)
                    requires p == y * width + x, x < width;
                assert((n / 3) == p && n % 3 == 0) by (nonlinear_arith) requires n == p * 3;
                assert(((n + 1) / 3) == p && (n + 1) % 3 == 1) by (nonlinear_arith) requires n == p * 3;
                assert(((n + 2) / 3) == p && (n + 2) % 3 == 2) by (nonlinear_arith) requires n == p * 3;
                assert(n + 2 < width * height * 3);
                assert(spec[n] == raw@[offset + 2]);
                assert(spec[n + 1] == raw@[offset + 1]);
                assert(spec[n + 2] == raw@[offset as int]);
            }
            out.push(raw[offset + 2]);
            out.push(raw[offset + 1]);
            out.push(raw[offset]);
            x = x + 1;
        }
        proof {
            assert(y * width * 3 + width * 3 == (y + 1) * width * 3) by (nonlinear_arith);
        }
        y = y + 1;
    }
    proof {
        assert(height * width * 3 == width * height * 3) by (nonlinear_arith);
    }
    assert(out@ =~= spec);
    out
}

/// Bytes a pixel of a captured frame takes: RGBA or RGB.
pub open spec fn pixel_bytes(has_alpha: bool) -> nat {
    if has_alpha { 4 } else { 3 }
}

/// The screenshot the model receives: the captured frame scaled to
/// `AI_WIDTH` x `AI_HEIGHT`, encoded as a JPEG of quality `JPEG_QUALITY`, in
/// base64.
pub open spec fn model_screenshot(pixels: Seq<u8>, width: nat, height: nat, has_alpha: bool) -> Seq<char> {
    let rgb = if has_alpha {
        scaled_rgba(pixels, width, height, AI_WIDTH as nat, AI_HEIGHT as nat)
    } else {
        scaled_rgb(pixels, width, height, AI_WIDTH as nat, AI_HEIGHT as nat)
    };
    base64_of(jpeg_of(rgb, AI_WIDTH as nat, AI_HEIGHT as nat, JPEG_QUALITY as nat))
}

/// Turns a captured frame (RGBA when `has_alpha`, else packed RGB) into the
/// screenshot the model receives; fails when the frame holds fewer bytes
/// than its size needs.
pub fn screenshot_for_model(pixels: Vec<u8>, width: u32, height: u32, has_alpha: bool) -> (r: Result<String, ComputerError>)
    ensures
        match r {
            Ok(s) => pixels@.len() >= width * height * pixel_bytes(has_alpha)
                && s@ == model_screenshot(pixels@, width as nat, height as nat, has_alpha),
            Err(e) => pixels@.len() < width * height * pixel_bytes(has_alpha)
                && (e matches ComputerError::Screenshot(m) && m@ == "Failed to create image"@),
        },
{
    let ghost px = pixels@;
    let scaled = if has_alpha {
        scale_rgba(pixels, width, height, AI_WIDTH, AI_HEIGHT)
    } else {
        scale_rgb(pixels, width, height, AI_WIDTH, AI_HEIGHT)
    };
    let rgb = match scaled {
        Some(v) => v,
        None => {
            return Err(ComputerError::Screenshot(String::from_str("Failed to create image")));
        },
    };
    match encode_jpeg(&rgb, AI_WIDTH, AI_HEIGHT, JPEG_QUALITY) {
        Ok(jpeg) => Ok(encode_base64(&jpeg)),
        Err(m) => Err(ComputerError::Screenshot(m)),
    }
}

/// An app panel as the screenshot sees it: whether it shows, and its
/// window number.
#[derive(Debug, Clone, Copy)]
pub struct PanelState {
    pub visible: bool,
    pub window_id: u32,
}

/// The window of the first visible panel, in the order given.
pub open spec fn first_visible(panels: Seq<Option<PanelState>>) -> Option<u32>
    decreases panels.len(),
{
    if panels.len() == 0 {
        None
    } else {
        match panels[0] {
            Some(p) => if p.visible {
                Some(p.window_id)
            } else {
                first_visible(panels.drop_first())
            },
            None => first_visible(panels.drop_first()),
        }
    }
}

/// The window below which a screenshot leaves out the app: the first
/// visible panel among those given (spotlight, main, mini); none when no
/// panel shows, and then the whole screen is taken.
pub fn exclusion_window(panels: &Vec<Option<PanelState>>) -> (r: Option<u32>)
    ensures
        r == first_visible(panels@),
{
    let mut i: usize = 0;
    assert(panels@.skip(0) == panels@);
    while i < panels.len()
        invariant
            i <= panels@.len(),
            first_visible(panels@) == first_visible(panels@.skip(i as int)),
        decreases panels@.len() - i,
    {
        assert(panels@.skip(i as int)[0] == panels@[i as int]);
        assert(panels@.skip(i as int).drop_first() == panels@.skip(i + 1));
        if let Some(p) = panels[i] {
            if p.visible {
                return Some(p.window_id);
            }
        }
        i = i + 1;
    }
    None
}

} // verus!
