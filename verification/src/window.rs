//! The viewer's window: what is shown in it, and what the user does there.
//!
//! Positions come in as whole pixels of the host's screen and wheel turns as whole
//! notches.
use crate::codec::DecodedFrame;
use crate::viewer::ViewerEvent;
use vstd::prelude::*;

verus! {

/// The widest window that is opened for a host, in pixels.
pub const MAX_WINDOW_WIDTH: u32 = 1600;

// ---------------------------------------------------------------------------
// Input for the host.
// ---------------------------------------------------------------------------

/// A button of the mouse, as the window reports it.
#[derive(Clone, Copy, Debug, PartialEq, Eq, Structural)]
pub enum MouseButton {
    /// The left one.
    Left,
    /// The right one.
    Right,
    /// The one in the middle.
    Middle,
    /// The one that goes back.
    Back,
    /// The one that goes forward.
    Forward,
    /// Any other.
    Other,
}

/// A key with a name, as the window reports it.
#[derive(Clone, Copy, Debug, PartialEq, Eq, Structural)]
pub enum NamedKey {
    /// Enter.
    Enter,
    /// Backspace.
    Backspace,
    /// Tab.
    Tab,
    /// Escape.
    Escape,
    /// The space bar.
    Space,
    /// Delete.
    Delete,
    /// Arrow up.
    ArrowUp,
    /// Arrow down.
    ArrowDown,
    /// Arrow left.
    ArrowLeft,
    /// Arrow right.
    ArrowRight,
    /// Home.
    Home,
    /// End.
    End,
    /// Page up.
    PageUp,
    /// Page down.
    PageDown,
    /// Any other.
    Other,
}

/// What a key means, as the window reports it.
#[derive(Debug)]
pub enum LogicalKey {
    /// A key with a name.
    Named(NamedKey),
    /// A key that writes something.
    Character(String),
    /// A key that means nothing.
    Other,
}

/// A button of the mouse that the host can press.
#[derive(Clone, Copy, Debug, PartialEq, Eq, Structural)]
pub enum Button {
    /// The left one.
    Left,
    /// The right one.
    Right,
    /// The one in the middle.
    Middle,
    /// The one that goes back.
    Back,
    /// The one that goes forward.
    Forward,
}

/// A key that the host can press.
#[derive(Clone, Copy, Debug, PartialEq, Eq, Structural)]
pub enum Key {
    /// Return.
    Return,
    /// Backspace.
    Backspace,
    /// Tab.
    Tab,
    /// Escape.
    Escape,
    /// The space bar.
    Space,
    /// Delete.
    Delete,
    /// Arrow up.
    UpArrow,
    /// Arrow down.
    DownArrow,
    /// Arrow left.
    LeftArrow,
    /// Arrow right.
    RightArrow,
    /// Home.
    Home,
    /// End.
    End,
    /// Page up.
    PageUp,
    /// Page down.
    PageDown,
}

/// What is done with a button or a key.
#[derive(Clone, Copy, Debug, PartialEq, Eq, Structural)]
pub enum Direction {
    /// It is pressed and held.
    Press,
    /// It is let go.
    Release,
    /// It is pressed and let go.
    Click,
}

/// The direction of a wheel.
#[derive(Clone, Copy, Debug, PartialEq, Eq, Structural)]
pub enum Axis {
    /// Left and right.
    Horizontal,
    /// Up and down.
    Vertical,
}

/// An input action for the host.
#[derive(Debug)]
pub enum InputToken {
    /// Write a text.
    Text(String),
    /// Use a key.
    Key(Key, Direction),
    /// Use a button of the mouse.
    Button(Button, Direction),
    /// Move the mouse to a place on the screen.
    MoveMouse(i32, i32),
    /// Turn the wheel by some notches.
    Scroll(i32, Axis),
}

/// The number in the range that is closest to `value`.
pub open spec fn clamped(value: int, low: int, high: int) -> int {
    if value < low {
        low
    } else if value > high {
        high
    } else {
        value
    }
}

/// The mouse can be placed on a screen of this size.
pub open spec fn pointable(size: (u32, u32)) -> bool {
    0 < size.0 <= i32::MAX && 0 < size.1 <= i32::MAX
}

/// The mouse action for a place on the host's screen: the closest pixel. Before the
/// host has told the size of its screen, and while the window has no area, none.
pub open spec fn cursor_token(
    host_size: Option<(u32, u32)>,
    window: (u32, u32),
    x: i32,
    y: i32,
) -> Option<InputToken> {
    match host_size {
        Some(host) => if window.0 == 0 || window.1 == 0 {
            None
        } else {
            Some(
                InputToken::MoveMouse(
                    clamped(x as int, 0, host.0 - 1) as i32,
                    clamped(y as int, 0, host.1 - 1) as i32,
                ),
            )
        },
        None => None,
    }
}

/// The mouse action for a place on the host's screen.
pub fn map_cursor(host_size: Option<(u32, u32)>, window: (u32, u32), x: i32, y: i32) -> (token:
    Option<InputToken>)
    requires
        host_size is Some && window.0 > 0 && window.1 > 0 ==> pointable(host_size->Some_0),
    ensures
        token == cursor_token(host_size, window, x, y),
{
    let Some((width, height)) = host_size else {
        return None;
    };
    if window.0 == 0 || window.1 == 0 {
        return None;
    }
    Some(InputToken::MoveMouse(clamp(x, width as i32 - 1), clamp(y, height as i32 - 1)))
}

/// The number from zero to `high` that is closest to `value`.
fn clamp(value: i32, high: i32) -> (close: i32)
    requires
        high >= 0,
    ensures
        close == clamped(value as int, 0, high as int),
{
    if value < 0 {
        0
    } else if value > high {
        high
    } else {
        value
    }
}

/// The host's button for one of the window's.
pub open spec fn button_for(button: MouseButton) -> Option<Button> {
    match button {
        MouseButton::Left => Some(Button::Left),
        MouseButton::Right => Some(Button::Right),
        MouseButton::Middle => Some(Button::Middle),
        MouseButton::Back => Some(Button::Back),
        MouseButton::Forward => Some(Button::Forward),
        MouseButton::Other => None,
    }
}

/// The mouse action for a button: it is pressed and let go as in the window.
pub open spec fn button_token(pressed: bool, button: MouseButton) -> Option<InputToken> {
    match button_for(button) {
        Some(button) => Some(
            InputToken::Button(
                button,
                if pressed {
                    Direction::Press
                } else {
                    Direction::Release
                },
            ),
        ),
        None => None,
    }
}

/// The mouse action for a button.
pub fn map_button(pressed: bool, button: MouseButton) -> (token: Option<InputToken>)
    ensures
        token == button_token(pressed, button),
{
    let button = match button {
        MouseButton::Left => Button::Left,
        MouseButton::Right => Button::Right,
        MouseButton::Middle => Button::Middle,
        MouseButton::Back => Button::Back,
        MouseButton::Forward => Button::Forward,
        MouseButton::Other => return None,
    };
    let direction = if pressed {
        Direction::Press
    } else {
        Direction::Release
    };
    Some(InputToken::Button(button, direction))
}

/// The mouse action for a turn of the wheel: up and down first, with the host's
/// sign, else left and right.
pub open spec fn scroll_token(horizontal: i32, vertical: i32) -> Option<InputToken> {
    if vertical != 0 {
        Some(InputToken::Scroll((-vertical) as i32, Axis::Vertical))
    } else if horizontal != 0 {
        Some(InputToken::Scroll(horizontal, Axis::Horizontal))
    } else {
        None
    }
}

/// The mouse action for a turn of the wheel.
pub fn map_scroll(horizontal: i32, vertical: i32) -> (token: Option<InputToken>)
    requires
        vertical > i32::MIN,
    ensures
        token == scroll_token(horizontal, vertical),
{
    if vertical != 0 {
        Some(InputToken::Scroll(-vertical, Axis::Vertical))
    } else if horizontal != 0 {
        Some(InputToken::Scroll(horizontal, Axis::Horizontal))
    } else {
        None
    }
}

/// The host's key for one of the window's.
pub open spec fn key_for(key: NamedKey) -> Option<Key> {
    match key {
        NamedKey::Enter => Some(Key::Return),
        NamedKey::Backspace => Some(Key::Backspace),
        NamedKey::Tab => Some(Key::Tab),
        NamedKey::Escape => Some(Key::Escape),
        NamedKey::Space => Some(Key::Space),
        NamedKey::Delete => Some(Key::Delete),
        NamedKey::ArrowUp => Some(Key::UpArrow),
        NamedKey::ArrowDown => Some(Key::DownArrow),
        NamedKey::ArrowLeft => Some(Key::LeftArrow),
        NamedKey::ArrowRight => Some(Key::RightArrow),
        NamedKey::Home => Some(Key::Home),
        NamedKey::End => Some(Key::End),
        NamedKey::PageUp => Some(Key::PageUp),
        NamedKey::PageDown => Some(Key::PageDown),
        NamedKey::Other => None,
    }
}

/// The key action for a key: a click of it, or the text that it writes, as soon as
/// it is pressed.
pub open spec fn key_token(pressed: bool, key: LogicalKey) -> Option<InputToken> {
    if !pressed {
        None
    } else {
        match key {
            LogicalKey::Named(named) => match key_for(named) {
                Some(key) => Some(InputToken::Key(key, Direction::Click)),
                None => None,
            },
            LogicalKey::Character(text) => Some(InputToken::Text(text)),
            LogicalKey::Other => None,
        }
    }
}

/// The key action for a key.
pub fn map_key(pressed: bool, key: LogicalKey) -> (token: Option<InputToken>)
    ensures
        token == key_token(pressed, key),
{
    if !pressed {
        return None;
    }
    match key {
        LogicalKey::Named(named) => {
            let key = match named {
                NamedKey::Enter => Key::Return,
                NamedKey::Backspace => Key::Backspace,
                NamedKey::Tab => Key::Tab,
                NamedKey::Escape => Key::Escape,
                NamedKey::Space => Key::Space,
                NamedKey::Delete => Key::Delete,
                NamedKey::ArrowUp => Key::UpArrow,
                NamedKey::ArrowDown => Key::DownArrow,
                NamedKey::ArrowLeft => Key::LeftArrow,
                NamedKey::ArrowRight => Key::RightArrow,
                NamedKey::Home => Key::Home,
                NamedKey::End => Key::End,
                NamedKey::PageUp => Key::PageUp,
                NamedKey::PageDown => Key::PageDown,
                NamedKey::Other => return None,
            };
            Some(InputToken::Key(key, Direction::Click))
        },
        LogicalKey::Character(text) => Some(InputToken::Text(text)),
        LogicalKey::Other => None,
    }
}

/// Two keys of the window never stand for the same key of the host.
pub proof fn law_keys_stay_apart(a: NamedKey, b: NamedKey)
    requires
        key_for(a) is Some,
        key_for(a) == key_for(b),
    ensures
        a == b,
{
}

/// The mouse never leaves the host's screen.
pub proof fn law_cursor_stays_on_screen(host: (u32, u32), window: (u32, u32), x: i32, y: i32)
    requires
        pointable(host),
    ensures
        cursor_token(Some(host), window, x, y) matches Some(token) ==> {
            &&& token matches InputToken::MoveMouse(column, row)
            &&& 0 <= column < host.0
            &&& 0 <= row < host.1
        },
        window.0 > 0 && window.1 > 0 && 0 <= x < host.0 && 0 <= y < host.1 ==> cursor_token(
            Some(host),
            window,
            x,
            y,
        ) == Some(InputToken::MoveMouse(x, y)),
{
}

// ---------------------------------------------------------------------------
// Opening the window.
// ---------------------------------------------------------------------------

/// What a viewer draws on: its window, and the context and the surface for drawing.
/// They are made together, and when they are there the connection is started.
pub struct Display<W, C, S> {
    /// The window.
    pub window: Option<W>,
    /// The context for drawing.
    pub context: Option<C>,
    /// The surface for drawing.
    pub surface: Option<S>,
    /// The connection to the host has been started.
    pub net_started: bool,
}

/// What there is of a display.
pub struct DisplayState {
    /// The window is there.
    pub window: bool,
    /// The context is there.
    pub context: bool,
    /// The surface is there.
    pub surface: bool,
    /// The connection to the host has been started.
    pub net_started: bool,
}

/// What is done when the display was to be made, `F` being why it could not be.
#[derive(Debug)]
pub enum DisplayAction<F> {
    /// Nothing.
    Nothing,
    /// Start the connection to the host.
    StartNetwork,
    /// Leave.
    Exit(F),
}

impl<W, C, S> View for Display<W, C, S> {
    type V = DisplayState;

    open spec fn view(&self) -> DisplayState {
        DisplayState {
            window: self.window is Some,
            context: self.context is Some,
            surface: self.surface is Some,
            net_started: self.net_started,
        }
    }
}

impl DisplayState {
    /// Nothing is there yet.
    pub open spec fn nothing() -> DisplayState {
        DisplayState { window: false, context: false, surface: false, net_started: false }
    }

    /// What there is after a call, given whether the parts could be made.
    pub open spec fn resumed(self, made: bool) -> DisplayState {
        if self.window || !made {
            self
        } else {
            DisplayState { window: true, context: true, surface: true, net_started: true }
        }
    }

    /// The call starts the connection.
    pub open spec fn starts_network(self, made: bool) -> bool {
        !self.window && made && !self.net_started
    }
}

impl<W, C, S> Display<W, C, S> {
    /// A display that is still to be made.
    pub fn new() -> (display: Self)
        ensures
            display@ == DisplayState::nothing(),
    {
        Display { window: None, context: None, surface: None, net_started: false }
    }

    /// Whether the parts are still to be made.
    pub fn is_wanted(&self) -> (wanted: bool)
        ensures
            wanted == !self@.window,
    {
        self.window.is_none()
    }

    /// Takes window, context and surface, or why one of them could not be made. A
    /// display that is there already stays as it is.
    pub fn resumed<F>(&mut self, made: Result<(W, C, S), F>) -> (action: DisplayAction<F>)
        ensures
            final(self)@ == old(self)@.resumed(made is Ok),
            old(self)@.window || made is Err ==> *final(self) == *old(self),
            !old(self)@.window ==> match made {
                Ok((window, context, surface)) => {
                    &&& *final(self) == (Display {
                        window: Some(window),
                        context: Some(context),
                        surface: Some(surface),
                        net_started: true,
                    })
                    &&& action == if old(self)@.net_started {
                        DisplayAction::<F>::Nothing
                    } else {
                        DisplayAction::<F>::StartNetwork
                    }
                },
                Err(failure) => action == DisplayAction::Exit(failure),
            },
            old(self)@.window ==> action == DisplayAction::<F>::Nothing,
    {
        if self.window.is_some() {
            return DisplayAction::Nothing;
        }
        match made {
            Ok((window, context, surface)) => {
                self.window = Some(window);
                self.context = Some(context);
                self.surface = Some(surface);
                if self.net_started {
                    return DisplayAction::Nothing;
                }
                self.net_started = true;
                DisplayAction::StartNetwork
            },
            Err(failure) => DisplayAction::Exit(failure),
        }
    }
}

/// What there is of a display after some calls; each says whether the parts could
/// be made.
pub open spec fn display_after(calls: Seq<bool>) -> DisplayState
    decreases calls.len(),
{
    if calls.len() == 0 {
        DisplayState::nothing()
    } else {
        display_after(calls.drop_last()).resumed(calls.last())
    }
}

/// How often some calls started the connection.
pub open spec fn network_starts(calls: Seq<bool>) -> nat
    decreases calls.len(),
{
    if calls.len() == 0 {
        0
    } else {
        network_starts(calls.drop_last()) + if display_after(calls.drop_last()).starts_network(
            calls.last(),
        ) {
            1nat
        } else {
            0nat
        }
    }
}

/// Window, context and surface are there together or not at all: together, as soon
/// as they could be made once. The connection is started exactly once, when they
/// are there, and never without them.
pub proof fn law_display_comes_whole_and_connects_once(calls: Seq<bool>)
    ensures
        ({
            let state = display_after(calls);
            &&& state.window == state.context
            &&& state.window == state.surface
            &&& state.window == calls.contains(true)
            &&& state.net_started == state.window
            &&& network_starts(calls) == if state.net_started {
                1nat
            } else {
                0nat
            }
        }),
    decreases calls.len(),
{
    if calls.len() > 0 {
        let before = calls.drop_last();
        law_display_comes_whole_and_connects_once(before);
        if before.contains(true) {
            let k = choose|k: int| 0 <= k < before.len() && before[k] == true;
            assert(calls[k] == true);
        }
        if calls.last() {
            assert(calls[calls.len() - 1] == true);
        }
        if calls.contains(true) && !calls.last() {
            let k = choose|k: int| 0 <= k < calls.len() && calls[k] == true;
            assert(before[k] == true);
        }
    }
}

// ---------------------------------------------------------------------------
// What happens in the window.
// ---------------------------------------------------------------------------

/// Something that happened in the window.
#[derive(Debug)]
pub enum WindowEvent {
    /// The user closes it.
    CloseRequested,
    /// It has a new size.
    Resized,
    /// Its contents are to be drawn.
    RedrawRequested,
    /// The mouse moved, to this place of the host's screen, in a window of this
    /// size.
    CursorMoved {
        /// Width and height of the window.
        window: (u32, u32),
        /// The column on the host's screen.
        x: i32,
        /// The row on the host's screen.
        y: i32,
    },
    /// A button of the mouse was pressed or let go.
    MouseInput {
        /// It was pressed.
        pressed: bool,
        /// Which one.
        button: MouseButton,
    },
    /// The wheel was turned by so many notches.
    MouseWheel {
        /// To the right.
        horizontal: i32,
        /// Up.
        vertical: i32,
    },
    /// A key was pressed or let go.
    KeyboardInput {
        /// It was pressed.
        pressed: bool,
        /// Which one.
        key: LogicalKey,
    },
    /// Anything else.
    Other,
}

/// What the viewer does about it.
#[derive(Debug)]
pub enum ViewerAction {
    /// Nothing.
    Nothing,
    /// Bring the window to the size of the host's screen.
    Fit {
        /// Pixels in a row.
        width: u32,
        /// Rows.
        height: u32,
    },
    /// Have the window drawn again.
    Redraw,
    /// Draw the window.
    Render,
    /// Send an input action to the host.
    Send(InputToken),
    /// Leave, telling this reason if there is one.
    Exit(Option<String>),
}

/// The viewer: what it knows of the host, and what it shows.
pub struct Viewer {
    /// The size of the host's screen, once it was told.
    pub host_size: Option<(u32, u32)>,
    /// The latest picture of the host's screen.
    pub frame: Option<DecodedFrame>,
}

/// The action for an input, if it gave one.
pub open spec fn sending(token: Option<InputToken>) -> ViewerAction {
    match token {
        Some(token) => ViewerAction::Send(token),
        None => ViewerAction::Nothing,
    }
}

/// What a viewer does about an event in its window. Input is sent only to a host
/// that has told the size of its screen.
pub open spec fn reaction(host_size: Option<(u32, u32)>, event: WindowEvent) -> ViewerAction {
    match event {
        WindowEvent::CloseRequested => ViewerAction::Exit(None),
        WindowEvent::Resized => ViewerAction::Redraw,
        WindowEvent::RedrawRequested => ViewerAction::Render,
        WindowEvent::CursorMoved { window, x, y } => sending(
            cursor_token(host_size, window, x, y),
        ),
        WindowEvent::MouseInput { pressed, button } => if host_size is Some {
            sending(button_token(pressed, button))
        } else {
            ViewerAction::Nothing
        },
        WindowEvent::MouseWheel { horizontal, vertical } => if host_size is Some {
            sending(scroll_token(horizontal, vertical))
        } else {
            ViewerAction::Nothing
        },
        WindowEvent::KeyboardInput { pressed, key } => if host_size is Some {
            sending(key_token(pressed, key))
        } else {
            ViewerAction::Nothing
        },
        WindowEvent::Other => ViewerAction::Nothing,
    }
}

/// The action for an input, if it gave one.
fn send_input(token: Option<InputToken>) -> (action: ViewerAction)
    ensures
        action == sending(token),
{
    match token {
        Some(token) => ViewerAction::Send(token),
        None => ViewerAction::Nothing,
    }
}

impl Viewer {
    /// A viewer that is not yet connected.
    pub fn new() -> (viewer: Self)
        ensures
            viewer == (Viewer { host_size: None, frame: None }),
    {
        Viewer { host_size: None, frame: None }
    }

    /// Takes news from the connection.
    pub fn user_event(&mut self, event: ViewerEvent) -> (action: ViewerAction)
        ensures
            match event {
                ViewerEvent::Connected { width, height } => {
                    &&& *final(self) == (Viewer {
                        host_size: Some((width, height)),
                        ..*old(self)
                    })
                    &&& action == (ViewerAction::Fit { width, height })
                },
                ViewerEvent::Frame(frame) => {
                    &&& *final(self) == (Viewer { frame: Some(frame), ..*old(self) })
                    &&& action == ViewerAction::Redraw
                },
                ViewerEvent::Disconnected(reason) => {
                    &&& *final(self) == *old(self)
                    &&& action == ViewerAction::Exit(Some(reason))
                },
            },
    {
        match event {
            ViewerEvent::Connected { width, height } => {
                self.host_size = Some((width, height));
                ViewerAction::Fit { width, height }
            },
            ViewerEvent::Frame(frame) => {
                self.frame = Some(frame);
                ViewerAction::Redraw
            },
            ViewerEvent::Disconnected(reason) => ViewerAction::Exit(Some(reason)),
        }
    }

    /// Takes an event in the window.
    pub fn window_event(&self, event: WindowEvent) -> (action: ViewerAction)
        requires
            event matches WindowEvent::CursorMoved { window, .. } ==> (self.host_size is Some
                && window.0 > 0 && window.1 > 0 ==> pointable(self.host_size->Some_0)),
            event matches WindowEvent::MouseWheel { vertical, .. } ==> (self.host_size is Some
                ==> vertical > i32::MIN),
        ensures
            action == reaction(self.host_size, event),
    {
        match event {
            WindowEvent::CloseRequested => ViewerAction::Exit(None),
            WindowEvent::Resized => ViewerAction::Redraw,
            WindowEvent::RedrawRequested => ViewerAction::Render,
            WindowEvent::CursorMoved { window, x, y } => send_input(
                map_cursor(self.host_size, window, x, y),
            ),
            WindowEvent::MouseInput { pressed, button } => if self.host_size.is_some() {
                send_input(map_button(pressed, button))
            } else {
                ViewerAction::Nothing
            },
            WindowEvent::MouseWheel { horizontal, vertical } => if self.host_size.is_some() {
                send_input(map_scroll(horizontal, vertical))
            } else {
                ViewerAction::Nothing
            },
            WindowEvent::KeyboardInput { pressed, key } => if self.host_size.is_some() {
                send_input(map_key(pressed, key))
            } else {
                ViewerAction::Nothing
            },
            WindowEvent::Other => ViewerAction::Nothing,
        }
    }
}

/// Nothing is sent to a host that has not told the size of its screen.
pub proof fn law_no_input_before_the_host_is_known(event: WindowEvent)
    ensures
        !(reaction(None, event) is Send),
{
}

// ---------------------------------------------------------------------------
// Drawing.
// ---------------------------------------------------------------------------

/// The colour of a pixel as the window's buffer holds it.
pub open spec fn colour(frame: (usize, usize, Seq<u8>), column: int, row: int) -> int {
    let at = (row * frame.0 + column) * 3;
    frame.2[at] * 0x1_0000 + frame.2[at + 1] * 0x100 + frame.2[at + 2]
}

/// The place in a row of `size` pixels that is shown at `at` of `shown` pixels.
pub open spec fn source(at: int, size: int, shown: int) -> int {
    at * size / shown
}

/// A picture as it is drawn into a window: each pixel of the window shows the one
/// of the picture that lies at the same share of its width and height.
pub open spec fn drawn(frame: (usize, usize, Seq<u8>), width: int, height: int) -> Seq<u32> {
    Seq::new(
        (width * height) as nat,
        |i: int|
            colour(
                frame,
                source(i % width, frame.0 as int, width),
                source(i / width, frame.1 as int, height),
            ) as u32,
    )
}

/// A pixel of the window shows a pixel of the picture.
proof fn lemma_source(at: int, size: int, shown: int)
    requires
        0 <= at < shown,
        0 < size,
    ensures
        0 <= source(at, size, shown) < size,
        0 <= at * size <= shown * size,
{
    assert(0 <= at * size < shown * size) by (nonlinear_arith)
        requires
            0 <= at < shown,
            0 < size,
    ;
    assert(0 <= at * size / shown < size) by (nonlinear_arith)
        requires
            0 <= at * size < shown * size,
            0 < shown,
    ;
}

/// A pixel inside a picture lies inside its bytes.
proof fn lemma_pixel_inside(width: int, height: int, column: int, row: int)
    requires
        0 <= column < width,
        0 <= row < height,
    ensures
        0 <= row * width,
        row * width + column < width * height,
        row * width + width <= width * height,
{
    assert(0 <= row * width && row * width + width <= width * height) by (nonlinear_arith)
        requires
            0 <= column < width,
            0 <= row < height,
    ;
}

/// Column and row of a pixel, from its place in the buffer.
proof fn lemma_place(width: int, column: int, row: int)
    requires
        0 <= column < width,
        0 <= row,
    ensures
        (row * width + column) % width == column,
        (row * width + column) / width == row,
{
    vstd::arithmetic::div_mod::lemma_fundamental_div_mod_converse(
        row * width + column,
        width,
        row,
        column,
    );
}

/// Draws a picture into a window of this size. What lies behind the window's
/// pixels in the buffer stays.
pub fn render(frame: &DecodedFrame, width: usize, height: usize, buffer: &mut [u32])
    requires
        width > 0 && height > 0 ==> frame.complete() && frame.width > 0 && frame.height > 0,
        width * height <= old(buffer)@.len(),
        width * frame.width <= usize::MAX,
        height * frame.height <= usize::MAX,
    ensures
        final(buffer)@ == drawn(frame@, width as int, height as int) + old(buffer)@.skip(
            width * height,
        ),
{
    let ghost before = buffer@;
    let ghost picture = drawn(frame@, width as int, height as int);
    let available: usize = frame.rgb.len();
    let room: usize = buffer.len();
    assert(0 <= width * height) by (nonlinear_arith);
    if width == 0 || height == 0 {
        assert(width * height == 0) by (nonlinear_arith)
            requires
                width == 0 || height == 0,
        ;
        assert(buffer@ =~= picture + before.skip(width * height));
        return;
    }
    let mut y: usize = 0;
    assert(0 * width == 0) by (nonlinear_arith);
    while y < height
        invariant
            y <= height,
            frame.complete(),
            frame.width > 0,
            frame.height > 0,
            available == frame.rgb@.len(),
            room == before.len(),
            before == old(buffer)@,
            buffer@.len() == before.len(),
            0 <= width * height <= before.len(),
            width * frame.width <= usize::MAX,
            height * frame.height <= usize::MAX,
            picture == drawn(frame@, width as int, height as int),
            forall|i: int|
                0 <= i < before.len() ==> #[trigger] buffer@[i] == if i < y * width {
                    picture[i]
                } else {
                    before[i]
                },
        decreases height - y,
    {
        proof {
            lemma_source(y as int, frame.height as int, height as int);
            lemma_pixel_inside(
                frame.width as int,
                frame.height as int,
                0,
                source(y as int, frame.height as int, height as int),
            );
            assert(0 <= y * width && y * width + width <= width * height) by (nonlinear_arith)
                requires
                    0 <= y < height,
                    0 <= width,
            ;
        }
        let source_row: usize = y * frame.height / height * frame.width;
        let row: usize = y * width;
        let mut x: usize = 0;
        while x < width
            invariant
                x <= width,
                y < height,
                frame.complete(),
                frame.width > 0,
                frame.height > 0,
                available == frame.rgb@.len(),
                room == before.len(),
                buffer@.len() == before.len(),
                row == y * width,
                row + width <= width * height <= before.len(),
                source_row == source(y as int, frame.height as int, height as int) * frame.width,
                0 <= source(y as int, frame.height as int, height as int) < frame.height,
                width * frame.width <= usize::MAX,
                picture == drawn(frame@, width as int, height as int),
                forall|i: int|
                    0 <= i < before.len() ==> #[trigger] buffer@[i] == if i < row + x {
                        picture[i]
                    } else {
                        before[i]
                    },
            decreases width - x,
        {
            let ghost from_row = source(y as int, frame.height as int, height as int);
            let ghost from_column = source(x as int, frame.width as int, width as int);
            proof {
                lemma_source(x as int, frame.width as int, width as int);
                lemma_pixel_inside(
                    frame.width as int,
                    frame.height as int,
                    from_column,
                    from_row,
                );
                lemma_place(width as int, x as int, y as int);
            }
            let at: usize = (source_row + x * frame.width / width) * 3;
            assert(at == (from_row * frame.width + from_column) * 3);
            let shade: u32 = frame.rgb[at] as u32 * 0x1_0000 + frame.rgb[at + 1] as u32 * 0x100
                + frame.rgb[at + 2] as u32;
            assert(shade == colour(frame@, from_column, from_row));
            assert(picture[row + x] == shade);
            buffer[row + x] = shade;
            x += 1;
        }
        assert((y + 1) * width == y * width + width) by (nonlinear_arith);
        y += 1;
    }
    assert(height * width == width * height) by (nonlinear_arith);
    assert(buffer@ =~= picture + before.skip(width * height));
}

/// In a window of its own size a picture is shown pixel by pixel.
pub proof fn law_own_size_shows_every_pixel(
    frame: (usize, usize, Seq<u8>),
    column: int,
    row: int,
)
    requires
        0 <= column < frame.0,
        0 <= row < frame.1,
    ensures
        drawn(frame, frame.0 as int, frame.1 as int)[row * frame.0 + column] == colour(
            frame,
            column,
            row,
        ) as u32,
{
    lemma_pixel_inside(frame.0 as int, frame.1 as int, column, row);
    lemma_place(frame.0 as int, column, row);
    assert(column * frame.0 / frame.0 as int == column) by (nonlinear_arith)
        requires
            0 < frame.0,
    ;
    assert(row * frame.1 / frame.1 as int == row) by (nonlinear_arith)
        requires
            0 < frame.1,
    ;
}

/// A pixel of the window always shows a pixel of the picture, and pixels keep their
/// order: what lies further right, or further down, never shows what lies before.
pub proof fn law_drawing_stays_inside_and_in_order(at: int, later: int, size: int, shown: int)
    requires
        0 <= at <= later < shown,
        0 < size,
    ensures
        0 <= source(at, size, shown) <= source(later, size, shown) < size,
{
    lemma_source(at, size, shown);
    lemma_source(later, size, shown);
    assert(at * size <= later * size) by (nonlinear_arith)
        requires
            at <= later,
            0 < size,
    ;
    vstd::arithmetic::div_mod::lemma_div_is_ordered(at * size, later * size, shown);
}

/// A pixel of the window shows the pixel of the picture at the same share of its size,
/// in smaller windows as in larger ones: with the window's pixels stretched over the
/// picture's, the one that is shown is the one that the window's pixel begins in.
pub proof fn law_same_share_is_shown(at: int, size: int, shown: int)
    requires
        0 <= at < shown,
        0 < size,
    ensures
        0 <= source(at, size, shown) < size,
        source(at, size, shown) * shown <= at * size < (source(at, size, shown) + 1) * shown,
{
    lemma_source(at, size, shown);
    let place = source(at, size, shown);
    vstd::arithmetic::div_mod::lemma_fundamental_div_mod(at * size, shown);
    vstd::arithmetic::div_mod::lemma_mod_bound(at * size, shown);
    assert(place * shown <= at * size < (place + 1) * shown) by (nonlinear_arith)
        requires
            at * size == shown * place + (at * size) % shown,
            0 <= (at * size) % shown < shown,
    ;
}

/// The whole picture is scaled into the window: a pixel of the window has red, green and
/// blue of the pixel of the picture that lies at the same share of the width and of the
/// height, red in the highest of the three bytes.
pub proof fn law_picture_is_scaled_into_the_window(
    frame: (usize, usize, Seq<u8>),
    width: int,
    height: int,
    x: int,
    y: int,
    column: int,
    row: int,
)
    requires
        0 <= x < width,
        0 <= y < height,
        0 <= column < frame.0,
        0 <= row < frame.1,
        column * width <= x * frame.0 < (column + 1) * width,
        row * height <= y * frame.1 < (row + 1) * height,
    ensures
        drawn(frame, width, height).len() == width * height,
        0 <= y * width + x < width * height,
        ({
            let at = (row * frame.0 + column) * 3;
            let shown = drawn(frame, width, height)[y * width + x];
            &&& shown as int / 0x1_0000 == frame.2[at]
            &&& shown as int / 0x100 % 0x100 == frame.2[at + 1]
            &&& shown as int % 0x100 == frame.2[at + 2]
        }),
{
    lemma_pixel_inside(width, height, x, y);
    lemma_place(width, x, y);
    law_same_share_is_shown(x, frame.0 as int, width);
    law_same_share_is_shown(y, frame.1 as int, height);
    lemma_one_share(column, source(x, frame.0 as int, width), x * frame.0, width);
    lemma_one_share(row, source(y, frame.1 as int, height), y * frame.1, height);
    assert(drawn(frame, width, height)[y * width + x] == colour(frame, column, row) as u32);
}

/// Only one pixel lies at a share.
proof fn lemma_one_share(a: int, b: int, share: int, shown: int)
    requires
        0 < shown,
        a * shown <= share < (a + 1) * shown,
        b * shown <= share < (b + 1) * shown,
    ensures
        a == b,
{
    assert(a == b) by (nonlinear_arith)
        requires
            0 < shown,
            a * shown <= share < (a + 1) * shown,
            b * shown <= share < (b + 1) * shown,
    ;
}

// ---------------------------------------------------------------------------
// What reaches the host.
// ---------------------------------------------------------------------------

/// The mouse goes where the user moves it: a move to a place inside the host's screen
/// sends this place, the column first and the row second. From outside, the mouse goes
/// to the closest column and to the closest row, each for itself.
pub proof fn law_mouse_goes_where_it_is_moved(
    host: (u32, u32),
    window: (u32, u32),
    x: i32,
    y: i32,
)
    requires
        0 < host.0 <= i32::MAX,
        0 < host.1 <= i32::MAX,
        window.0 > 0,
        window.1 > 0,
    ensures
        0 <= x < host.0 && 0 <= y < host.1 ==> reaction(
            Some(host),
            WindowEvent::CursorMoved { window, x, y },
        ) == ViewerAction::Send(InputToken::MoveMouse(x, y)),
        ({
            &&& reaction(Some(host), WindowEvent::CursorMoved { window, x, y }) matches
                ViewerAction::Send(InputToken::MoveMouse(column, row))
            &&& 0 <= column < host.0
            &&& 0 <= row < host.1
            &&& 0 <= x < host.0 ==> column == x
            &&& 0 <= y < host.1 ==> row == y
            &&& x < 0 ==> column == 0
            &&& y < 0 ==> row == 0
            &&& x >= host.0 ==> column == host.0 - 1
            &&& y >= host.1 ==> row == host.1 - 1
        }),
{
}

/// A move over a window without an area, or before the host is known, sends nothing.
pub proof fn law_mouse_needs_an_area(
    host_size: Option<(u32, u32)>,
    window: (u32, u32),
    x: i32,
    y: i32,
)
    requires
        host_size is None || window.0 == 0 || window.1 == 0,
    ensures
        reaction(host_size, WindowEvent::CursorMoved { window, x, y }) == ViewerAction::Nothing,
{
}

/// A button of the mouse is pressed on the host when it is pressed in the window, and
/// let go when it is let go: the same one of the five that the host has. Any other one
/// sends nothing.
pub proof fn law_buttons_act_as_in_the_window(
    host: (u32, u32),
    pressed: bool,
    button: MouseButton,
)
    ensures
        reaction(Some(host), WindowEvent::MouseInput { pressed, button }) == match button {
            MouseButton::Other => ViewerAction::Nothing,
            _ => ViewerAction::Send(
                InputToken::Button(
                    match button {
                        MouseButton::Left => Button::Left,
                        MouseButton::Right => Button::Right,
                        MouseButton::Middle => Button::Middle,
                        MouseButton::Back => Button::Back,
                        _ => Button::Forward,
                    },
                    if pressed {
                        Direction::Press
                    } else {
                        Direction::Release
                    },
                ),
            ),
        },
{
}

/// The wheel turns on the host by as many notches as in the window. Up and down come
/// first, with the opposite sign; left and right count only without them, with their
/// own sign. A turn by nothing sends nothing.
pub proof fn law_wheel_turns_as_far(host: (u32, u32), horizontal: i32, vertical: i32)
    requires
        vertical > i32::MIN,
    ensures
        ({
            let action = reaction(
                Some(host),
                WindowEvent::MouseWheel { horizontal, vertical },
            );
            &&& vertical != 0 ==> {
                &&& action matches ViewerAction::Send(InputToken::Scroll(notches, axis))
                &&& notches + vertical == 0
                &&& axis is Vertical
            }
            &&& vertical == 0 && horizontal != 0 ==> {
                &&& action matches ViewerAction::Send(InputToken::Scroll(notches, axis))
                &&& notches == horizontal
                &&& axis is Horizontal
            }
            &&& vertical == 0 && horizontal == 0 ==> action == ViewerAction::Nothing
        }),
{
}

/// A key acts once, when it is pressed. What it writes is written as it is, whatever its
/// length; a key with a name is clicked, the one of the same meaning. A key that is let
/// go sends nothing, nor does one that means nothing to the host.
pub proof fn law_keys_act_when_pressed(host: (u32, u32), key: LogicalKey, text: String)
    ensures
        reaction(Some(host), WindowEvent::KeyboardInput { pressed: false, key })
            == ViewerAction::Nothing,
        reaction(
            Some(host),
            WindowEvent::KeyboardInput { pressed: true, key: LogicalKey::Character(text) },
        ) == ViewerAction::Send(InputToken::Text(text)),
        reaction(
            Some(host),
            WindowEvent::KeyboardInput { pressed: true, key: LogicalKey::Other },
        ) == ViewerAction::Nothing,
        key matches LogicalKey::Named(named) ==> reaction(
            Some(host),
            WindowEvent::KeyboardInput { pressed: true, key },
        ) == match named {
            NamedKey::Other => ViewerAction::Nothing,
            _ => ViewerAction::Send(
                InputToken::Key(
                    match named {
                        NamedKey::Enter => Key::Return,
                        NamedKey::Backspace => Key::Backspace,
                        NamedKey::Tab => Key::Tab,
                        NamedKey::Escape => Key::Escape,
                        NamedKey::Space => Key::Space,
                        NamedKey::Delete => Key::Delete,
                        NamedKey::ArrowUp => Key::UpArrow,
                        NamedKey::ArrowDown => Key::DownArrow,
                        NamedKey::ArrowLeft => Key::LeftArrow,
                        NamedKey::ArrowRight => Key::RightArrow,
                        NamedKey::Home => Key::Home,
                        NamedKey::End => Key::End,
                        NamedKey::PageUp => Key::PageUp,
                        _ => Key::PageDown,
                    },
                    Direction::Click,
                ),
            ),
        },
{
}

/// What happens to the window itself never reaches the host: closing it ends the viewer
/// without a reason to tell, a new size has it drawn again, and a request to draw it
/// draws it. Anything else does nothing.
pub proof fn law_window_is_kept_by_the_viewer(host_size: Option<(u32, u32)>)
    ensures
        reaction(host_size, WindowEvent::CloseRequested) == ViewerAction::Exit(None),
        reaction(host_size, WindowEvent::Resized) == ViewerAction::Redraw,
        reaction(host_size, WindowEvent::RedrawRequested) == ViewerAction::Render,
        reaction(host_size, WindowEvent::Other) == ViewerAction::Nothing,
{
}

/// Before the host is known, input does nothing at all.
pub proof fn law_input_waits_for_the_host(
    pressed: bool,
    button: MouseButton,
    horizontal: i32,
    vertical: i32,
    key: LogicalKey,
)
    ensures
        reaction(None, WindowEvent::MouseInput { pressed, button }) == ViewerAction::Nothing,
        reaction(None, WindowEvent::MouseWheel { horizontal, vertical }) == ViewerAction::Nothing,
        reaction(None, WindowEvent::KeyboardInput { pressed, key }) == ViewerAction::Nothing,
{
}

/// What an input means, a known host is sent, and nothing else; what means nothing is
/// not sent.
pub proof fn law_input_is_sent_as_it_is_mapped(
    host: (u32, u32),
    window: (u32, u32),
    x: i32,
    y: i32,
    pressed: bool,
    button: MouseButton,
    horizontal: i32,
    vertical: i32,
    key: LogicalKey,
)
    ensures
        match cursor_token(Some(host), window, x, y) {
            Some(token) => reaction(Some(host), WindowEvent::CursorMoved { window, x, y })
                == ViewerAction::Send(token),
            None => reaction(Some(host), WindowEvent::CursorMoved { window, x, y })
                == ViewerAction::Nothing,
        },
        match button_token(pressed, button) {
            Some(token) => reaction(Some(host), WindowEvent::MouseInput { pressed, button })
                == ViewerAction::Send(token),
            None => reaction(Some(host), WindowEvent::MouseInput { pressed, button })
                == ViewerAction::Nothing,
        },
        match scroll_token(horizontal, vertical) {
            Some(token) => reaction(Some(host), WindowEvent::MouseWheel { horizontal, vertical })
                == ViewerAction::Send(token),
            None => reaction(Some(host), WindowEvent::MouseWheel { horizontal, vertical })
                == ViewerAction::Nothing,
        },
        match key_token(pressed, key) {
            Some(token) => reaction(Some(host), WindowEvent::KeyboardInput { pressed, key })
                == ViewerAction::Send(token),
            None => reaction(Some(host), WindowEvent::KeyboardInput { pressed, key })
                == ViewerAction::Nothing,
        },
{
}

} // verus!
