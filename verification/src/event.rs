//! The frame event loop's decision core. Window-system and session events
//! are buffered during a poll phase; when the event source runs dry the
//! buffered events are dispatched in arrival order, and the tick ends by
//! deciding which resize signals to send and whether a render hand-off is
//! warranted.
//!
//! Events are a closed tagged-variant set. What each event does to the
//! processor's state is decided here; the outward work it causes (window
//! calls, pty writes, input dispatch) is returned as a list of actions for
//! the embedding loop to perform.

use vstd::prelude::*;
use crate::term::{SizeInfo, WindowSize, DPR_MILLI_MAX};
use crate::display::{Resize, clamp_dpr_spec};
use crate::ui_config::{FontSize, UIConfig};

verus! {

/// Font size change interval, in half points (one step is half a point).
pub const FONT_SIZE_STEP: u32 = 1;

/// Keyboard modifier state.
#[derive(Clone, Copy, Debug, PartialEq, Eq, Structural)]
pub struct ModifiersState {
    pub shift: bool,
    pub ctrl: bool,
    pub alt: bool,
    pub logo: bool,
}

/// Whether a button or key is pressed or released.
#[derive(Clone, Copy, Debug, PartialEq, Eq, Structural)]
pub enum ElementState {
    Pressed,
    Released,
}

/// A mouse button.
#[derive(Clone, Copy, Debug, PartialEq, Eq, Structural)]
pub enum MouseButton {
    Left,
    Middle,
    Right,
    Other(u8),
}

/// Which half of a cell the pointer rests on.
#[derive(Clone, Copy, Debug, PartialEq, Eq, Structural)]
pub enum Side {
    Left,
    Right,
}

/// Click classification of the most recent press.
#[derive(Clone, Copy, Debug, PartialEq, Eq, Structural)]
pub enum ClickState {
    NoClick,
    Click,
    DoubleClick,
    TripleClick,
}

/// One key event as the window system reports it.
#[derive(Clone, Copy, Debug, PartialEq, Eq, Structural)]
pub struct KeyInput {
    pub pressed: bool,
    pub scancode: u32,
    pub modifiers: ModifiersState,
}

/// A scroll amount: whole lines in thousandths, or raw pixels.
#[derive(Clone, Copy, Debug, PartialEq, Eq, Structural)]
pub enum ScrollDelta {
    LineDelta { x_milli: i32, y_milli: i32 },
    PixelDelta { x: i64, y: i64 },
}

/// The phase of a touchpad scroll gesture.
#[derive(Clone, Copy, Debug, PartialEq, Eq, Structural)]
pub enum TouchPhase {
    Started,
    Moved,
    Ended,
    Cancelled,
}

/// State of the mouse.
#[derive(Clone, Copy, Debug, PartialEq, Eq, Structural)]
pub struct Mouse {
    pub x: usize,
    pub y: usize,
    pub left_button_state: ElementState,
    pub middle_button_state: ElementState,
    pub right_button_state: ElementState,
    /// Milliseconds on the session clock when the last click happened.
    pub last_click_msec: u64,
    pub click_state: ClickState,
    pub scroll_px: i32,
    pub line: usize,
    pub column: usize,
    pub cell_side: Side,
    /// Accumulated scroll, in thousandths of a line.
    pub lines_scrolled_milli: i32,
    pub block_url_launcher: bool,
    pub last_button: MouseButton,
}

/// The mouse state before any input arrives.
pub open spec fn default_mouse() -> Mouse {
    Mouse {
        x: 0,
        y: 0,
        last_click_msec: 0,
        left_button_state: ElementState::Released,
        middle_button_state: ElementState::Released,
        right_button_state: ElementState::Released,
        click_state: ClickState::NoClick,
        scroll_px: 0,
        line: 0,
        column: 0,
        cell_side: Side::Left,
        lines_scrolled_milli: 0,
        block_url_launcher: false,
        last_button: MouseButton::Other(0),
    }
}

impl Default for Mouse {
    fn default() -> (r: Mouse)
        ensures
            r == default_mouse(),
    {
        Mouse {
            x: 0,
            y: 0,
            last_click_msec: 0,
            left_button_state: ElementState::Released,
            middle_button_state: ElementState::Released,
            right_button_state: ElementState::Released,
            click_state: ClickState::NoClick,
            scroll_px: 0,
            line: 0,
            column: 0,
            cell_side: Side::Left,
            lines_scrolled_milli: 0,
            block_url_launcher: false,
            last_button: MouseButton::Other(0),
        }
    }
}

/// An event the session itself raises.
#[derive(Debug, PartialEq)]
pub enum TermEvent {
    CursorIcon(u32),
    Title(String),
    Wakeup,
    Urgent,
    RedrawRequest,
    Resize(SizeInfo),
    ConfigReload(String),
    Exit,
}

/// An event the window system raises.
#[derive(Debug, PartialEq)]
pub enum WindowEvt {
    CloseRequested,
    /// A new logical window size; conversion to device pixels happens here.
    Resized(WindowSize),
    KeyboardInput(KeyInput),
    ReceivedCharacter(char),
    MouseInput { state: ElementState, button: MouseButton, modifiers: ModifiersState },
    /// A pointer position in logical coordinates.
    CursorMoved { x: i64, y: i64, modifiers: ModifiersState },
    MouseWheel { delta: ScrollDelta, phase: TouchPhase, modifiers: ModifiersState },
    Focused(bool),
    DroppedFile(String),
    /// A new device pixel ratio, in thousandths.
    HiDpiFactorChanged(u32),
    RedrawRequested,
    TouchpadPressure,
    CursorEntered,
    CursorLeft,
    AxisMotion,
    HoveredFileCancelled,
    Destroyed,
    HoveredFile(String),
    Touch,
    Moved,
}

/// Everything the embedding loop hands in, as one closed variant set.
#[derive(Debug, PartialEq)]
pub enum LoopEvent {
    User(TermEvent),
    Window(WindowEvt),
    Device,
    Suspended,
    NewEvents,
    EventsCleared,
    LoopDestroyed,
}

/// Events carrying a geometry must carry a well-formed one: the only such
/// payload is the resize-complete broadcast, which the coordinator produced.
pub open spec fn event_wf(e: LoopEvent) -> bool {
    match e {
        LoopEvent::User(TermEvent::Resize(s)) => s.wf(),
        _ => true,
    }
}

/// The outward work an event causes; performed by the embedding loop, in
/// order, after the event's state changes are applied.
#[derive(Debug, PartialEq)]
pub enum Action {
    SetMouseCursor(u32),
    SetTitle(String),
    SetUrgent(bool),
    TerminalResize(SizeInfo),
    UpdateImePosition,
    RemoveConfigTopic,
    ReloadConfig(String),
    DumpGridState,
    ExitTerminal,
    SendResize(Resize),
    ProcessKey(KeyInput),
    ProcessChar(char),
    MouseInputChanged { state: ElementState, button: MouseButton, modifiers: ModifiersState },
    MouseMoved { x: usize, y: usize, modifiers: ModifiersState },
    MouseWheelChanged { delta: ScrollDelta, phase: TouchPhase, modifiers: ModifiersState },
    FocusChanged(bool),
    ResetUrlHighlight,
    WriteToPty(String),
    SetMouseVisible(bool),
}

/// A logical dimension scaled to device pixels by the ratio, saturating.
pub open spec fn scale_dim_spec(dim: u32, dpr_milli: u32) -> u32 {
    let scaled = (dim as int) * (dpr_milli as int) / 1000;
    if scaled <= u32::MAX {
        scaled as u32
    } else {
        u32::MAX
    }
}

/// A logical window size in device pixels.
pub open spec fn to_physical_spec(size: WindowSize, dpr_milli: u32) -> WindowSize {
    WindowSize {
        width: scale_dim_spec(size.width, dpr_milli),
        height: scale_dim_spec(size.height, dpr_milli),
    }
}

/// A logical pointer coordinate scaled to device pixels and limited to the
/// viewport: negative positions clamp to zero, positions past `hi` to `hi`.
pub open spec fn clamp_scale_spec(v: i64, dpr_milli: u32, hi: u32) -> int {
    if v <= 0 {
        0
    } else {
        let scaled = (v as int) * (dpr_milli as int) / 1000;
        if scaled > hi {
            hi as int
        } else {
            scaled
        }
    }
}

fn scale_dim(dim: u32, dpr_milli: u32) -> (r: u32)
    requires
        dpr_milli <= DPR_MILLI_MAX,
    ensures
        r == scale_dim_spec(dim, dpr_milli),
{
    proof {
        assert((dim as int) * (dpr_milli as int) <= (u32::MAX as int) * (DPR_MILLI_MAX as int))
            by (nonlinear_arith)
            requires dim <= u32::MAX && dpr_milli <= DPR_MILLI_MAX;
    }
    let scaled = (dim as u64) * (dpr_milli as u64) / 1000;
    if scaled <= u32::MAX as u64 {
        scaled as u32
    } else {
        u32::MAX
    }
}

fn clamp_scale(v: i64, dpr_milli: u32, hi: u32) -> (r: usize)
    requires
        dpr_milli <= DPR_MILLI_MAX,
    ensures
        r == clamp_scale_spec(v, dpr_milli, hi),
{
    if v <= 0 {
        0
    } else {
        proof {
            assert((v as int) * (dpr_milli as int) <= (i64::MAX as int) * (DPR_MILLI_MAX as int))
                by (nonlinear_arith)
                requires 0 < v <= i64::MAX && dpr_milli <= DPR_MILLI_MAX;
            assert(0 <= (v as int) * (dpr_milli as int)) by (nonlinear_arith)
                requires 0 < v && 0 <= dpr_milli;
        }
        let scaled = (v as u128) * (dpr_milli as u128) / 1000;
        if scaled > hi as u128 {
            hi as usize
        } else {
            scaled as usize
        }
    }
}

/// The state that event dispatch reads and writes. The terminal itself and
/// the window are outside collaborators; the dirty and exit flags here are
/// the authoritative copies the loop acts on.
#[derive(Clone, Copy, Debug, PartialEq, Eq, Structural)]
pub struct EventCtx {
    pub mouse: Mouse,
    pub size_info: SizeInfo,
    pub received_count: usize,
    pub suppress_chars: bool,
    pub last_modifiers: ModifiersState,
    pub font_size: FontSize,
    pub original_font_size: FontSize,
    pub is_focused: bool,
    pub terminal_dirty: bool,
    pub terminal_exit: bool,
    pub redraw_requested: bool,
    pub config: UIConfig,
    /// Whether mouse input requires window focus on this platform.
    pub mouse_needs_focus: bool,
}

impl EventCtx {
    pub open spec fn wf(self) -> bool {
        self.size_info.wf()
    }

    /// Steps the font size by a half-point delta, floored at the smallest
    /// step and saturating at the largest representable size; the terminal
    /// is marked dirty so the change becomes visible.
    pub fn change_font_size(&mut self, delta_half_points: i32)
        ensures
            *final(self) == (EventCtx {
                font_size: FontSize {
                    half_points: change_font_size_spec(
                        old(self).font_size.half_points,
                        delta_half_points,
                    ),
                },
                terminal_dirty: true,
                ..*old(self)
            }),
    {
        let v: i64 = self.font_size.half_points as i64 + delta_half_points as i64;
        let stepped: u32 = if v < FONT_SIZE_STEP as i64 {
            FONT_SIZE_STEP
        } else if v > u32::MAX as i64 {
            u32::MAX
        } else {
            v as u32
        };
        self.font_size = FontSize { half_points: stepped };
        self.terminal_dirty = true;
    }

    /// Installs a freshly reloaded configuration, once the embedding loop
    /// has read and parsed it; the terminal is marked dirty so the change
    /// becomes visible. A failed reload installs nothing.
    pub fn apply_config_reload(&mut self, config: &UIConfig)
        ensures
            *final(self) == (EventCtx {
                config: *config,
                terminal_dirty: true,
                ..*old(self)
            }),
    {
        self.config = *config;
        self.terminal_dirty = true;
    }

    /// Restores the configured font size; the terminal is marked dirty.
    pub fn reset_font_size(&mut self)
        ensures
            *final(self) == (EventCtx {
                font_size: old(self).original_font_size,
                terminal_dirty: true,
                ..*old(self)
            }),
    {
        self.font_size = self.original_font_size;
        self.terminal_dirty = true;
    }
}

/// The font size after a step: floored at the smallest step, saturating.
pub open spec fn change_font_size_spec(cur: u32, delta: i32) -> u32 {
    let v = cur + delta;
    if v < FONT_SIZE_STEP {
        FONT_SIZE_STEP
    } else if v > u32::MAX {
        u32::MAX
    } else {
        v as u32
    }
}

/// The state after one event is dispatched.
pub open spec fn handle_event_state(s: EventCtx, event: LoopEvent) -> EventCtx {
    match event {
        LoopEvent::User(user) => match user {
            TermEvent::Wakeup => EventCtx { terminal_dirty: true, ..s },
            TermEvent::RedrawRequest => EventCtx { redraw_requested: true, ..s },
            TermEvent::Resize(size) => EventCtx { size_info: size, terminal_dirty: true, ..s },
            _ => s,
        },
        LoopEvent::Window(win) => match win {
            WindowEvt::CloseRequested => EventCtx { terminal_exit: true, ..s },
            WindowEvt::Resized(_) => EventCtx { terminal_dirty: true, ..s },
            WindowEvt::MouseInput { .. } => {
                if !s.mouse_needs_focus || s.is_focused {
                    EventCtx { terminal_dirty: true, ..s }
                } else {
                    s
                }
            },
            WindowEvt::CursorMoved { x, y, .. } => EventCtx {
                mouse: Mouse {
                    x: clamp_scale_spec(x, s.size_info.dpr_milli, s.size_info.width) as usize,
                    y: clamp_scale_spec(y, s.size_info.dpr_milli, s.size_info.height) as usize,
                    ..s.mouse
                },
                ..s
            },
            WindowEvt::Focused(focused) => EventCtx {
                is_focused: focused,
                terminal_dirty: true,
                ..s
            },
            WindowEvt::HiDpiFactorChanged(dpr) => EventCtx {
                size_info: SizeInfo { dpr_milli: clamp_dpr_spec(dpr), ..s.size_info },
                terminal_dirty: true,
                ..s
            },
            WindowEvt::RedrawRequested => EventCtx { terminal_dirty: true, ..s },
            _ => s,
        },
        _ => s,
    }
}

/// The actions one event causes, in the order they must be performed.
pub open spec fn handle_event_actions(s: EventCtx, event: LoopEvent) -> Seq<Action> {
    match event {
        LoopEvent::User(user) => match user {
            TermEvent::CursorIcon(icon) => seq![Action::SetMouseCursor(icon)],
            TermEvent::Title(title) => seq![Action::SetTitle(title)],
            TermEvent::Wakeup => Seq::empty(),
            TermEvent::Urgent => seq![Action::SetUrgent(!s.is_focused)],
            TermEvent::RedrawRequest => Seq::empty(),
            TermEvent::Resize(size) => seq![
                Action::TerminalResize(size),
                Action::UpdateImePosition,
            ],
            TermEvent::ConfigReload(path) => seq![
                Action::RemoveConfigTopic,
                Action::ReloadConfig(path),
            ],
            TermEvent::Exit => Seq::empty(),
        },
        LoopEvent::Window(win) => match win {
            WindowEvt::CloseRequested => {
                if s.config.debug.ref_test {
                    seq![Action::DumpGridState, Action::ExitTerminal]
                } else {
                    seq![Action::ExitTerminal]
                }
            },
            WindowEvt::Resized(lsize) => seq![
                Action::SendResize(Resize::Size(to_physical_spec(lsize, s.size_info.dpr_milli))),
            ],
            WindowEvt::KeyboardInput(input) => {
                if input.pressed && s.config.mouse.hide_when_typing {
                    seq![Action::ProcessKey(input), Action::SetMouseVisible(false)]
                } else {
                    seq![Action::ProcessKey(input)]
                }
            },
            WindowEvt::ReceivedCharacter(c) => seq![Action::ProcessChar(c)],
            WindowEvt::MouseInput { state, button, modifiers } => {
                if !s.mouse_needs_focus || s.is_focused {
                    seq![
                        Action::SetMouseVisible(true),
                        Action::MouseInputChanged { state, button, modifiers },
                    ]
                } else {
                    Seq::empty()
                }
            },
            WindowEvt::CursorMoved { x, y, modifiers } => seq![
                Action::SetMouseVisible(true),
                Action::MouseMoved {
                    x: clamp_scale_spec(x, s.size_info.dpr_milli, s.size_info.width) as usize,
                    y: clamp_scale_spec(y, s.size_info.dpr_milli, s.size_info.height) as usize,
                    modifiers,
                },
            ],
            WindowEvt::MouseWheel { delta, phase, modifiers } => seq![
                Action::SetMouseVisible(true),
                Action::MouseWheelChanged { delta, phase, modifiers },
            ],
            WindowEvt::Focused(focused) => {
                if focused {
                    seq![Action::SetUrgent(false), Action::FocusChanged(true)]
                } else {
                    seq![
                        Action::ResetUrlHighlight,
                        Action::SetMouseVisible(true),
                        Action::FocusChanged(false),
                    ]
                }
            },
            WindowEvt::DroppedFile(path) => seq![Action::WriteToPty(path)],
            WindowEvt::HiDpiFactorChanged(dpr) => seq![
                Action::SendResize(Resize::DPR(dpr)),
            ],
            WindowEvt::RedrawRequested => Seq::empty(),
            _ => Seq::empty(),
        },
        _ => Seq::empty(),
    }
}

/// What the poll phase does with one incoming event.
#[derive(Clone, Copy, Debug, PartialEq, Eq, Structural)]
pub enum PollStep {
    /// The session must end: an exit event arrived or the process is done.
    Exit,
    /// The source ran dry: dispatch the buffer now.
    Drain,
    /// Buffered for the drain phase.
    Buffered,
    /// Provably irrelevant; dropped without buffering.
    Discarded,
}

/// Whether an event is irrelevant to this core and is dropped unbuffered.
pub open spec fn skip_event_spec(event: LoopEvent) -> bool {
    match event {
        LoopEvent::User(TermEvent::Exit) => true,
        LoopEvent::Window(win) => match win {
            WindowEvt::TouchpadPressure => true,
            WindowEvt::CursorEntered => true,
            WindowEvt::CursorLeft => true,
            WindowEvt::AxisMotion => true,
            WindowEvt::HoveredFileCancelled => true,
            WindowEvt::Destroyed => true,
            WindowEvt::HoveredFile(_) => true,
            WindowEvt::Touch => true,
            WindowEvt::Moved => true,
            _ => false,
        },
        LoopEvent::Device => true,
        LoopEvent::Suspended => true,
        LoopEvent::NewEvents => true,
        LoopEvent::EventsCleared => true,
        LoopEvent::LoopDestroyed => true,
        _ => false,
    }
}

/// The poll phase's decision for one event: exit takes precedence over all
/// buffered events, the dry signal triggers the drain, irrelevant events are
/// dropped, everything else is buffered.
pub open spec fn classify_spec(event: LoopEvent, should_exit: bool) -> PollStep {
    if event == LoopEvent::User(TermEvent::Exit) || should_exit {
        PollStep::Exit
    } else if event == LoopEvent::EventsCleared {
        PollStep::Drain
    } else if skip_event_spec(event) {
        PollStep::Discarded
    } else {
        PollStep::Buffered
    }
}

/// Dispatches a sequence of buffered events in order: the final state and
/// the concatenation of every event's actions.
pub open spec fn dispatch_fold(s: EventCtx, events: Seq<LoopEvent>) -> (EventCtx, Seq<Action>)
    decreases events.len(),
{
    if events.len() == 0 {
        (s, Seq::empty())
    } else {
        let s1 = handle_event_state(s, events[0]);
        let first = handle_event_actions(s, events[0]);
        let rest = dispatch_fold(s1, events.drop_first());
        (rest.0, first + rest.1)
    }
}

/// What the end of a drain phase decides.
#[derive(Clone, Copy, Debug, PartialEq, Eq, Structural)]
pub struct TickEnd {
    /// Send this when the font size changed during the drain.
    pub font_signal: Option<Resize>,
    /// Send this when the message bar's line count changed.
    pub msg_signal: Option<Resize>,
    /// Hand a render update to the drawing side this tick.
    pub render: bool,
}

/// The event processor: buffers events during the poll phase and dispatches
/// them, with the tick bookkeeping, during the drain phase.
pub struct Processor {
    pub ctx: EventCtx,
    pub queue: Vec<LoopEvent>,
    /// Font size when the current drain began, for change detection.
    pub baseline_font_size: FontSize,
    /// Message-bar line count when the current drain began.
    pub baseline_msg_lines: usize,
}

impl Processor {
    pub open spec fn wf(self) -> bool {
        &&& self.ctx.wf()
        &&& forall|i: int| 0 <= i < self.queue@.len() ==> event_wf(#[trigger] self.queue@[i])
    }

    /// Create a new event processor for a configuration and initial
    /// geometry. `mouse_needs_focus` says whether this platform delivers
    /// mouse input only to a focused window.
    pub fn new(config: &UIConfig, size_info: SizeInfo, mouse_needs_focus: bool) -> (r: Processor)
        requires
            size_info.wf(),
        ensures
            r.wf(),
            r.ctx == (EventCtx {
                mouse: default_mouse(),
                size_info,
                received_count: 0,
                suppress_chars: false,
                last_modifiers: ModifiersState { shift: false, ctrl: false, alt: false, logo: false },
                font_size: config.font.size,
                original_font_size: config.font.size,
                is_focused: true,
                terminal_dirty: false,
                terminal_exit: false,
                redraw_requested: false,
                config: *config,
                mouse_needs_focus,
            }),
            r.queue@.len() == 0,
            r.baseline_font_size == config.font.size,
            r.baseline_msg_lines == 0,
    {
        Processor {
            ctx: EventCtx {
                mouse: Mouse::default(),
                size_info,
                received_count: 0,
                suppress_chars: false,
                last_modifiers: ModifiersState { shift: false, ctrl: false, alt: false, logo: false },
                font_size: config.font.size,
                original_font_size: config.font.size,
                is_focused: true,
                terminal_dirty: false,
                terminal_exit: false,
                redraw_requested: false,
                config: *config,
                mouse_needs_focus,
            },
            queue: Vec::new(),
            baseline_font_size: config.font.size,
            baseline_msg_lines: 0,
        }
    }

    /// Check if an event is irrelevant and can be skipped.
    pub fn skip_event(event: &LoopEvent) -> (r: bool)
        ensures
            r == skip_event_spec(*event),
    {
        match event {
            LoopEvent::User(TermEvent::Exit) => true,
            LoopEvent::Window(win) => match win {
                WindowEvt::TouchpadPressure => true,
                WindowEvt::CursorEntered => true,
                WindowEvt::CursorLeft => true,
                WindowEvt::AxisMotion => true,
                WindowEvt::HoveredFileCancelled => true,
                WindowEvt::Destroyed => true,
                WindowEvt::HoveredFile(_) => true,
                WindowEvt::Touch => true,
                WindowEvt::Moved => true,
                _ => false,
            },
            LoopEvent::Device => true,
            LoopEvent::Suspended => true,
            LoopEvent::NewEvents => true,
            LoopEvent::EventsCleared => true,
            LoopEvent::LoopDestroyed => true,
            _ => false,
        }
    }

    /// The poll phase: classifies one incoming event and buffers it when it
    /// is relevant. Nothing is dispatched until the drain.
    pub fn poll_event(&mut self, event: LoopEvent, should_exit: bool) -> (r: PollStep)
        requires
            old(self).wf(),
            event_wf(event),
        ensures
            final(self).wf(),
            r == classify_spec(event, should_exit),
            r == PollStep::Buffered ==> final(self).queue@ =~= old(self).queue@.push(event),
            r != PollStep::Buffered ==> final(self).queue@ == old(self).queue@,
            final(self).ctx == old(self).ctx,
            final(self).baseline_font_size == old(self).baseline_font_size,
            final(self).baseline_msg_lines == old(self).baseline_msg_lines,
    {
        let is_exit = matches!(event, LoopEvent::User(TermEvent::Exit));
        if is_exit || should_exit {
            PollStep::Exit
        } else if matches!(event, LoopEvent::EventsCleared) {
            PollStep::Drain
        } else if Self::skip_event(&event) {
            PollStep::Discarded
        } else {
            self.queue.push(event);
            PollStep::Buffered
        }
    }

    /// Marks the start of a drain phase: the current font size and the
    /// message bar's current line count become the baselines that the end of
    /// the tick diffs against.
    pub fn begin_drain(&mut self, msg_lines: usize)
        requires
            old(self).wf(),
        ensures
            final(self).wf(),
            final(self).ctx == old(self).ctx,
            final(self).queue@ == old(self).queue@,
            final(self).baseline_font_size == old(self).ctx.font_size,
            final(self).baseline_msg_lines == msg_lines,
    {
        self.baseline_font_size = self.ctx.font_size;
        self.baseline_msg_lines = msg_lines;
    }

    /// Handle one event: applies its state changes and returns the outward
    /// work it causes, in order.
    #[verifier::rlimit(60)]
    #[verifier::spinoff_prover]
    pub fn handle_event(ctx: &mut EventCtx, event: LoopEvent) -> (r: Vec<Action>)
        requires
            old(ctx).wf(),
            event_wf(event),
        ensures
            final(ctx).wf(),
            *final(ctx) == handle_event_state(*old(ctx), event),
            r@ =~= handle_event_actions(*old(ctx), event),
    {
        match event {
            LoopEvent::User(user) => match user {
                TermEvent::CursorIcon(icon) => vec![Action::SetMouseCursor(icon)],
                TermEvent::Title(title) => vec![Action::SetTitle(title)],
                TermEvent::Wakeup => {
                    ctx.terminal_dirty = true;
                    Vec::new()
                },
                TermEvent::Urgent => vec![Action::SetUrgent(!ctx.is_focused)],
                TermEvent::RedrawRequest => {
                    ctx.redraw_requested = true;
                    Vec::new()
                },
                TermEvent::Resize(size) => {
                    ctx.size_info = size;
                    ctx.terminal_dirty = true;
                    vec![Action::TerminalResize(size), Action::UpdateImePosition]
                },
                TermEvent::ConfigReload(path) => {
                    vec![Action::RemoveConfigTopic, Action::ReloadConfig(path)]
                },
                TermEvent::Exit => Vec::new(),
            },
            LoopEvent::Window(win) => match win {
                WindowEvt::CloseRequested => {
                    ctx.terminal_exit = true;
                    if ctx.config.debug.ref_test {
                        vec![Action::DumpGridState, Action::ExitTerminal]
                    } else {
                        vec![Action::ExitTerminal]
                    }
                },
                WindowEvt::Resized(lsize) => {
                    ctx.terminal_dirty = true;
                    let physical = WindowSize {
                        width: scale_dim(lsize.width, ctx.size_info.dpr_milli),
                        height: scale_dim(lsize.height, ctx.size_info.dpr_milli),
                    };
                    vec![Action::SendResize(Resize::Size(physical))]
                },
                WindowEvt::KeyboardInput(input) => {
                    if input.pressed && ctx.config.mouse.hide_when_typing {
                        vec![Action::ProcessKey(input), Action::SetMouseVisible(false)]
                    } else {
                        vec![Action::ProcessKey(input)]
                    }
                },
                WindowEvt::ReceivedCharacter(c) => vec![Action::ProcessChar(c)],
                WindowEvt::MouseInput { state, button, modifiers } => {
                    if !ctx.mouse_needs_focus || ctx.is_focused {
                        ctx.terminal_dirty = true;
                        vec![
                            Action::SetMouseVisible(true),
                            Action::MouseInputChanged { state, button, modifiers },
                        ]
                    } else {
                        Vec::new()
                    }
                },
                WindowEvt::CursorMoved { x, y, modifiers } => {
                    let px = clamp_scale(x, ctx.size_info.dpr_milli, ctx.size_info.width);
                    let py = clamp_scale(y, ctx.size_info.dpr_milli, ctx.size_info.height);
                    ctx.mouse.x = px;
                    ctx.mouse.y = py;
                    vec![
                        Action::SetMouseVisible(true),
                        Action::MouseMoved { x: px, y: py, modifiers },
                    ]
                },
                WindowEvt::MouseWheel { delta, phase, modifiers } => {
                    vec![
                        Action::SetMouseVisible(true),
                        Action::MouseWheelChanged { delta, phase, modifiers },
                    ]
                },
                WindowEvt::Focused(focused) => {
                    ctx.is_focused = focused;
                    ctx.terminal_dirty = true;
                    if focused {
                        vec![Action::SetUrgent(false), Action::FocusChanged(true)]
                    } else {
                        vec![
                            Action::ResetUrlHighlight,
                            Action::SetMouseVisible(true),
                            Action::FocusChanged(false),
                        ]
                    }
                },
                WindowEvt::DroppedFile(path) => vec![Action::WriteToPty(path)],
                WindowEvt::HiDpiFactorChanged(dpr) => {
                    let clamped = if dpr == 0 {
                        1
                    } else if dpr > DPR_MILLI_MAX {
                        DPR_MILLI_MAX
                    } else {
                        dpr
                    };
                    ctx.size_info.dpr_milli = clamped;
                    ctx.terminal_dirty = true;
                    vec![Action::SendResize(Resize::DPR(dpr))]
                },
                WindowEvt::RedrawRequested => {
                    ctx.terminal_dirty = true;
                    Vec::new()
                },
                WindowEvt::TouchpadPressure => Vec::new(),
                WindowEvt::CursorEntered => Vec::new(),
                WindowEvt::CursorLeft => Vec::new(),
                WindowEvt::AxisMotion => Vec::new(),
                WindowEvt::HoveredFileCancelled => Vec::new(),
                WindowEvt::Destroyed => Vec::new(),
                WindowEvt::HoveredFile(_) => Vec::new(),
                WindowEvt::Touch => Vec::new(),
                WindowEvt::Moved => Vec::new(),
            },
            LoopEvent::Device => Vec::new(),
            LoopEvent::Suspended => Vec::new(),
            LoopEvent::NewEvents => Vec::new(),
            LoopEvent::EventsCleared => Vec::new(),
            LoopEvent::LoopDestroyed => Vec::new(),
        }
    }

    /// The drain phase: feeds every buffered event in arrival order to the
    /// dispatcher and returns the outward work, in order. The buffer is
    /// empty afterwards.
    pub fn process_events(&mut self) -> (r: Vec<Action>)
        requires
            old(self).wf(),
        ensures
            final(self).wf(),
            final(self).queue@.len() == 0,
            final(self).ctx == dispatch_fold(old(self).ctx, old(self).queue@).0,
            r@ =~= dispatch_fold(old(self).ctx, old(self).queue@).1,
            final(self).baseline_font_size == old(self).baseline_font_size,
            final(self).baseline_msg_lines == old(self).baseline_msg_lines,
    {
        let ghost queue0 = self.queue@;
        let ghost ctx0 = self.ctx;
        let mut actions: Vec<Action> = Vec::new();
        while self.queue.len() > 0
            invariant
                self.wf(),
                dispatch_fold(ctx0, queue0).0 == dispatch_fold(self.ctx, self.queue@).0,
                dispatch_fold(ctx0, queue0).1 =~= actions@ + dispatch_fold(self.ctx, self.queue@).1,
                self.baseline_font_size == old(self).baseline_font_size,
                self.baseline_msg_lines == old(self).baseline_msg_lines,
            decreases self.queue@.len(),
        {
            let ghost pre_queue = self.queue@;
            let ghost pre_ctx = self.ctx;
            let event = self.queue.remove(0);
            proof {
                assert(pre_queue.drop_first() =~= self.queue@);
            }
            let mut step_actions = Self::handle_event(&mut self.ctx, event);
            actions.append(&mut step_actions);
        }
        proof {
            assert(dispatch_fold(self.ctx, self.queue@).1 =~= Seq::<Action>::empty());
        }
        actions
    }

    /// Ends the tick: decides which resize signals must be sent (the font
    /// size or the message bar changed during the drain) and whether a
    /// render update is handed off. A hand-off happens exactly when the
    /// terminal is dirty and a redraw was requested; it clears both flags,
    /// but the dirty flag stays set while an ongoing visual-bell animation
    /// still needs frames.
    pub fn finish_tick(&mut self, new_msg_lines: usize, bell_completed: bool) -> (r: TickEnd)
        requires
            old(self).wf(),
        ensures
            final(self).wf(),
            final(self).queue@ == old(self).queue@,
            r.font_signal == (if old(self).ctx.font_size != old(self).baseline_font_size {
                Some(Resize::FontSize(old(self).ctx.font_size))
            } else {
                Option::<Resize>::None
            }),
            r.msg_signal == (if new_msg_lines != old(self).baseline_msg_lines {
                Some(Resize::MessageBar(new_msg_lines))
            } else {
                Option::<Resize>::None
            }),
            r.render == (old(self).ctx.terminal_dirty && old(self).ctx.redraw_requested),
            final(self).ctx == (EventCtx {
                terminal_dirty: if r.render {
                    !bell_completed
                } else {
                    old(self).ctx.terminal_dirty
                },
                redraw_requested: if r.render {
                    false
                } else {
                    old(self).ctx.redraw_requested
                },
                ..old(self).ctx
            }),
            final(self).baseline_font_size == old(self).baseline_font_size,
            final(self).baseline_msg_lines == old(self).baseline_msg_lines,
    {
        let font_signal = if self.ctx.font_size.half_points != self.baseline_font_size.half_points {
            Some(Resize::FontSize(self.ctx.font_size))
        } else {
            None
        };
        let msg_signal = if new_msg_lines != self.baseline_msg_lines {
            Some(Resize::MessageBar(new_msg_lines))
        } else {
            None
        };
        let render = self.ctx.terminal_dirty && self.ctx.redraw_requested;
        if render {
            self.ctx.terminal_dirty = !bell_completed;
            self.ctx.redraw_requested = false;
        }
        TickEnd { font_signal, msg_signal, render }
    }
}

} // verus!
