use term_display::display::Resize;
use term_display::event::{
    Action, ClickState, ElementState, KeyInput, LoopEvent, ModifiersState, Mouse, MouseButton,
    PollStep, Processor, Side, TermEvent, WindowEvt, FONT_SIZE_STEP,
};
use term_display::term::{SizeInfo, WindowSize};
use term_display::ui_config::{FontSize, UIConfig};

fn size(width: u32, height: u32, dpr_milli: u32) -> SizeInfo {
    SizeInfo {
        width,
        height,
        cell_width: 8,
        cell_height: 16,
        padding_x: 0,
        padding_y: 0,
        dpr_milli,
    }
}

fn no_mods() -> ModifiersState {
    ModifiersState { shift: false, ctrl: false, alt: false, logo: false }
}

fn processor() -> Processor {
    Processor::new(&UIConfig::default(), size(800, 600, 1000), false)
}

#[test]
fn irrelevant_events_are_skipped() {
    assert!(Processor::skip_event(&LoopEvent::User(TermEvent::Exit)));
    assert!(Processor::skip_event(&LoopEvent::Window(WindowEvt::Moved)));
    assert!(Processor::skip_event(&LoopEvent::Window(WindowEvt::Touch)));
    assert!(Processor::skip_event(&LoopEvent::Window(WindowEvt::CursorEntered)));
    assert!(Processor::skip_event(&LoopEvent::Device));
    assert!(Processor::skip_event(&LoopEvent::LoopDestroyed));
    assert!(!Processor::skip_event(&LoopEvent::Window(WindowEvt::CloseRequested)));
    assert!(!Processor::skip_event(&LoopEvent::User(TermEvent::Wakeup)));
}

#[test]
fn exit_takes_precedence_over_buffering() {
    let mut p = processor();
    assert_eq!(p.poll_event(LoopEvent::User(TermEvent::Exit), false), PollStep::Exit);
    assert_eq!(p.poll_event(LoopEvent::User(TermEvent::Wakeup), true), PollStep::Exit);
    assert_eq!(p.queue.len(), 0);
}

#[test]
fn poll_phase_buffers_relevant_events_only() {
    let mut p = processor();
    assert_eq!(p.poll_event(LoopEvent::Window(WindowEvt::Touch), false), PollStep::Discarded);
    assert_eq!(p.queue.len(), 0);
    assert_eq!(p.poll_event(LoopEvent::User(TermEvent::Wakeup), false), PollStep::Buffered);
    assert_eq!(p.queue.len(), 1);
    assert_eq!(p.poll_event(LoopEvent::EventsCleared, false), PollStep::Drain);
    assert_eq!(p.queue.len(), 1);
}

#[test]
fn wakeup_marks_the_terminal_dirty() {
    let mut p = processor();
    let actions = Processor::handle_event(&mut p.ctx, LoopEvent::User(TermEvent::Wakeup));
    assert!(actions.is_empty());
    assert!(p.ctx.terminal_dirty);
}

#[test]
fn redraw_request_sets_the_flag() {
    let mut p = processor();
    let actions = Processor::handle_event(&mut p.ctx, LoopEvent::User(TermEvent::RedrawRequest));
    assert!(actions.is_empty());
    assert!(p.ctx.redraw_requested);
}

#[test]
fn resize_broadcast_updates_the_geometry() {
    let mut p = processor();
    let new_size = size(1024, 768, 1000);
    let actions = Processor::handle_event(&mut p.ctx, LoopEvent::User(TermEvent::Resize(new_size)));
    assert_eq!(
        actions,
        vec![Action::TerminalResize(new_size), Action::UpdateImePosition],
    );
    assert_eq!(p.ctx.size_info, new_size);
    assert!(p.ctx.terminal_dirty);
}

#[test]
fn window_resize_is_converted_and_sent_as_a_signal() {
    let mut p = Processor::new(&UIConfig::default(), size(800, 600, 2000), false);
    let actions = Processor::handle_event(
        &mut p.ctx,
        LoopEvent::Window(WindowEvt::Resized(WindowSize { width: 400, height: 300 })),
    );
    assert_eq!(
        actions,
        vec![Action::SendResize(Resize::Size(WindowSize { width: 800, height: 600 }))],
    );
    assert!(p.ctx.terminal_dirty);
}

#[test]
fn cursor_position_is_scaled_and_limited() {
    let mut p = Processor::new(&UIConfig::default(), size(800, 600, 2000), false);
    let actions = Processor::handle_event(
        &mut p.ctx,
        LoopEvent::Window(WindowEvt::CursorMoved { x: -5, y: 200, modifiers: no_mods() }),
    );
    assert_eq!(
        actions,
        vec![
            Action::SetMouseVisible(true),
            Action::MouseMoved { x: 0, y: 400, modifiers: no_mods() },
        ],
    );
    assert_eq!(p.ctx.mouse.x, 0);
    assert_eq!(p.ctx.mouse.y, 400);

    Processor::handle_event(
        &mut p.ctx,
        LoopEvent::Window(WindowEvt::CursorMoved { x: 500, y: 10, modifiers: no_mods() }),
    );
    // 500 * 2 = 1000 exceeds the width of 800.
    assert_eq!(p.ctx.mouse.x, 800);
    assert_eq!(p.ctx.mouse.y, 20);
}

#[test]
fn ratio_change_updates_state_and_sends_a_signal() {
    let mut p = processor();
    let actions =
        Processor::handle_event(&mut p.ctx, LoopEvent::Window(WindowEvt::HiDpiFactorChanged(1500)));
    assert_eq!(actions, vec![Action::SendResize(Resize::DPR(1500))]);
    assert_eq!(p.ctx.size_info.dpr_milli, 1500);
    assert!(p.ctx.terminal_dirty);
}

#[test]
fn close_request_dumps_state_only_in_ref_test_mode() {
    let mut cfg = UIConfig::default();
    cfg.debug.ref_test = true;
    let mut p = Processor::new(&cfg, size(800, 600, 1000), false);
    let actions = Processor::handle_event(&mut p.ctx, LoopEvent::Window(WindowEvt::CloseRequested));
    assert_eq!(actions, vec![Action::DumpGridState, Action::ExitTerminal]);
    assert!(p.ctx.terminal_exit);

    let mut p = processor();
    let actions = Processor::handle_event(&mut p.ctx, LoopEvent::Window(WindowEvt::CloseRequested));
    assert_eq!(actions, vec![Action::ExitTerminal]);
}

#[test]
fn losing_focus_resets_highlight_and_shows_the_mouse() {
    let mut p = processor();
    let actions = Processor::handle_event(&mut p.ctx, LoopEvent::Window(WindowEvt::Focused(false)));
    assert_eq!(
        actions,
        vec![
            Action::ResetUrlHighlight,
            Action::SetMouseVisible(true),
            Action::FocusChanged(false),
        ],
    );
    assert!(!p.ctx.is_focused);
    assert!(p.ctx.terminal_dirty);
}

#[test]
fn typing_hides_the_mouse_when_configured() {
    let mut cfg = UIConfig::default();
    cfg.mouse.hide_when_typing = true;
    let mut p = Processor::new(&cfg, size(800, 600, 1000), false);
    let input = KeyInput { pressed: true, scancode: 17, modifiers: no_mods() };
    let actions =
        Processor::handle_event(&mut p.ctx, LoopEvent::Window(WindowEvt::KeyboardInput(input)));
    assert_eq!(actions, vec![Action::ProcessKey(input), Action::SetMouseVisible(false)]);
}

#[test]
fn unfocused_mouse_input_is_ignored_where_focus_is_required() {
    let mut p = Processor::new(&UIConfig::default(), size(800, 600, 1000), true);
    p.ctx.is_focused = false;
    let actions = Processor::handle_event(
        &mut p.ctx,
        LoopEvent::Window(WindowEvt::MouseInput {
            state: ElementState::Pressed,
            button: MouseButton::Left,
            modifiers: no_mods(),
        }),
    );
    assert!(actions.is_empty());
    assert!(!p.ctx.terminal_dirty);
}

#[test]
fn drain_phase_dispatches_in_arrival_order() {
    let mut p = processor();
    p.poll_event(LoopEvent::User(TermEvent::Title(String::from("t"))), false);
    p.poll_event(LoopEvent::User(TermEvent::CursorIcon(3)), false);
    p.poll_event(LoopEvent::User(TermEvent::Wakeup), false);
    let actions = p.process_events();
    assert_eq!(
        actions,
        vec![Action::SetTitle(String::from("t")), Action::SetMouseCursor(3)],
    );
    assert_eq!(p.queue.len(), 0);
    assert!(p.ctx.terminal_dirty);
}

#[test]
fn font_size_change_during_drain_sends_one_signal() {
    let mut p = processor();
    p.begin_drain(0);
    p.ctx.change_font_size(2);
    let end = p.finish_tick(0, true);
    assert_eq!(end.font_signal, Some(Resize::FontSize(FontSize { half_points: 24 })));
    assert_eq!(end.msg_signal, None);
    assert!(!end.render);
}

#[test]
fn message_bar_change_during_drain_sends_one_signal() {
    let mut p = processor();
    p.begin_drain(0);
    let end = p.finish_tick(2, true);
    assert_eq!(end.msg_signal, Some(Resize::MessageBar(2)));
    assert_eq!(end.font_signal, None);
}

#[test]
fn render_handoff_requires_dirty_and_requested() {
    let mut p = processor();
    p.begin_drain(0);
    Processor::handle_event(&mut p.ctx, LoopEvent::User(TermEvent::Wakeup));
    let end = p.finish_tick(0, true);
    // Dirty but no redraw requested: no hand-off, the flag stays.
    assert!(!end.render);
    assert!(p.ctx.terminal_dirty);

    Processor::handle_event(&mut p.ctx, LoopEvent::User(TermEvent::RedrawRequest));
    let end = p.finish_tick(0, true);
    assert!(end.render);
    assert!(!p.ctx.terminal_dirty);
    assert!(!p.ctx.redraw_requested);
}

#[test]
fn ongoing_bell_animation_keeps_the_dirty_flag() {
    let mut p = processor();
    p.begin_drain(0);
    Processor::handle_event(&mut p.ctx, LoopEvent::User(TermEvent::Wakeup));
    Processor::handle_event(&mut p.ctx, LoopEvent::User(TermEvent::RedrawRequest));
    let end = p.finish_tick(0, false);
    assert!(end.render);
    assert!(p.ctx.terminal_dirty);
}

#[test]
fn successful_config_reload_is_installed_and_shown() {
    let mut p = processor();
    let actions = Processor::handle_event(
        &mut p.ctx,
        LoopEvent::User(TermEvent::ConfigReload(String::from("/tmp/conf.yml"))),
    );
    assert_eq!(
        actions,
        vec![Action::RemoveConfigTopic, Action::ReloadConfig(String::from("/tmp/conf.yml"))],
    );
    assert!(!p.ctx.terminal_dirty);
    let mut new_cfg = UIConfig::default();
    new_cfg.live_config_reload = false;
    p.ctx.apply_config_reload(&new_cfg);
    assert_eq!(p.ctx.config, new_cfg);
    assert!(p.ctx.terminal_dirty);
}

#[test]
fn font_size_steps_are_floored_at_the_minimum() {
    let mut p = processor();
    p.ctx.change_font_size(-1000);
    assert_eq!(p.ctx.font_size.half_points, FONT_SIZE_STEP);
    p.ctx.change_font_size(5);
    assert_eq!(p.ctx.font_size.half_points, FONT_SIZE_STEP + 5);
    p.ctx.reset_font_size();
    assert_eq!(p.ctx.font_size, p.ctx.original_font_size);
    assert!(p.ctx.terminal_dirty);
}

#[test]
fn mouse_starts_released_and_unclassified() {
    let m = Mouse::default();
    assert_eq!(m.x, 0);
    assert_eq!(m.y, 0);
    assert_eq!(m.left_button_state, ElementState::Released);
    assert_eq!(m.middle_button_state, ElementState::Released);
    assert_eq!(m.right_button_state, ElementState::Released);
    assert_eq!(m.click_state, ClickState::NoClick);
    assert_eq!(m.scroll_px, 0);
    assert_eq!(m.cell_side, Side::Left);
    assert_eq!(m.last_button, MouseButton::Other(0));
    assert!(!m.block_url_launcher);
}

#[test]
fn processor_starts_from_the_configured_font() {
    let mut cfg = UIConfig::default();
    cfg.font.size = FontSize { half_points: 30 };
    let p = Processor::new(&cfg, size(800, 600, 1000), false);
    assert_eq!(p.ctx.font_size.half_points, 30);
    assert_eq!(p.ctx.original_font_size.half_points, 30);
    assert_eq!(p.ctx.received_count, 0);
    assert!(!p.ctx.suppress_chars);
    assert!(p.ctx.is_focused);
    assert_eq!(p.queue.len(), 0);
}
