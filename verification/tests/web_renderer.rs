use amuxd::terminal::TerminalColor;
use amuxd::web::{
    cell_changed, indexed_web_color, mutate_surface, resolve_web_cell_colors, sample_surface, web_color,
    MobileInputState, ModifierLatch, RenderState, TerminalCell, TerminalInputEvent, TerminalKey,
    TerminalNamedKey,
};

fn render(state: &mut RenderState, surface: &amuxd::web::TerminalSurfaceState, epoch: u64) -> amuxd::web::RenderReport {
    let plan = state.plan_frame(surface);
    state.report(&plan, epoch)
}

#[test]
fn render_loop_repaints_diffs_after_initial_frame() {
    let mut renderer = RenderState::new();
    let mut surface = sample_surface(2, 3);

    let first = render(&mut renderer, &surface, 0);
    assert!(first.full_repaint);
    assert_eq!(first.dirty_cells, 6);

    surface.snapshot.lines[0].cells[1].text = "x".to_string();
    let second = render(&mut renderer, &surface, 0);
    assert!(!second.full_repaint);
    assert_eq!(second.dirty_cells, 1);
}

#[test]
fn redrawing_an_unchanged_surface_draws_nothing_until_the_viewport_changes() {
    let mut renderer = RenderState::new();
    let surface = sample_surface(3, 4);
    let first = render(&mut renderer, &surface, 0);
    assert_eq!(first.frame_index, 1);
    assert_eq!(first.dirty_cells, 12);
    assert_eq!(first.draw_operations, 12);

    let again = render(&mut renderer, &surface, 0);
    assert_eq!(again.frame_index, 2);
    assert!(!again.full_repaint);
    assert_eq!(again.dirty_cells, 0);

    renderer.viewport_changed();
    let after_resize = render(&mut renderer, &surface, 1);
    assert!(after_resize.full_repaint);
    assert_eq!(after_resize.dirty_cells, 12);
    assert_eq!(after_resize.layout_epoch, 1);
    assert_eq!(renderer.frame_index(), 3);

    let bigger = sample_surface(4, 4);
    let grown = render(&mut renderer, &bigger, 1);
    assert!(grown.full_repaint);
    assert_eq!(grown.dirty_cells, 16);
}

#[test]
fn plans_list_the_changed_cells_in_order() {
    let mut renderer = RenderState::new();
    let mut surface = sample_surface(2, 2);
    renderer.plan_frame(&surface);
    surface.snapshot.lines[1].cells[0].bold = true;
    surface.snapshot.lines[0].cells[1].foreground = TerminalColor::Indexed(3);
    let plan = renderer.plan_frame(&surface);
    assert!(!plan.full_repaint);
    assert_eq!(plan.cells, vec![(0, 1), (1, 0)]);
}

#[test]
fn cells_without_a_previous_match_are_changed() {
    let surface = sample_surface(1, 2);
    let cell = surface.snapshot.lines[0].cells[0].clone();
    assert!(cell_changed(None, 0, &cell));
    assert!(!cell_changed(Some(&surface.snapshot), 0, &cell));
    assert!(cell_changed(Some(&surface.snapshot), 5, &cell));
    let mut moved = cell.clone();
    moved.column = 9;
    assert!(cell_changed(Some(&surface.snapshot), 0, &moved));
}

#[test]
fn mobile_modifier_mapping_supports_required_key_set() {
    let mut mobile = MobileInputState::default();

    mobile.toggle_modifier(ModifierLatch::Ctrl);
    let ctrl_c = mobile.emit_text("c".to_string());
    assert_eq!(
        ctrl_c,
        TerminalInputEvent::Key {
            key: TerminalKey::Character {
                text: "c".to_string(),
            },
            ctrl: true,
            alt: false,
            shift: false,
        }
    );

    let enter = mobile.emit_named_key(TerminalNamedKey::Enter);
    assert_eq!(
        enter,
        TerminalInputEvent::Key {
            key: TerminalKey::Named {
                key: TerminalNamedKey::Enter,
            },
            ctrl: false,
            alt: false,
            shift: false,
        }
    );
}

#[test]
fn viewport_change_clears_paste_and_composition_state() {
    let mut mobile = MobileInputState::default();
    mobile.toggle_modifier(ModifierLatch::Ctrl);
    mobile.set_selection_anchor(4, 8);
    mobile.start_composition("ime".to_string());
    let paste = mobile.emit_paste("clipboard".to_string());
    assert_eq!(
        paste,
        TerminalInputEvent::Paste {
            text: "clipboard".to_string(),
        }
    );
    assert_eq!(mobile.pending_paste(), Some("clipboard"));

    // The renderer's first viewport change moves its layout to epoch 1.
    mobile.handle_viewport_change(1);

    assert_eq!(mobile.pending_paste(), None);
    assert!(mobile.composition_buffer().is_empty());
    assert!(mobile.latched_modifiers().is_empty());
}

#[test]
fn latches_toggle_and_are_released_by_the_next_key() {
    let mut mobile = MobileInputState::default();
    mobile.toggle_modifier(ModifierLatch::Shift);
    mobile.toggle_modifier(ModifierLatch::Alt);
    assert_eq!(mobile.latched_modifiers(), vec![ModifierLatch::Alt, ModifierLatch::Shift]);
    mobile.toggle_modifier(ModifierLatch::Alt);
    assert_eq!(mobile.latched_modifiers(), vec![ModifierLatch::Shift]);

    let typed = mobile.emit_text("hello".to_string());
    assert_eq!(typed, TerminalInputEvent::Text { text: "hello".to_string() });
    assert!(mobile.latched_modifiers().is_empty());

    mobile.toggle_modifier(ModifierLatch::Ctrl);
    mobile.toggle_modifier(ModifierLatch::Alt);
    let tab = mobile.emit_named_key(TerminalNamedKey::Tab);
    assert_eq!(
        tab,
        TerminalInputEvent::Key {
            key: TerminalKey::Named { key: TerminalNamedKey::Tab },
            ctrl: true,
            alt: true,
            shift: false,
        }
    );

    mobile.toggle_modifier(ModifierLatch::Ctrl);
    let two = mobile.emit_text("ab".to_string());
    assert_eq!(two, TerminalInputEvent::Text { text: "ab".to_string() });
}

#[test]
fn same_layout_keeps_input_state_and_commit_clears_paste() {
    let mut mobile = MobileInputState::default();
    mobile.start_composition("かな".to_string());
    mobile.emit_paste("x".to_string());
    mobile.handle_viewport_change(0);
    assert_eq!(mobile.pending_paste(), Some("x"));
    assert_eq!(mobile.composition_buffer(), "かな");
    mobile.mark_paste_committed();
    assert_eq!(mobile.pending_paste(), None);
}

#[test]
fn default_web_palette_uses_dark_background_and_light_foreground() {
    let cell = TerminalCell {
        column: 0,
        text: "x".to_string(),
        foreground: TerminalColor::Default,
        background: TerminalColor::Default,
        bold: false,
        italic: false,
        underline: false,
        inverse: false,
    };

    let (foreground, background) = resolve_web_cell_colors(&cell);
    assert_eq!(foreground, "#e5e7eb");
    assert_eq!(background, "#282c34");
}

#[test]
fn inverse_web_palette_swaps_foreground_and_background() {
    let cell = TerminalCell {
        column: 0,
        text: "x".to_string(),
        foreground: TerminalColor::Indexed(2),
        background: TerminalColor::Indexed(4),
        bold: false,
        italic: false,
        underline: false,
        inverse: true,
    };

    let (foreground, background) = resolve_web_cell_colors(&cell);
    assert_eq!(foreground, indexed_web_color(4));
    assert_eq!(background, indexed_web_color(2));
}

#[test]
fn inverse_default_colors_swap_roles() {
    let cell = TerminalCell {
        column: 0,
        text: "x".to_string(),
        foreground: TerminalColor::Default,
        background: TerminalColor::Default,
        bold: false,
        italic: false,
        underline: false,
        inverse: true,
    };
    let (foreground, background) = resolve_web_cell_colors(&cell);
    assert_eq!(foreground, "#282c34");
    assert_eq!(background, "#e5e7eb");
}

#[test]
fn palette_entries_and_rgb_colors() {
    assert_eq!(indexed_web_color(0), "#1f2430");
    assert_eq!(indexed_web_color(1), "#ff6b6b");
    assert_eq!(indexed_web_color(15), "#f8fafc");
    assert_eq!(indexed_web_color(200), "#f8fafc");
    assert_eq!(web_color(&TerminalColor::Rgb([0, 128, 255]), false), "rgb(0, 128, 255)");
    assert_eq!(web_color(&TerminalColor::Indexed(7), true), "#dcdfe4");
}

#[test]
fn sample_surfaces_are_blank_grids() {
    let surface = sample_surface(2, 3);
    assert_eq!(surface.snapshot.rows, 2);
    assert_eq!(surface.snapshot.cols, 3);
    assert_eq!(surface.snapshot.lines.len(), 2);
    assert_eq!(surface.snapshot.lines[1].row, 1);
    assert_eq!(surface.snapshot.lines[1].cells[2].column, 2);
    assert_eq!(surface.snapshot.lines[1].cells[2].text, " ");
}

#[test]
fn benchmark_frames_write_consecutive_slots() {
    let mut surface = sample_surface(2, 3);
    mutate_surface(&mut surface, 1, 4);
    let text = |r: usize, c: usize| surface.snapshot.lines[r].cells[c].text.clone();
    assert_eq!(text(1, 1), "f");
    assert_eq!(text(1, 2), "g");
    assert_eq!(text(0, 0), "b");
    assert_eq!(text(0, 1), "c");
    assert_eq!(text(0, 2), " ");
    assert_eq!(text(1, 0), " ");
    assert!(!surface.snapshot.lines[0].cells[0].bold);

    let mut even = sample_surface(2, 3);
    mutate_surface(&mut even, 0, 2);
    assert_eq!(even.snapshot.lines[0].cells[0].text, "a");
    assert_eq!(even.snapshot.lines[0].cells[1].text, "b");
    assert!(even.snapshot.lines[0].cells[1].bold && even.snapshot.lines[0].cells[1].underline);

    let mut wrapped = sample_surface(1, 2);
    mutate_surface(&mut wrapped, 0, 5);
    assert_eq!(wrapped.snapshot.lines[0].cells[0].text, "a");
    assert_eq!(wrapped.snapshot.lines[0].cells[1].text, "b");

    let mut empty = sample_surface(0, 4);
    mutate_surface(&mut empty, 3, 10);
    assert!(empty.snapshot.lines.is_empty());
}
