use rustytop::app::App;
use rustytop::columns::ColumnWidths;
use rustytop::events::{command, Action, Command, Event, Key};
use rustytop::model::InputMode;
use rustytop::palette::{palette_at, Hue, Shade, TableColors, N_PALETTES};
use rustytop::row::ProcessRecord;
use rustytop::selection::{clamp_index, next_index, previous_index};
use rustytop::table::ROW_HEIGHT;

fn snapshot(n: u32) -> Vec<ProcessRecord> {
    let mut out = Vec::new();
    let mut pid = n;
    while pid > 0 {
        let path = if pid % 2 == 0 { format!("/usr/bin/p{pid}") } else { format!("/bin/p{pid}") };
        out.push(ProcessRecord::new(pid, &format!("p{pid}"), Some(&path), Some("root")));
        pid -= 1;
    }
    out
}

fn type_text(app: &mut App, text: &str) {
    for c in text.chars() {
        app.enter_char(c);
    }
}

fn set_filter(app: &mut App, text: &str) {
    app.clear();
    app.enter_filter_mode();
    type_text(app, text);
    app.submit_message();
}

#[test]
fn starts_with_first_row_selected() {
    let app = App::new(&snapshot(3));
    assert_eq!(app.state().selected_index, Some(0));
    assert_eq!(app.state().scroll_offset, 0);
    assert_eq!(app.state().palette_index, 0);
    assert_eq!(app.state().filter_text, "");
    assert_eq!(app.state().input, "");
    assert_eq!(app.state().character_index, 0);
    assert_eq!(app.state().input_mode, InputMode::Normal);
    assert_eq!(app.colors(), TableColors::new(Hue::Blue));
    assert_eq!(app.table().len(), 3);
    assert_eq!(app.table().row(0).pid, 1);
    assert_eq!(app.visible_len(), 3);
}

#[test]
fn empty_snapshot_selects_nothing_and_next_does_nothing() {
    let mut app = App::new(&Vec::new());
    assert_eq!(app.state().selected_index, None);
    app.next();
    assert_eq!(app.state().selected_index, None);
    assert_eq!(app.state().scroll_offset, 0);
    app.previous();
    assert_eq!(app.state().selected_index, None);
    assert_eq!(app.state().scroll_offset, 0);
    let frame = app.frame();
    assert!(frame.rows.is_empty());
    assert_eq!(frame.selected_index, None);
    assert_eq!(frame.scroll_offset, 0);
    assert_eq!(frame.scroll_length, 0);
    assert_eq!(frame.widths, ColumnWidths { pid: 3, name: 4, path: 4, owner: 4 });
}

#[test]
fn four_palette_steps_return_to_start() {
    let mut app = App::new(&snapshot(2));
    assert_eq!(app.state().palette_index, 0);
    app.next_palette();
    assert_eq!(app.state().palette_index, 1);
    app.next_palette();
    assert_eq!(app.state().palette_index, 2);
    app.next_palette();
    assert_eq!(app.state().palette_index, 3);
    app.next_palette();
    assert_eq!(app.state().palette_index, 0);
    assert_eq!(N_PALETTES, 4);
}

#[test]
fn previous_palette_wraps_to_last() {
    let mut app = App::new(&Vec::new());
    app.previous_palette();
    assert_eq!(app.state().palette_index, 3);
    app.previous_palette();
    assert_eq!(app.state().palette_index, 2);
    app.next_palette();
    assert_eq!(app.state().palette_index, 3);
    assert_eq!(app.state().selected_index, None);
}

#[test]
fn set_colors_follows_palette_index() {
    let mut app = App::new(&snapshot(1));
    app.next_palette();
    assert_eq!(app.colors(), TableColors::new(Hue::Blue));
    app.set_colors();
    assert_eq!(app.colors(), TableColors::new(Hue::Emerald));
    app.next_palette();
    app.set_colors();
    assert_eq!(app.colors(), TableColors::new(Hue::Indigo));
    app.next_palette();
    app.set_colors();
    assert_eq!(app.colors(), TableColors::new(Hue::Red));
    assert_eq!(app.frame().colors, TableColors::new(Hue::Red));
}

#[test]
fn theme_uses_slate_and_accent_shades() {
    let colors = TableColors::new(palette_at(3));
    assert_eq!(colors.buffer_bg, Shade { hue: Hue::Slate, level: 950 });
    assert_eq!(colors.header_bg, Shade { hue: Hue::Red, level: 900 });
    assert_eq!(colors.header_fg, Shade { hue: Hue::Slate, level: 200 });
    assert_eq!(colors.row_fg, Shade { hue: Hue::Slate, level: 200 });
    assert_eq!(colors.selected_style_fg, Shade { hue: Hue::Red, level: 400 });
    assert_eq!(colors.normal_row_color, Shade { hue: Hue::Slate, level: 950 });
    assert_eq!(colors.alt_row_color, Shade { hue: Hue::Slate, level: 900 });
    assert_eq!(colors.footer_border_color, Shade { hue: Hue::Red, level: 400 });
    assert_eq!(palette_at(0), Hue::Blue);
    assert_eq!(palette_at(1), Hue::Emerald);
    assert_eq!(palette_at(2), Hue::Indigo);
}

#[test]
fn next_steps_down_and_wraps() {
    let mut app = App::new(&snapshot(3));
    app.next();
    assert_eq!(app.state().selected_index, Some(1));
    assert_eq!(app.state().scroll_offset, 4);
    app.next();
    assert_eq!(app.state().selected_index, Some(2));
    assert_eq!(app.state().scroll_offset, 8);
    app.next();
    assert_eq!(app.state().selected_index, Some(0));
    assert_eq!(app.state().scroll_offset, 0);
    assert_eq!(ROW_HEIGHT, 4);
}

#[test]
fn previous_steps_up_and_wraps() {
    let mut app = App::new(&snapshot(3));
    app.previous();
    assert_eq!(app.state().selected_index, Some(2));
    assert_eq!(app.state().scroll_offset, 8);
    app.previous();
    assert_eq!(app.state().selected_index, Some(1));
    assert_eq!(app.state().scroll_offset, 4);
}

#[test]
fn next_as_often_as_rows_returns_to_start() {
    for start in 0..5usize {
        let mut app = App::new(&snapshot(5));
        for _ in 0..start {
            app.next();
        }
        assert_eq!(app.state().selected_index, Some(start));
        for _ in 0..5 {
            app.next();
        }
        assert_eq!(app.state().selected_index, Some(start));
        assert_eq!(app.state().scroll_offset, start * 4);
        for _ in 0..5 {
            app.previous();
        }
        assert_eq!(app.state().selected_index, Some(start));
    }
}

#[test]
fn index_steps_on_plain_values() {
    assert_eq!(next_index(None, 0), None);
    assert_eq!(next_index(Some(0), 0), None);
    assert_eq!(next_index(None, 3), Some(0));
    assert_eq!(next_index(Some(1), 3), Some(2));
    assert_eq!(next_index(Some(2), 3), Some(0));
    assert_eq!(previous_index(None, 0), None);
    assert_eq!(previous_index(None, 3), Some(0));
    assert_eq!(previous_index(Some(0), 3), Some(2));
    assert_eq!(previous_index(Some(2), 3), Some(1));
    assert_eq!(clamp_index(Some(5), 3), Some(2));
    assert_eq!(clamp_index(Some(3), 3), Some(2));
    assert_eq!(clamp_index(Some(2), 3), Some(2));
    assert_eq!(clamp_index(Some(2), 0), None);
    assert_eq!(clamp_index(None, 3), None);
}

#[test]
fn filter_mode_edits_and_commits() {
    let mut app = App::new(&snapshot(4));
    app.enter_filter_mode();
    assert_eq!(app.state().input_mode, InputMode::Editing);
    type_text(&mut app, "/usr");
    assert_eq!(app.state().input, "/usr");
    assert_eq!(app.state().character_index, 4);
    assert_eq!(app.state().filter_text, "");
    assert_eq!(app.visible_len(), 4);
    app.submit_message();
    assert_eq!(app.state().input_mode, InputMode::Normal);
    assert_eq!(app.state().filter_text, "/usr");
    assert_eq!(app.state().input, "");
    assert_eq!(app.state().character_index, 0);
    assert_eq!(app.visible_len(), 2);
    let view = app.filtered_view();
    assert_eq!(view.len(), 2);
    assert_eq!(view[0].pid, 2);
    assert_eq!(view[1].pid, 4);
}

#[test]
fn submit_snaps_selection_to_last_row_of_shorter_view() {
    let mut app = App::new(&snapshot(6));
    for _ in 0..5 {
        app.next();
    }
    assert_eq!(app.state().selected_index, Some(5));
    app.enter_filter_mode();
    type_text(&mut app, "/usr");
    app.submit_message();
    assert_eq!(app.visible_len(), 3);
    assert_eq!(app.state().selected_index, Some(2));
    assert_eq!(app.state().scroll_offset, 8);
}

#[test]
fn submit_keeps_selection_that_still_fits() {
    let mut app = App::new(&snapshot(6));
    app.next();
    app.enter_filter_mode();
    type_text(&mut app, "/usr");
    app.submit_message();
    assert_eq!(app.state().selected_index, Some(1));
    assert_eq!(app.state().scroll_offset, 4);
}

#[test]
fn submit_clears_selection_when_nothing_matches() {
    let mut app = App::new(&snapshot(3));
    app.enter_filter_mode();
    type_text(&mut app, "/nowhere");
    app.submit_message();
    assert_eq!(app.visible_len(), 0);
    assert_eq!(app.state().selected_index, None);
    assert_eq!(app.state().scroll_offset, 0);
    app.next();
    assert_eq!(app.state().selected_index, None);
}

#[test]
fn resuming_edit_keeps_text_with_cursor_at_end() {
    let mut app = App::new(&snapshot(3));
    set_filter(&mut app, "/b");
    app.enter_filter_mode();
    assert_eq!(app.state().input, "/b");
    assert_eq!(app.state().character_index, 2);
    type_text(&mut app, "in");
    assert_eq!(app.state().input, "/bin");
    assert_eq!(app.state().character_index, 4);
    assert_eq!(app.state().filter_text, "/b");
}

#[test]
fn cancel_discards_uncommitted_edits() {
    let mut app = App::new(&snapshot(4));
    set_filter(&mut app, "/usr");
    app.next();
    app.enter_filter_mode();
    type_text(&mut app, "/zzz");
    app.cancel_filter();
    assert_eq!(app.state().input_mode, InputMode::Normal);
    assert_eq!(app.state().filter_text, "/usr");
    assert_eq!(app.state().input, "");
    assert_eq!(app.state().character_index, 0);
    assert_eq!(app.state().selected_index, Some(1));
    assert_eq!(app.visible_len(), 2);
}

#[test]
fn clear_empties_filter_and_selects_first_row() {
    let mut app = App::new(&snapshot(4));
    set_filter(&mut app, "/nowhere");
    assert_eq!(app.state().selected_index, None);
    app.clear();
    assert_eq!(app.state().filter_text, "");
    assert_eq!(app.state().selected_index, Some(0));
    assert_eq!(app.state().scroll_offset, 0);
    assert_eq!(app.visible_len(), 4);
    let mut empty = App::new(&Vec::new());
    empty.clear();
    assert_eq!(empty.state().selected_index, None);
}

#[test]
fn editing_operations_do_nothing_while_navigating() {
    let mut app = App::new(&snapshot(2));
    app.enter_char('x');
    assert_eq!(app.state().input, "");
    assert_eq!(app.state().character_index, 0);
    app.submit_message();
    assert_eq!(app.state().filter_text, "");
    assert_eq!(app.state().selected_index, Some(0));
    app.cancel_filter();
    assert_eq!(app.state().input_mode, InputMode::Normal);
}

#[test]
fn clear_does_nothing_while_editing() {
    let mut app = App::new(&snapshot(2));
    set_filter(&mut app, "/usr");
    app.enter_filter_mode();
    type_text(&mut app, "x");
    app.clear();
    assert_eq!(app.state().filter_text, "/usr");
    assert_eq!(app.state().input, "/usrx");
    assert_eq!(app.state().input_mode, InputMode::Editing);
    app.enter_filter_mode();
    assert_eq!(app.state().input, "/usrx");
    assert_eq!(app.state().character_index, 5);
}

#[test]
fn cursor_counts_characters_and_byte_index_counts_bytes() {
    let mut app = App::new(&Vec::new());
    app.enter_filter_mode();
    assert_eq!(app.byte_index(), 0);
    app.enter_char('é');
    assert_eq!(app.state().character_index, 1);
    assert_eq!(app.byte_index(), 2);
    app.enter_char('a');
    assert_eq!(app.state().character_index, 2);
    assert_eq!(app.byte_index(), 3);
    app.enter_char('😀');
    assert_eq!(app.state().character_index, 3);
    assert_eq!(app.byte_index(), 7);
    app.enter_char('€');
    assert_eq!(app.state().input, "éa😀€");
    assert_eq!(app.state().character_index, 4);
    assert_eq!(app.byte_index(), 10);
}

#[test]
fn refresh_reclamps_selection() {
    let mut app = App::new(&snapshot(5));
    for _ in 0..4 {
        app.next();
    }
    assert_eq!(app.state().selected_index, Some(4));
    app.refresh(&snapshot(2));
    assert_eq!(app.table().len(), 2);
    assert_eq!(app.state().selected_index, Some(1));
    assert_eq!(app.state().scroll_offset, 4);
    app.refresh(&Vec::new());
    assert_eq!(app.state().selected_index, None);
    assert_eq!(app.state().scroll_offset, 0);
    app.refresh(&snapshot(3));
    assert_eq!(app.state().selected_index, None);
    app.next();
    assert_eq!(app.state().selected_index, Some(0));
}

#[test]
fn refresh_keeps_filter_and_palette() {
    let mut app = App::new(&snapshot(4));
    app.next_palette();
    set_filter(&mut app, "/usr");
    app.refresh(&snapshot(8));
    assert_eq!(app.state().filter_text, "/usr");
    assert_eq!(app.state().palette_index, 1);
    assert_eq!(app.visible_len(), 4);
    assert_eq!(app.state().selected_index, Some(0));
}

#[test]
fn frame_carries_view_widths_and_selection() {
    let mut app = App::new(&vec![
        ProcessRecord::new(42, "b", Some("/usr/b"), Some("alice")),
        ProcessRecord::new(1, "a", Some("/bin/a"), Some("root")),
        ProcessRecord::new(1000, "daemon", Some("/usr/sbin/daemon"), None),
    ]);
    set_filter(&mut app, "/usr");
    app.next();
    let frame = app.frame();
    assert_eq!(frame.rows.len(), 2);
    assert_eq!(frame.rows[0].pid, 42);
    assert_eq!(frame.rows[1].pid, 1000);
    assert_eq!(frame.rows[1].owner, "unknown");
    assert_eq!(frame.widths, ColumnWidths { pid: 4, name: 6, path: 16, owner: 7 });
    assert_eq!(frame.selected_index, Some(1));
    assert_eq!(frame.scroll_offset, 4);
    assert_eq!(frame.scroll_length, 4);
    assert_eq!(frame.colors, TableColors::new(Hue::Blue));
}

#[test]
fn keys_map_to_commands_while_navigating() {
    let n = InputMode::Normal;
    assert_eq!(command(n, Key::Char('q')), Command::Quit);
    assert_eq!(command(n, Key::Esc), Command::Quit);
    assert_eq!(command(n, Key::Char('j')), Command::Next);
    assert_eq!(command(n, Key::Down), Command::Next);
    assert_eq!(command(n, Key::Char('k')), Command::Previous);
    assert_eq!(command(n, Key::Up), Command::Previous);
    assert_eq!(command(n, Key::Char('l')), Command::NextPalette);
    assert_eq!(command(n, Key::Right), Command::NextPalette);
    assert_eq!(command(n, Key::Char('h')), Command::PreviousPalette);
    assert_eq!(command(n, Key::Left), Command::PreviousPalette);
    assert_eq!(command(n, Key::Char('f')), Command::EnterFilter);
    assert_eq!(command(n, Key::Insert), Command::EnterFilter);
    assert_eq!(command(n, Key::Char('c')), Command::Clear);
    assert_eq!(command(n, Key::Home), Command::Clear);
    assert_eq!(command(n, Key::Char('x')), Command::Nothing);
    assert_eq!(command(n, Key::Enter), Command::Nothing);
    assert_eq!(command(n, Key::Other), Command::Nothing);
}

#[test]
fn keys_map_to_commands_while_editing() {
    let e = InputMode::Editing;
    assert_eq!(command(e, Key::Enter), Command::Submit);
    assert_eq!(command(e, Key::Esc), Command::Cancel);
    assert_eq!(command(e, Key::Char('q')), Command::Insert('q'));
    assert_eq!(command(e, Key::Char('j')), Command::Insert('j'));
    assert_eq!(command(e, Key::Up), Command::Nothing);
    assert_eq!(command(e, Key::Home), Command::Nothing);
    assert_eq!(command(e, Key::Other), Command::Nothing);
}

#[test]
fn key_session_filters_and_quits() {
    let mut app = App::new(&snapshot(4));
    assert_eq!(app.handle_key(Key::Down), Action::Continue);
    assert_eq!(app.state().selected_index, Some(1));
    assert_eq!(app.handle_key(Key::Char('f')), Action::Continue);
    assert_eq!(app.handle_key(Key::Char('q')), Action::Continue);
    assert_eq!(app.state().input, "q");
    assert_eq!(app.handle_key(Key::Esc), Action::Continue);
    assert_eq!(app.state().input_mode, InputMode::Normal);
    assert_eq!(app.state().filter_text, "");
    assert_eq!(app.handle_key(Key::Insert), Action::Continue);
    for c in "/usr".chars() {
        assert_eq!(app.handle_key(Key::Char(c)), Action::Continue);
    }
    assert_eq!(app.handle_key(Key::Up), Action::Continue);
    assert_eq!(app.state().input, "/usr");
    assert_eq!(app.handle_key(Key::Enter), Action::Continue);
    assert_eq!(app.state().filter_text, "/usr");
    assert_eq!(app.visible_len(), 2);
    assert_eq!(app.handle_key(Key::Char('l')), Action::Continue);
    assert_eq!(app.state().palette_index, 1);
    assert_eq!(app.handle_key(Key::Left), Action::Continue);
    assert_eq!(app.state().palette_index, 0);
    assert_eq!(app.handle_key(Key::Char('c')), Action::Continue);
    assert_eq!(app.state().filter_text, "");
    assert_eq!(app.handle_key(Key::Other), Action::Continue);
    assert_eq!(app.handle_key(Key::Char('q')), Action::Quit);
    assert_eq!(app.run(Command::Quit), Action::Quit);
    assert_eq!(app.run(Command::Nothing), Action::Continue);
}

#[test]
fn tick_event_refreshes_from_its_snapshot() {
    let mut app = App::new(&snapshot(2));
    app.next();
    assert_eq!(app.handle_event(&Event::Tick(snapshot(1))), Action::Continue);
    assert_eq!(app.table().len(), 1);
    assert_eq!(app.state().selected_index, Some(0));
    assert_eq!(app.handle_event(&Event::Key(Key::Esc)), Action::Quit);
    assert_eq!(app.handle_event(&Event::Key(Key::Char('k'))), Action::Continue);
}
