use unicode_player::raster::Raster;
use unicode_player::renderers::{Aspect, Renderer};
use unicode_player::tui::{
    EventResponse, Player, Search, SearchResult, TermEvent, Tui, TuiFocus,
};

fn result(title: &str, uploader: &str, path: &str) -> SearchResult {
    SearchResult {
        title: title.to_string(),
        uploader: uploader.to_string(),
        path: path.to_string(),
    }
}

fn search_with_results(n: usize) -> Search {
    let mut s = Search::new(40, 30);
    let mut rs = Vec::new();
    for i in 0..n {
        rs.push(result(&format!("title{}", i), "up", &format!("p{}", i)));
    }
    s.apply_search_outcome(Ok(rs));
    s
}

#[test]
fn detect_quit_only_on_q() {
    assert!(TermEvent::Char('q').detect_quit());
    assert!(!TermEvent::Char('a').detect_quit());
    assert!(!TermEvent::Enter.detect_quit());
}

#[test]
fn focus_toggles_and_gates_quit() {
    assert!(matches!(TuiFocus::Player.next_focus(), TuiFocus::Search));
    assert!(matches!(TuiFocus::Search.next_focus(), TuiFocus::Player));
    assert!(TuiFocus::Player.should_exit());
    assert!(!TuiFocus::Search.should_exit());
}

#[test]
fn arrow_down_on_empty_results_selects_nothing() {
    let mut s = Search::new(40, 30);
    s.handle_arrow_down();
    assert_eq!(s.selected, None);
}

#[test]
fn arrow_down_selects_first_then_walks() {
    let mut s = search_with_results(3);
    assert_eq!(s.selected, None);
    s.handle_arrow_down();
    assert_eq!(s.selected, Some(0));
    s.handle_arrow_down();
    assert_eq!(s.selected, Some(1));
    s.handle_arrow_down();
    assert_eq!(s.selected, Some(2));
    // the selection stops at the last result
    s.handle_arrow_down();
    assert_eq!(s.selected, Some(2));
}

#[test]
fn arrow_up_from_first_clears_selection() {
    let mut s = search_with_results(2);
    s.handle_arrow_down();
    assert_eq!(s.selected, Some(0));
    s.handle_arrow_up();
    assert_eq!(s.selected, None);
    // up with no selection stays unselected
    s.handle_arrow_up();
    assert_eq!(s.selected, None);
}

#[test]
fn selection_stays_inside_results() {
    let mut s = search_with_results(2);
    for _ in 0..10 {
        s.handle_arrow_down();
        if let Some(i) = s.selected {
            assert!(i < s.results.len());
        }
    }
    for _ in 0..10 {
        s.handle_arrow_up();
        if let Some(i) = s.selected {
            assert!(i < s.results.len());
        }
    }
}

#[test]
fn selection_capped_by_visible_rows() {
    // height 30 leaves (30 - 6) / 3 = 8 visible rows beyond the first
    let mut s = search_with_results(20);
    for _ in 0..50 {
        s.handle_arrow_down();
    }
    assert_eq!(s.selected, Some(8));
}

#[test]
fn query_editing() {
    let mut s = Search::new(40, 30);
    s.handle_char('c');
    s.handle_char('a');
    s.handle_char('t');
    assert_eq!(s.query, vec!['c', 'a', 't']);
    s.handle_backspace();
    assert_eq!(s.query, vec!['c', 'a']);
    s.handle_backspace();
    s.handle_backspace();
    s.handle_backspace();
    assert_eq!(s.query, Vec::<char>::new());
}

#[test]
fn search_failure_becomes_inline_result() {
    let mut s = Search::new(40, 30);
    s.apply_search_outcome(Err("lookup failed".to_string()));
    assert_eq!(s.results.len(), 1);
    assert_eq!(s.results[0].title, "lookup failed");
    assert_eq!(s.results[0].uploader, "");
    assert_eq!(s.results[0].path, "");
}

#[test]
fn cursor_positions() {
    let mut s = Search::new(40, 30);
    assert_eq!(s.cursor_x(), 12);
    assert_eq!(s.cursor_y(), 2);
    s.handle_char('a');
    s.handle_char('b');
    assert_eq!(s.cursor_x(), 14);
    let mut s2 = search_with_results(2);
    s2.handle_arrow_down();
    s2.handle_arrow_down();
    assert_eq!(s2.cursor_x(), 2);
    assert_eq!(s2.cursor_y(), 7);
}

#[test]
fn result_rows_truncate_by_display_width() {
    // Fullwidth letters are two columns each: only five of six fit in the
    // ten columns available at pane width 14.
    let r = result(
        "\u{ff21}\u{ff22}\u{ff23}\u{ff24}\u{ff25}\u{ff26}",
        "up",
        "p",
    );
    let rows = r.draw(14, true);
    assert_eq!(rows.len(), 2);
    assert_eq!(
        rows[0],
        "\u{2551} \u{1b}[1m\u{ff21}\u{ff22}\u{ff23}\u{ff24}\u{ff25}\u{1b}[0m \u{2551}"
    );
    assert_eq!(rows[1], "\u{2551} up         \u{2551}");
}

#[test]
fn result_rows_keep_grapheme_clusters_whole() {
    // A combining accent stays attached to its base letter.
    let r = result("e\u{301}x", "u", "p");
    let rows = r.draw(14, true);
    assert!(rows[0].contains("e\u{301}"));
}

#[test]
fn later_results_carry_separator_row() {
    let r = result("t", "u", "p");
    let rows = r.draw(14, false);
    assert_eq!(rows.len(), 3);
    assert_eq!(rows[0], "\u{255f}\u{2500}\u{2500}\u{2500}\u{2500}\u{2500}\u{2500}\u{2500}\u{2500}\u{2500}\u{2500}\u{2500}\u{2500}\u{2562}");
}

#[test]
fn search_pane_shape() {
    let mut s = Search::new(20, 10);
    s.handle_char('h');
    s.handle_char('i');
    let rows = s.draw();
    assert_eq!(rows.len(), 10);
    assert_eq!(rows[0], "\u{2554}\u{2550}\u{2550}\u{2550}\u{2550}\u{2550}\u{2550}\u{2550}\u{2550}\u{2566}\u{2550}\u{2550}\u{2550}\u{2550}\u{2550}\u{2550}\u{2550}\u{2550}\u{2550}\u{2557}");
    assert_eq!(rows[1], "\u{2551} Search \u{2551} hi      \u{2551}");
    assert_eq!(rows[9], "\u{255a}\u{2550}\u{2550}\u{2550}\u{2550}\u{2550}\u{2550}\u{2550}\u{2550}\u{2550}\u{2550}\u{2550}\u{2550}\u{2550}\u{2550}\u{2550}\u{2550}\u{2550}\u{2550}\u{255d}");
}

#[test]
fn player_keys_drive_responses() {
    let mut tui = Tui::new(
        Renderer::PixelChar,
        Aspect { num: 11, den: 5 },
        120,
        30,
    );
    assert!(matches!(
        tui.handle_event(TermEvent::Char('q')),
        EventResponse::Quit
    ));
    assert!(matches!(
        tui.handle_event(TermEvent::Char('r')),
        EventResponse::Restart
    ));
    assert!(matches!(
        tui.handle_event(TermEvent::Char('p')),
        EventResponse::PlayPause
    ));
    tui.handle_event(TermEvent::Char('m'));
    assert!(matches!(tui.player.renderer, Renderer::HalfChar));
    tui.handle_event(TermEvent::Char('M'));
    assert!(matches!(tui.player.renderer, Renderer::PixelChar));
}

#[test]
fn tab_switches_focus_and_quit_gate() {
    let mut tui = Tui::new(
        Renderer::PixelChar,
        Aspect { num: 11, den: 5 },
        120,
        30,
    );
    assert!(tui.accept_quit());
    assert!(matches!(
        tui.handle_event(TermEvent::Tab),
        EventResponse::Handled
    ));
    assert!(!tui.accept_quit());
    // while searching, 'q' is plain text
    assert!(matches!(
        tui.handle_event(TermEvent::Char('q')),
        EventResponse::Handled
    ));
    assert_eq!(tui.search.query, vec!['q']);
    assert!(matches!(
        tui.handle_event(TermEvent::Tab),
        EventResponse::Handled
    ));
    assert!(tui.accept_quit());
}

#[test]
fn enter_runs_query_or_opens_selection() {
    let mut tui = Tui::new(
        Renderer::PixelChar,
        Aspect { num: 11, den: 5 },
        120,
        30,
    );
    tui.handle_event(TermEvent::Tab);
    tui.handle_event(TermEvent::Char('o'));
    tui.handle_event(TermEvent::Char('k'));
    match tui.handle_event(TermEvent::Enter) {
        EventResponse::RunSearch(q) => assert_eq!(q, "ok"),
        _ => panic!("expected a query run"),
    }
    tui.apply_search_outcome(Ok(vec![result("t", "u", "loc1")]));
    tui.handle_event(TermEvent::Down);
    match tui.handle_event(TermEvent::Enter) {
        EventResponse::ChangeSource(p) => assert_eq!(p, "loc1"),
        _ => panic!("expected a source change"),
    }
}

#[test]
fn player_pane_draws_border() {
    let p = Player::new(3, 3, Renderer::PixelChar);
    let img = Raster { width: 1, height: 1, pixels: vec![(9, 9, 9)] };
    let rows = p.render(&img, Aspect { num: 1, den: 1 });
    assert_eq!(rows.len(), 3);
    assert_eq!(rows[0], "\u{256d}\u{2500}\u{256e}");
    assert_eq!(rows[1], "\u{2502}\u{1b}[38;2;9;9;9m\u{2588}\u{1b}[0m\u{2502}");
    assert_eq!(rows[2], "\u{2570}\u{2500}\u{256f}");
}

#[test]
fn render_has_one_row_per_terminal_row() {
    let mut tui = Tui::new(
        Renderer::PixelChar,
        Aspect { num: 1, den: 1 },
        120,
        30,
    );
    let img = Raster { width: 1, height: 1, pixels: vec![(0, 0, 0)] };
    let screen = tui.render(&img, "None");
    let rows: Vec<&str> = screen.split("\r\n").collect();
    assert_eq!(rows.len(), 30);
    assert!(screen.contains("Now Playing: None"));
    assert!(screen.contains("Current Renderer: Full Chars"));
    assert!(screen.contains("Search"));
    let again = tui.render(&img, "None");
    assert_eq!(screen, again);
}

#[test]
fn cursor_follows_focus() {
    let mut tui = Tui::new(
        Renderer::PixelChar,
        Aspect { num: 1, den: 1 },
        120,
        30,
    );
    let img = Raster { width: 1, height: 1, pixels: vec![(0, 0, 0)] };
    tui.render(&img, "None");
    // the cursor sits just after the help text on the last row
    let help = "Press 'm'/'M' to cycle mode, 'q' to exit, 'r' to restart, 'p' to play/pause: ";
    assert_eq!(tui.cursor_x() as usize, help.len() + 3);
    assert_eq!(tui.cursor_y(), 29);
    tui.handle_event(TermEvent::Tab);
    tui.render(&img, "None");
    assert_eq!(tui.cursor_x(), 80 + 12);
    assert_eq!(tui.cursor_y(), 2);
}
