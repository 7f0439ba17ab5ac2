use clerestory::tui::app::{TuiApp, TuiKey, TuiState};

#[test]
fn test_tui_default_state() {
    let s = TuiState::default();
    assert_eq!(s.current_tab, 0);
    assert_eq!(s.selected_cores, 8);
    assert!(!s.should_quit);
}

#[test]
fn test_tui_tabs_cycle() {
    let mut s = TuiState::default();
    TuiApp::on_key(&mut s, TuiKey::BackTab, false);
    assert_eq!(s.current_tab, 4);
    TuiApp::on_key(&mut s, TuiKey::Tab, false);
    assert_eq!(s.current_tab, 0);
    for _ in 0..5 {
        TuiApp::on_key(&mut s, TuiKey::Tab, false);
    }
    assert_eq!(s.current_tab, 0);
}

#[test]
fn test_tui_core_selection_bounds() {
    let mut s = TuiState::default();
    for _ in 0..20 {
        TuiApp::on_key(&mut s, TuiKey::Up, false);
    }
    assert_eq!(s.selected_cores, 32);
    for _ in 0..20 {
        TuiApp::on_key(&mut s, TuiKey::Down, false);
    }
    assert_eq!(s.selected_cores, 2);
    s.selected_cores = 31;
    TuiApp::on_key(&mut s, TuiKey::Up, false);
    assert_eq!(s.selected_cores, 32);
    s.selected_cores = 3;
    TuiApp::on_key(&mut s, TuiKey::Down, false);
    assert_eq!(s.selected_cores, 2);
}

#[test]
fn test_tui_quit_keys() {
    let mut s = TuiState::default();
    TuiApp::on_key(&mut s, TuiKey::Char('c'), false);
    assert!(!s.should_quit);
    TuiApp::on_key(&mut s, TuiKey::Char('c'), true);
    assert!(s.should_quit);
    let mut s = TuiState::default();
    TuiApp::on_key(&mut s, TuiKey::Char('q'), false);
    assert!(s.should_quit);
    let mut s = TuiState::default();
    TuiApp::on_key(&mut s, TuiKey::Esc, false);
    assert!(s.should_quit);
    let mut s = TuiState::default();
    TuiApp::on_key(&mut s, TuiKey::Other, true);
    assert_eq!(s, TuiState::default());
    assert!(TuiApp::key_fits(&s, TuiKey::Up));
    s.selected_cores = u32::MAX;
    assert!(!TuiApp::key_fits(&s, TuiKey::Up));
}
