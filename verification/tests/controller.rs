use screamshot::controller::{AppState, Command, Controller, Event, Region, ScrollKind, ScrollPlan};

fn region() -> Region {
    Region { x: 10, y: 20, width: 300, height: 200 }
}

#[test]
fn starts_in_the_background() {
    let c = Controller::new();
    assert_eq!(c.state, AppState::Hidden);
    assert_eq!(c.scroll_region, None);
}

#[test]
fn menu_choices_open_their_windows() {
    let mut c = Controller::new();
    assert_eq!(
        c.step(Event::CaptureRegionChosen),
        vec![Command::SetVisible(true), Command::SetFullscreen(true), Command::Focus]
    );
    assert_eq!(c.state, AppState::SelectingRegion);
    assert_eq!(
        c.step(Event::SettingsChosen),
        vec![
            Command::SetVisible(true),
            Command::SetFullscreen(false),
            Command::Resize(450, 250),
            Command::Focus
        ]
    );
    assert_eq!(c.state, AppState::EditingSettings);
    c.step(Event::CaptureScrollingChosen);
    assert_eq!(c.state, AppState::SelectingScrollRegion);
    assert_eq!(c.step(Event::QuitChosen), vec![Command::RemoveTrayIcon, Command::CloseWindow]);
    assert_eq!(c.state, AppState::SelectingScrollRegion);
}

#[test]
fn region_capture_saves_the_selection() {
    let mut c = Controller::new();
    c.step(Event::CaptureRegionChosen);
    let cmds = c.step(Event::SelectionFinished(region()));
    assert_eq!(
        cmds,
        vec![Command::ClearSelection, Command::SetVisible(false), Command::CaptureAndSave(region())]
    );
    assert_eq!(c.state, AppState::Hidden);
    assert_eq!(c.scroll_region, None);
}

#[test]
fn scrolling_capture_runs_from_selection_to_stitching() {
    let mut c = Controller::new();
    c.step(Event::CaptureScrollingChosen);
    let cmds = c.step(Event::SelectionFinished(region()));
    assert_eq!(
        cmds,
        vec![
            Command::ClearSelection,
            Command::ClearFrames,
            Command::SetFullscreen(false),
            Command::Resize(350, 200),
            Command::MovePanelBesideSelection,
            Command::CaptureFirstFrame(region()),
        ]
    );
    assert_eq!(c.state, AppState::CapturingScroll);
    assert_eq!(c.scroll_region, Some(region()));
    assert_eq!(
        c.step(Event::ScrollRequested(ScrollKind::Page)),
        vec![Command::SetVisible(false), Command::ScrollAndCapture(ScrollKind::Page, region())]
    );
    assert_eq!(
        c.step(Event::ScrollRequested(ScrollKind::Line)),
        vec![Command::SetVisible(false), Command::ScrollAndCapture(ScrollKind::Line, region())]
    );
    assert_eq!(c.step(Event::FinishRequested(3)), vec![Command::StitchAndSave, Command::SetVisible(false)]);
    assert_eq!(c.state, AppState::Hidden);
}

#[test]
fn finishing_without_frames_only_hides() {
    let mut c = Controller::new();
    c.step(Event::CaptureScrollingChosen);
    c.step(Event::SelectionFinished(region()));
    assert_eq!(c.step(Event::FinishRequested(0)), vec![Command::SetVisible(false)]);
    assert_eq!(c.state, AppState::Hidden);
}

#[test]
fn cancelling_a_scrolling_capture_drops_the_frames() {
    let mut c = Controller::new();
    c.step(Event::CaptureScrollingChosen);
    c.step(Event::SelectionFinished(region()));
    assert_eq!(c.step(Event::ScrollCancelled), vec![Command::ClearFrames, Command::SetVisible(false)]);
    assert_eq!(c.state, AppState::Hidden);
}

#[test]
fn empty_selection_and_escape_return_to_background() {
    let mut c = Controller::new();
    c.step(Event::CaptureRegionChosen);
    let flat = Region { x: 5, y: 5, width: 100, height: 0 };
    assert_eq!(
        c.step(Event::SelectionFinished(flat)),
        vec![Command::ClearSelection, Command::SetVisible(false)]
    );
    assert_eq!(c.state, AppState::Hidden);
    c.step(Event::CaptureScrollingChosen);
    assert_eq!(c.step(Event::EscapePressed), vec![Command::SetVisible(false), Command::ClearSelection]);
    assert_eq!(c.state, AppState::Hidden);
    assert_eq!(c.scroll_region, None);
}

#[test]
fn settings_save_cancel_and_autostart() {
    let mut c = Controller::new();
    c.step(Event::SettingsChosen);
    assert_eq!(c.step(Event::AutostartToggled), vec![Command::ApplyAutostart]);
    assert_eq!(c.state, AppState::EditingSettings);
    assert_eq!(c.step(Event::SettingsSaved), vec![Command::SaveConfig, Command::SetVisible(false)]);
    assert_eq!(c.state, AppState::Hidden);
    c.step(Event::SettingsChosen);
    assert_eq!(c.step(Event::SettingsCancelled), vec![Command::ReloadConfig, Command::SetVisible(false)]);
    assert_eq!(c.state, AppState::Hidden);
}

#[test]
fn background_ignores_window_events() {
    let mut c = Controller::new();
    for e in [
        Event::AutostartToggled,
        Event::SettingsSaved,
        Event::SettingsCancelled,
        Event::ScrollRequested(ScrollKind::Page),
        Event::FinishRequested(2),
        Event::ScrollCancelled,
        Event::SelectionFinished(region()),
    ] {
        assert!(c.step(e).is_empty());
        assert_eq!(c, Controller::new());
    }
}

#[test]
fn repaint_timer_runs_outside_the_overlays() {
    assert!(AppState::Hidden.repaints_periodically());
    assert!(AppState::EditingSettings.repaints_periodically());
    assert!(AppState::CapturingScroll.repaints_periodically());
    assert!(!AppState::SelectingRegion.repaints_periodically());
    assert!(!AppState::SelectingScrollRegion.repaints_periodically());
}

#[test]
fn region_fits_only_inside_the_screen() {
    let r = region();
    assert!(r.fits_within(310, 220));
    assert!(!r.fits_within(309, 220));
    assert!(!r.fits_within(310, 219));
    let far = Region { x: u32::MAX, y: 0, width: 2, height: 1 };
    assert!(!far.fits_within(u32::MAX, 10));
}

#[test]
fn scroll_plans() {
    assert_eq!(ScrollKind::Page.plan(), ScrollPlan { presses: 1, pause_ms: 0, settle_ms: 500 });
    assert_eq!(ScrollKind::Line.plan(), ScrollPlan { presses: 5, pause_ms: 30, settle_ms: 400 });
}

#[test]
fn escape_ends_a_scrolling_selection_made_in_the_same_frame() {
    let mut c = Controller::new();
    c.step(Event::CaptureScrollingChosen);
    c.step(Event::SelectionFinished(region()));
    assert_eq!(c.step(Event::EscapePressed), vec![Command::SetVisible(false), Command::ClearSelection]);
    assert_eq!(c.state, AppState::Hidden);
}
