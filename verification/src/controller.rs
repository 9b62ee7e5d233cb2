//! The decisions of the capture tool's window: what each user event does to
//! the tool's state, and which effects the user interface has to carry out.
use vstd::prelude::*;

verus! {

/// What the tool is doing.
#[derive(Clone, Copy, Debug, PartialEq, Eq, Structural)]
pub enum AppState {
    /// In the background; only the tray menu listens.
    Hidden,
    /// A full-screen overlay on which a region to capture is dragged.
    SelectingRegion,
    /// The same overlay, for the region of a scrolling capture.
    SelectingScrollRegion,
    /// A small panel that scrolls the page and captures frames.
    CapturingScroll,
    /// The settings window.
    EditingSettings,
}

/// A rectangle on the screen, in pixels.
#[derive(Clone, Copy, Debug, PartialEq, Eq, Structural)]
pub struct Region {
    pub x: u32,
    pub y: u32,
    pub width: u32,
    pub height: u32,
}

/// How a scrolling capture moves the page.
#[derive(Clone, Copy, Debug, PartialEq, Eq, Structural)]
pub enum ScrollKind {
    /// One press of Page Down.
    Page,
    /// Several presses of the down arrow.
    Line,
}

/// Something the user did.
#[derive(Clone, Copy, Debug, PartialEq, Eq, Structural)]
pub enum Event {
    /// "Quit" in the tray menu.
    QuitChosen,
    /// "Capture Region" in the tray menu.
    CaptureRegionChosen,
    /// "Capture Scrolling Region" in the tray menu.
    CaptureScrollingChosen,
    /// "Settings" in the tray menu.
    SettingsChosen,
    /// The start-on-login box in the settings was ticked or cleared.
    AutostartToggled,
    /// "Save Settings".
    SettingsSaved,
    /// "Cancel" in the settings.
    SettingsCancelled,
    /// One of the scroll-and-capture buttons of the scrolling panel.
    ScrollRequested(ScrollKind),
    /// "Finish & Stitch", with the number of frames captured so far.
    FinishRequested(usize),
    /// "Cancel" in the scrolling panel.
    ScrollCancelled,
    /// A drag on the overlay ended; the rectangle it spans.
    SelectionFinished(Region),
    /// Escape on the overlay.  The key is honoured even when a drag ended
    /// in the same frame and already moved the tool on.
    EscapePressed,
}

/// An effect for the user interface to carry out.
#[derive(Clone, Copy, Debug, PartialEq, Eq, Structural)]
pub enum Command {
    /// Take the icon out of the tray.
    RemoveTrayIcon,
    /// Close the window and end the program.
    CloseWindow,
    /// Show or hide the window.
    SetVisible(bool),
    /// Make the window full-screen or not.
    SetFullscreen(bool),
    /// Give the window the focus.
    Focus,
    /// Resize the window.
    Resize(u32, u32),
    /// Move the window to the side of the screen away from the selection.
    MovePanelBesideSelection,
    /// Install or remove the start-on-login entry as the setting now says.
    ApplyAutostart,
    /// Write the settings to disk.
    SaveConfig,
    /// Read the settings back from disk, dropping the edits.
    ReloadConfig,
    /// Forget the drag in progress on the overlay.
    ClearSelection,
    /// Capture the region, save it and copy it to the clipboard.
    CaptureAndSave(Region),
    /// Drop the frames captured so far.
    ClearFrames,
    /// Capture the first frame of a scrolling capture.
    CaptureFirstFrame(Region),
    /// Scroll the page, then capture the next frame.
    ScrollAndCapture(ScrollKind, Region),
    /// Stitch the captured frames, save the result and copy it.
    StitchAndSave,
}

/// The tool's state and the region of the scrolling capture in progress.
#[derive(Clone, Copy, Debug, PartialEq, Eq, Structural)]
pub struct Controller {
    pub state: AppState,
    pub scroll_region: Option<Region>,
}

impl Controller {
    /// A scrolling capture always has a region.
    pub open spec fn well_formed(self) -> bool {
        self.state == AppState::CapturingScroll ==> self.scroll_region is Some
    }

    pub open spec fn with_state(self, state: AppState) -> Controller {
        Controller { state, ..self }
    }
}

/// Whether the state is one of the two overlays.
pub open spec fn selecting(state: AppState) -> bool {
    state == AppState::SelectingRegion || state == AppState::SelectingScrollRegion
}

/// The state after `e` in state `s`, and the effects to carry out in order.
/// Tray-menu choices and Escape apply in every state; the other events only
/// in the state whose window offers them, and do nothing elsewhere.
pub open spec fn next(s: Controller, e: Event) -> (Controller, Seq<Command>) {
    match e {
        Event::QuitChosen => (s, seq![Command::RemoveTrayIcon, Command::CloseWindow]),
        Event::CaptureRegionChosen => (
            s.with_state(AppState::SelectingRegion),
            seq![Command::SetVisible(true), Command::SetFullscreen(true), Command::Focus],
        ),
        Event::CaptureScrollingChosen => (
            s.with_state(AppState::SelectingScrollRegion),
            seq![Command::SetVisible(true), Command::SetFullscreen(true), Command::Focus],
        ),
        Event::SettingsChosen => (
            s.with_state(AppState::EditingSettings),
            seq![
                Command::SetVisible(true),
                Command::SetFullscreen(false),
                Command::Resize(450, 250),
                Command::Focus,
            ],
        ),
        Event::AutostartToggled => if s.state == AppState::EditingSettings {
            (s, seq![Command::ApplyAutostart])
        } else {
            (s, seq![])
        },
        Event::SettingsSaved => if s.state == AppState::EditingSettings {
            (s.with_state(AppState::Hidden), seq![Command::SaveConfig, Command::SetVisible(false)])
        } else {
            (s, seq![])
        },
        Event::SettingsCancelled => if s.state == AppState::EditingSettings {
            (s.with_state(AppState::Hidden), seq![Command::ReloadConfig, Command::SetVisible(false)])
        } else {
            (s, seq![])
        },
        Event::ScrollRequested(kind) => if s.state == AppState::CapturingScroll {
            match s.scroll_region {
                Some(r) => (s, seq![Command::SetVisible(false), Command::ScrollAndCapture(kind, r)]),
                None => (s, seq![]),
            }
        } else {
            (s, seq![])
        },
        Event::FinishRequested(frames) => if s.state == AppState::CapturingScroll {
            if frames > 0 {
                (s.with_state(AppState::Hidden), seq![Command::StitchAndSave, Command::SetVisible(false)])
            } else {
                (s.with_state(AppState::Hidden), seq![Command::SetVisible(false)])
            }
        } else {
            (s, seq![])
        },
        Event::ScrollCancelled => if s.state == AppState::CapturingScroll {
            (s.with_state(AppState::Hidden), seq![Command::ClearFrames, Command::SetVisible(false)])
        } else {
            (s, seq![])
        },
        Event::SelectionFinished(r) => if !selecting(s.state) {
            (s, seq![])
        } else if r.width == 0 || r.height == 0 {
            (s.with_state(AppState::Hidden), seq![Command::ClearSelection, Command::SetVisible(false)])
        } else if s.state == AppState::SelectingRegion {
            (
                s.with_state(AppState::Hidden),
                seq![Command::ClearSelection, Command::SetVisible(false), Command::CaptureAndSave(r)],
            )
        } else {
            (
                Controller { state: AppState::CapturingScroll, scroll_region: Some(r) },
                seq![
                    Command::ClearSelection,
                    Command::ClearFrames,
                    Command::SetFullscreen(false),
                    Command::Resize(350, 200),
                    Command::MovePanelBesideSelection,
                    Command::CaptureFirstFrame(r),
                ],
            )
        },
        Event::EscapePressed => (
            s.with_state(AppState::Hidden),
            seq![Command::SetVisible(false), Command::ClearSelection],
        ),
    }
}


impl Controller {
    /// In the background, with no scrolling capture under way.
    pub fn new() -> (r: Controller)
        ensures
            r.state == AppState::Hidden,
            r.scroll_region is None,
            r.well_formed(),
    {
        Controller { state: AppState::Hidden, scroll_region: None }
    }

    /// Applies `e` and returns the effects to carry out, in order.
    pub fn step(&mut self, e: Event) -> (r: Vec<Command>)
        ensures
            (*final(self), r@) == next(*old(self), e),
    {
        let s = *self;
        match e {
            Event::QuitChosen => vec![Command::RemoveTrayIcon, Command::CloseWindow],
            Event::CaptureRegionChosen => {
                self.state = AppState::SelectingRegion;
                vec![Command::SetVisible(true), Command::SetFullscreen(true), Command::Focus]
            },
            Event::CaptureScrollingChosen => {
                self.state = AppState::SelectingScrollRegion;
                vec![Command::SetVisible(true), Command::SetFullscreen(true), Command::Focus]
            },
            Event::SettingsChosen => {
                self.state = AppState::EditingSettings;
                vec![
                    Command::SetVisible(true),
                    Command::SetFullscreen(false),
                    Command::Resize(450, 250),
                    Command::Focus,
                ]
            },
            Event::AutostartToggled => {
                if s.state == AppState::EditingSettings {
                    vec![Command::ApplyAutostart]
                } else {
                    Vec::new()
                }
            },
            Event::SettingsSaved => {
                if s.state == AppState::EditingSettings {
                    self.state = AppState::Hidden;
                    vec![Command::SaveConfig, Command::SetVisible(false)]
                } else {
                    Vec::new()
                }
            },
            Event::SettingsCancelled => {
                if s.state == AppState::EditingSettings {
                    self.state = AppState::Hidden;
                    vec![Command::ReloadConfig, Command::SetVisible(false)]
                } else {
                    Vec::new()
                }
            },
            Event::ScrollRequested(kind) => {
                if s.state == AppState::CapturingScroll {
                    match s.scroll_region {
                        Some(r) => vec![Command::SetVisible(false), Command::ScrollAndCapture(kind, r)],
                        None => Vec::new(),
                    }
                } else {
                    Vec::new()
                }
            },
            Event::FinishRequested(frames) => {
                if s.state == AppState::CapturingScroll {
                    self.state = AppState::Hidden;
                    if frames > 0 {
                        vec![Command::StitchAndSave, Command::SetVisible(false)]
                    } else {
                        vec![Command::SetVisible(false)]
                    }
                } else {
                    Vec::new()
                }
            },
            Event::ScrollCancelled => {
                if s.state == AppState::CapturingScroll {
                    self.state = AppState::Hidden;
                    vec![Command::ClearFrames, Command::SetVisible(false)]
                } else {
                    Vec::new()
                }
            },
            Event::SelectionFinished(r) => {
                let selecting_now = s.state == AppState::SelectingRegion || s.state
                    == AppState::SelectingScrollRegion;
                if !selecting_now {
                    Vec::new()
                } else if r.width == 0 || r.height == 0 {
                    self.state = AppState::Hidden;
                    vec![Command::ClearSelection, Command::SetVisible(false)]
                } else if s.state == AppState::SelectingRegion {
                    self.state = AppState::Hidden;
                    vec![Command::ClearSelection, Command::SetVisible(false), Command::CaptureAndSave(r)]
                } else {
                    self.scroll_region = Some(r);
                    self.state = AppState::CapturingScroll;
                    vec![
                        Command::ClearSelection,
                        Command::ClearFrames,
                        Command::SetFullscreen(false),
                        Command::Resize(350, 200),
                        Command::MovePanelBesideSelection,
                        Command::CaptureFirstFrame(r),
                    ]
                }
            },
            Event::EscapePressed => {
                self.state = AppState::Hidden;
                vec![Command::SetVisible(false), Command::ClearSelection]
            },
        }
    }
}

impl AppState {
    /// Whether the window is redrawn on a timer in this state (the overlays
    /// are redrawn as the pointer moves instead).
    pub fn repaints_periodically(&self) -> (r: bool)
        ensures
            r == !selecting(*self),
    {
        match self {
            AppState::SelectingRegion | AppState::SelectingScrollRegion => false,
            _ => true,
        }
    }
}

impl Region {
    /// Whether the region lies inside a screen image of the given size.
    pub fn fits_within(&self, width: u32, height: u32) -> (r: bool)
        ensures
            r == (self.x + self.width <= width && self.y + self.height <= height),
    {
        (self.x as u64) + (self.width as u64) <= width as u64 && (self.y as u64) + (self.height as u64)
            <= height as u64
    }
}

/// How one scroll step is made: key presses, the pause after each, and how
/// long to wait for smooth scrolling to settle before capturing.
#[derive(Clone, Copy, Debug, PartialEq, Eq, Structural)]
pub struct ScrollPlan {
    pub presses: u32,
    pub pause_ms: u64,
    pub settle_ms: u64,
}

impl ScrollKind {
    pub open spec fn plan_spec(self) -> ScrollPlan {
        match self {
            ScrollKind::Page => ScrollPlan { presses: 1, pause_ms: 0, settle_ms: 500 },
            ScrollKind::Line => ScrollPlan { presses: 5, pause_ms: 30, settle_ms: 400 },
        }
    }

    /// Page Down once and half a second to settle; or the down arrow five
    /// times, 30 ms apart, and 400 ms to settle.
    pub fn plan(&self) -> (r: ScrollPlan)
        ensures
            r == self.plan_spec(),
    {
        match self {
            ScrollKind::Page => ScrollPlan { presses: 1, pause_ms: 0, settle_ms: 500 },
            ScrollKind::Line => ScrollPlan { presses: 5, pause_ms: 30, settle_ms: 400 },
        }
    }
}

/// Stepping keeps a region for every scrolling capture.
pub proof fn lemma_next_well_formed(s: Controller, e: Event)
    requires
        s.well_formed(),
    ensures
        next(s, e).0.well_formed(),
{
}

/// During a scrolling capture, both scroll buttons hide the panel, then scroll
/// and capture the capture's region.
pub proof fn lemma_scroll_buttons_capture(s: Controller, kind: ScrollKind)
    requires
        s.well_formed(),
        s.state == AppState::CapturingScroll,
    ensures
        next(s, Event::ScrollRequested(kind)) == (
            s,
            seq![Command::SetVisible(false), Command::ScrollAndCapture(kind, s.scroll_region.unwrap())],
        ),
{
}

/// The tray-menu choices act the same from every state, keep the scrolling
/// region, and ask for exactly these effects: the two capture choices show
/// the window full-screen and focus it for the selection overlay; Settings
/// shows it windowed at 450 by 250 and focuses it; Quit removes the tray icon
/// and closes, leaving the state as it was.
pub proof fn lemma_menu_choices(s: Controller)
    ensures
        next(s, Event::CaptureRegionChosen) == (
            Controller { state: AppState::SelectingRegion, scroll_region: s.scroll_region },
            seq![Command::SetVisible(true), Command::SetFullscreen(true), Command::Focus],
        ),
        next(s, Event::CaptureScrollingChosen) == (
            Controller { state: AppState::SelectingScrollRegion, scroll_region: s.scroll_region },
            seq![Command::SetVisible(true), Command::SetFullscreen(true), Command::Focus],
        ),
        next(s, Event::SettingsChosen) == (
            Controller { state: AppState::EditingSettings, scroll_region: s.scroll_region },
            seq![
                Command::SetVisible(true),
                Command::SetFullscreen(false),
                Command::Resize(450, 250),
                Command::Focus,
            ],
        ),
        next(s, Event::QuitChosen) == (s, seq![Command::RemoveTrayIcon, Command::CloseWindow]),
{
}

/// Finishing a scrolling capture that has frames stitches and saves them and
/// hides the panel; finishing one without frames only hides the panel.
/// Either way the tool goes back to the background.
pub proof fn lemma_finish_stitches_captured_frames(s: Controller, n: usize)
    requires
        s.state == AppState::CapturingScroll,
    ensures
        n >= 1 ==> next(s, Event::FinishRequested(n)) == (
            Controller { state: AppState::Hidden, scroll_region: s.scroll_region },
            seq![Command::StitchAndSave, Command::SetVisible(false)],
        ),
        n == 0 ==> next(s, Event::FinishRequested(n)) == (
            Controller { state: AppState::Hidden, scroll_region: s.scroll_region },
            seq![Command::SetVisible(false)],
        ),
        next(s, Event::ScrollCancelled) == (
            Controller { state: AppState::Hidden, scroll_region: s.scroll_region },
            seq![Command::ClearFrames, Command::SetVisible(false)],
        ),
{
}

/// In the settings window: ticking the start-on-login box applies it at
/// once; Save writes the settings and Cancel reads them back, and both hide
/// the window and return to the background.
pub proof fn lemma_settings_buttons(s: Controller)
    requires
        s.state == AppState::EditingSettings,
    ensures
        next(s, Event::AutostartToggled) == (s, seq![Command::ApplyAutostart]),
        next(s, Event::SettingsSaved) == (
            Controller { state: AppState::Hidden, scroll_region: s.scroll_region },
            seq![Command::SaveConfig, Command::SetVisible(false)],
        ),
        next(s, Event::SettingsCancelled) == (
            Controller { state: AppState::Hidden, scroll_region: s.scroll_region },
            seq![Command::ReloadConfig, Command::SetVisible(false)],
        ),
{
}

/// A region selected for a single capture is captured, saved and copied,
/// after the overlay is cleared and hidden; the tool returns to the background.
pub proof fn lemma_region_selection_captures(s: Controller, r: Region)
    requires
        s.state == AppState::SelectingRegion,
        r.width > 0,
        r.height > 0,
    ensures
        next(s, Event::SelectionFinished(r)) == (
            Controller { state: AppState::Hidden, scroll_region: s.scroll_region },
            seq![Command::ClearSelection, Command::SetVisible(false), Command::CaptureAndSave(r)],
        ),
{
}

/// Whenever the tool goes back to the background, its window is hidden.
pub proof fn lemma_back_to_background_hides(s: Controller, e: Event)
    requires
        s.state != AppState::Hidden,
        next(s, e).0.state == AppState::Hidden,
    ensures
        next(s, e).1.contains(Command::SetVisible(false)),
{
    let cmds = next(s, e).1;
    match e {
        Event::SettingsSaved | Event::SettingsCancelled => {
            assert(cmds[1] == Command::SetVisible(false));
        },
        Event::FinishRequested(n) => {
            if n > 0 {
                assert(cmds[1] == Command::SetVisible(false));
            } else {
                assert(cmds[0] == Command::SetVisible(false));
            }
        },
        Event::ScrollCancelled => {
            assert(cmds[1] == Command::SetVisible(false));
        },
        Event::SelectionFinished(r) => {
            assert(cmds[1] == Command::SetVisible(false));
        },
        Event::EscapePressed => {
            assert(cmds[0] == Command::SetVisible(false));
        },
        _ => {},
    }
}

/// An event that belongs to a window other than the one shown changes
/// nothing and asks for nothing.
pub proof fn lemma_foreign_events_ignored(s: Controller, e: Event)
    requires
        match e {
            Event::AutostartToggled | Event::SettingsSaved | Event::SettingsCancelled => s.state
                != AppState::EditingSettings,
            Event::ScrollRequested(_) | Event::FinishRequested(_) | Event::ScrollCancelled => s.state
                != AppState::CapturingScroll,
            Event::SelectionFinished(_) => !selecting(s.state),
            _ => false,
        },
    ensures
        next(s, e) == (s, Seq::<Command>::empty()),
{
}

/// A drag that spans no area, or Escape, leaves the overlay for the
/// background without capturing anything.
pub proof fn lemma_abandoned_selection(s: Controller, r: Region)
    requires
        selecting(s.state),
        r.width == 0 || r.height == 0,
    ensures
        next(s, Event::SelectionFinished(r)) == (
            s.with_state(AppState::Hidden),
            seq![Command::ClearSelection, Command::SetVisible(false)],
        ),
        next(s, Event::EscapePressed) == (
            s.with_state(AppState::Hidden),
            seq![Command::SetVisible(false), Command::ClearSelection],
        ),
{
}

/// Escape on the overlay always sends the tool back to the background,
/// hides the window and drops the drag in progress.
pub proof fn lemma_escape_hides(s: Controller)
    ensures
        next(s, Event::EscapePressed) == (
            Controller { state: AppState::Hidden, scroll_region: s.scroll_region },
            seq![Command::SetVisible(false), Command::ClearSelection],
        ),
{
}

/// A scrolling capture starts from an empty set of frames: choosing its
/// region clears the overlay, drops the frames, leaves full-screen for a 350
/// by 200 panel beside the selection, then captures the first frame of that
/// region; the region is kept.
pub proof fn lemma_scrolling_starts_empty(s: Controller, r: Region)
    requires
        s.state == AppState::SelectingScrollRegion,
        r.width > 0,
        r.height > 0,
    ensures
        next(s, Event::SelectionFinished(r)) == (
            Controller { state: AppState::CapturingScroll, scroll_region: Some(r) },
            seq![
                Command::ClearSelection,
                Command::ClearFrames,
                Command::SetFullscreen(false),
                Command::Resize(350, 200),
                Command::MovePanelBesideSelection,
                Command::CaptureFirstFrame(r),
            ],
        ),
{
}

/// While a scrolling capture goes on, its region does not change, and every
/// capture it asks for is of that region.
pub proof fn lemma_scroll_region_fixed(s: Controller, e: Event)
    requires
        s.well_formed(),
        s.state == AppState::CapturingScroll,
        next(s, e).0.state == AppState::CapturingScroll,
    ensures
        next(s, e).0.scroll_region == s.scroll_region,
        forall|i: int|
            0 <= i < next(s, e).1.len() ==> match #[trigger] next(s, e).1[i] {
                Command::ScrollAndCapture(_, r) => Some(r) == s.scroll_region,
                Command::CaptureFirstFrame(_) => false,
                Command::CaptureAndSave(_) => false,
                _ => true,
            },
{
}
} // verus!
