//! What is drawn, and how far the lists are scrolled.
use vstd::prelude::*;
use vstd::view::View as _;

use crate::app::App;
use crate::modes::View;
use crate::state::AppV;
use crate::ui::widgets::{UiState, UiV, ViewportHeights};

verus! {

/// The main part of the screen.
#[derive(Debug, Clone, Copy, PartialEq, Eq, Structural)]
pub enum Pane {
    /// There are no messages left.
    InboxZero,
    Groups { offset: usize },
    Emails { selected: Option<usize> },
    Thread { selected: Option<usize> },
    Body { scroll: usize },
}

/// The line at the bottom.
#[derive(Debug, Clone, Copy, PartialEq, Eq, Structural)]
pub enum BottomBar {
    Help,
    /// The filter being typed.
    Filter,
}

/// What is drawn, from the back to the front.
#[derive(Debug, Clone, Copy, PartialEq, Eq, Structural)]
pub struct Screen {
    pub pane: Pane,
    /// How far the undo history is scrolled, where it is on top.
    pub undo: Option<usize>,
    pub bar: BottomBar,
    pub confirm: bool,
    pub help: bool,
    /// The message with the spinner.
    pub busy: bool,
    /// The message alone.
    pub status: bool,
}

/// The farthest that a text is scrolled.
pub const MAX_TEXT_SCROLL: usize = 10000;

/// How far a list is scrolled so that the selected row is on screen.
pub open spec fn scrolled_to(offset: usize, selected: usize, height: usize) -> usize {
    if selected < offset {
        selected
    } else if selected >= offset + height {
        if selected >= height {
            (selected - height + 1) as usize
        } else {
            1
        }
    } else {
        offset
    }
}

/// How far a list is scrolled so that the selected row is on screen.
pub fn scroll_to(offset: usize, selected: usize, height: usize) -> (r: usize)
    requires
        selected < usize::MAX || height > 0,
    ensures
        r == scrolled_to(offset, selected, height),
{
    if selected < offset {
        selected
    } else if selected - offset >= height {
        selected.saturating_sub(height) + 1
    } else {
        offset
    }
}

/// The selected row of a list that has any height is on screen.
pub proof fn law_selected_row_is_on_screen(offset: usize, selected: usize, height: usize)
    requires
        height > 0,
    ensures
        scrolled_to(offset, selected, height) <= selected < scrolled_to(offset, selected, height)
            + height,
{
}

/// A list that shows the selected row is not scrolled.
pub proof fn law_scrolling_twice_is_scrolling_once(offset: usize, selected: usize, height: usize)
    requires
        height > 0,
    ensures
        scrolled_to(scrolled_to(offset, selected, height), selected, height) == scrolled_to(
            offset,
            selected,
            height,
        ),
{
}

/// Whether there are no messages left.
pub open spec fn is_inbox_zero(app: AppV) -> bool {
    app.groups.len() == 0 && app.emails_loaded
}

impl UiV {
    /// The state with the height of a view noted.
    pub open spec fn measured(self, view: View, height: usize) -> UiV {
        let h = self.viewport_heights;
        UiV {
            viewport_heights: match view {
                View::GroupList => ViewportHeights { group_list: height, ..h },
                View::EmailList => ViewportHeights { email_list: height, ..h },
                View::Thread => ViewportHeights { thread_view: height, ..h },
                View::UndoHistory => ViewportHeights { undo_history: height, ..h },
                View::EmailBody => ViewportHeights { text_view: height, ..h },
            },
            ..self
        }
    }

    /// The view behind the undo history.
    pub open spec fn background(previous: Option<View>) -> View {
        match previous {
            Some(View::EmailList) => View::EmailList,
            Some(View::Thread) => View::Thread,
            _ => View::GroupList,
        }
    }

    /// The state after drawing: the heights are noted and the lists scrolled. The undo
    /// history takes up `undo_height` rows with its border.
    pub open spec fn drawn(self, app: AppV, height: usize, undo_height: usize) -> UiV {
        match app.view {
            View::GroupList => if is_inbox_zero(app) {
                UiV {
                    celebration_frame: if self.celebration_frame == usize::MAX {
                        0
                    } else {
                        (self.celebration_frame + 1) as usize
                    },
                    ..self
                }
            } else {
                let s = self.measured(View::GroupList, height);
                UiV {
                    group_scroll_offset: scrolled_to(
                        s.group_scroll_offset,
                        app.selected_group,
                        height,
                    ),
                    ..s
                }
            },
            View::UndoHistory => {
                let rows: usize = if undo_height >= 2 {
                    (undo_height - 2) as usize
                } else {
                    0
                };
                let s = self.measured(UiV::background(app.previous_view), height).measured(
                    View::UndoHistory,
                    rows,
                );
                if rows == 0 && app.selected_undo >= s.undo_scroll_offset {
                    s
                } else {
                    UiV {
                        undo_scroll_offset: scrolled_to(
                            s.undo_scroll_offset,
                            app.selected_undo,
                            rows,
                        ),
                        ..s
                    }
                }
            },
            _ => self.measured(app.view, height),
        }
    }
}

/// The main part of the screen.
pub open spec fn pane_of(app: AppV, ui: UiV) -> Pane {
    let view = if app.view == View::UndoHistory {
        UiV::background(app.previous_view)
    } else {
        app.view
    };
    match view {
        View::EmailList => Pane::Emails { selected: app.selected_email },
        View::Thread => Pane::Thread { selected: app.selected_thread_email },
        View::EmailBody => Pane::Body {
            scroll: if app.text_view_scroll < MAX_TEXT_SCROLL {
                app.text_view_scroll
            } else {
                MAX_TEXT_SCROLL
            },
        },
        _ => if app.view == View::GroupList && is_inbox_zero(app) {
            Pane::InboxZero
        } else {
            Pane::Groups { offset: ui.group_scroll_offset }
        },
    }
}

/// What is drawn in a state, once the lists are scrolled.
pub open spec fn screen_of(app: AppV, ui: UiV) -> Screen {
    Screen {
        pane: pane_of(app, ui),
        undo: if app.view == View::UndoHistory {
            Some(ui.undo_scroll_offset)
        } else {
            None
        },
        bar: if ui.filter_input_active {
            BottomBar::Filter
        } else {
            BottomBar::Help
        },
        confirm: ui.confirm_action is Some,
        help: ui.showing_help,
        busy: ui.busy && ui.status_message is Some,
        status: !ui.busy && ui.confirm_action is None && ui.status_message is Some,
    }
}

/// Notes the height of a view.
fn measure(ui: &mut UiState, view: View, height: usize)
    ensures
        final(ui)@ == old(ui)@.measured(view, height),
{
    match view {
        View::GroupList => {
            ui.viewport_heights.group_list = height;
        },
        View::EmailList => {
            ui.viewport_heights.email_list = height;
        },
        View::Thread => {
            ui.viewport_heights.thread_view = height;
        },
        View::UndoHistory => {
            ui.viewport_heights.undo_history = height;
        },
        View::EmailBody => {
            ui.viewport_heights.text_view = height;
        },
    }
}

/// The view behind the undo history.
fn behind(previous: Option<View>) -> (r: View)
    ensures
        r == UiV::background(previous),
{
    match previous {
        Some(View::EmailList) => View::EmailList,
        Some(View::Thread) => View::Thread,
        _ => View::GroupList,
    }
}

/// Decides what is drawn in a pane of `height` rows, with the undo history in
/// `undo_height` rows with its border; notes the heights and scrolls the lists.
pub fn render(app: &App, ui: &mut UiState, height: usize, undo_height: usize) -> (r: Screen)
    requires
        app@.view == View::GroupList && !is_inbox_zero(app@) ==> app@.selected_group < usize::MAX
            || height > 0,
    ensures
        final(ui)@ == old(ui)@.drawn(app@, height, undo_height),
        r == screen_of(app@, old(ui)@.drawn(app@, height, undo_height)),
{
    let zero: bool = app.groups.len() == 0 && app.has_loaded_emails();
    match app.view {
        View::GroupList => {
            if zero {
                ui.tick_celebration();
            } else {
                measure(ui, View::GroupList, height);
                ui.group_scroll_offset = scroll_to(
                    ui.group_scroll_offset,
                    app.selected_group,
                    height,
                );
            }
        },
        View::UndoHistory => {
            let rows: usize = undo_height.saturating_sub(2);
            measure(ui, behind(app.previous_view()), height);
            measure(ui, View::UndoHistory, rows);
            if rows > 0 || app.selected_undo < ui.undo_scroll_offset {
                ui.undo_scroll_offset = scroll_to(ui.undo_scroll_offset, app.selected_undo, rows);
            }
        },
        _ => measure(ui, app.view, height),
    }
    let view: View = if app.view == View::UndoHistory {
        behind(app.previous_view())
    } else {
        app.view
    };
    let pane: Pane = match view {
        View::EmailList => Pane::Emails { selected: app.selected_email },
        View::Thread => Pane::Thread { selected: app.selected_thread_email },
        View::EmailBody => Pane::Body {
            scroll: if app.text_view_scroll < MAX_TEXT_SCROLL {
                app.text_view_scroll
            } else {
                MAX_TEXT_SCROLL
            },
        },
        _ => if app.view == View::GroupList && zero {
            Pane::InboxZero
        } else {
            Pane::Groups { offset: ui.group_scroll_offset }
        },
    };
    Screen {
        pane,
        undo: if app.view == View::UndoHistory {
            Some(ui.undo_scroll_offset)
        } else {
            None
        },
        bar: if ui.is_filter_input_active() {
            BottomBar::Filter
        } else {
            BottomBar::Help
        },
        confirm: ui.is_confirming(),
        help: ui.is_showing_help(),
        busy: ui.is_busy() && ui.has_status(),
        status: !ui.is_busy() && !ui.is_confirming() && ui.has_status(),
    }
}

} // verus!
