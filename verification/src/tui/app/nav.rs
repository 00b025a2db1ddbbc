//! Moving through the lists, the overlays and the info panel.
use vstd::prelude::*;

use crate::source::ProcessSource;
use crate::text::push_str;
use crate::tui::theme::{theme_label, theme_name, THEME_COUNT};

use super::config::{CHART_COUNT, COLUMN_COUNT};
use super::listing::{last_row, pid_at, path_at};
use super::files::entries_view;
use super::state::opt_text;
use super::{App, MainView};

verus! {

/// The number of detail rows of the selected process or file entry.
pub open spec fn detail_rows(a: App) -> nat {
    match a.main_view {
        MainView::Processes => if a.selected_index < a.filtered_indices@.len()
            && a.filtered_indices@[a.selected_index as int] < a.snapshots@.len() {
            a.snapshots@[a.filtered_indices@[a.selected_index as int] as int].resources@.len()
        } else {
            0
        },
        MainView::Files => if a.file_selected_index < a.filtered_file_indices@.len()
            && a.filtered_file_indices@[a.file_selected_index as int] < a.file_entries@.len() {
            a.file_entries@[a.filtered_file_indices@[a.file_selected_index as int] as int].openers@.len()
        } else {
            0
        },
    }
}

/// Whether something is selected in the current view.
pub open spec fn has_selection(a: App) -> bool {
    match a.main_view {
        MainView::Processes => pid_at(a.snapshots@, a.filtered_indices@, a.selected_index) is Some,
        MainView::Files => path_at(entries_view(a.file_entries@), a.filtered_file_indices@, a.file_selected_index) is Some,
    }
}

/// Number of tabs of the info panel.
pub const INFO_TABS: usize = 4;

/// The environment tab of the info panel.
pub const ENV_TAB: usize = 3;

/// The state after moving up: the detail row, or the selection of the
/// current view with its anchor, one up, stopping at the top.
#[verifier::opaque]
pub open spec fn moved_up(a: App, b: App) -> bool {
    if a.detail_open {
        b == (App {
            detail_selected: if a.detail_selected > 0 { (a.detail_selected - 1) as usize } else { 0 },
            ..a
        })
    } else if a.main_view == MainView::Processes {
        b == (if a.selected_index > 0 {
            App {
                selected_index: (a.selected_index - 1) as usize,
                process_anchor: pid_at(a.snapshots@, a.filtered_indices@, (a.selected_index - 1) as usize),
                ..a
            }
        } else {
            a
        })
    } else if a.file_selected_index > 0 {
        let sel = (a.file_selected_index - 1) as usize;
        &&& opt_text(b.file_anchor) == path_at(entries_view(a.file_entries@), a.filtered_file_indices@, sel)
        &&& b == (App { file_selected_index: sel, file_anchor: b.file_anchor, ..a })
    } else {
        b == a
    }
}

/// The state after moving down: the detail row, or the selection of the
/// current view with its anchor, one down, stopping at the bottom.
#[verifier::opaque]
pub open spec fn moved_down(a: App, b: App) -> bool {
    if a.detail_open {
        b == (App {
            detail_selected: if a.detail_selected < last_row(detail_rows(a)) {
                (a.detail_selected + 1) as usize
            } else {
                a.detail_selected
            },
            ..a
        })
    } else if a.main_view == MainView::Processes {
        b == (if a.selected_index + 1 < a.filtered_indices@.len() {
            App {
                selected_index: (a.selected_index + 1) as usize,
                process_anchor: pid_at(a.snapshots@, a.filtered_indices@, (a.selected_index + 1) as usize),
                ..a
            }
        } else {
            a
        })
    } else if a.file_selected_index + 1 < a.filtered_file_indices@.len() {
        let sel = (a.file_selected_index + 1) as usize;
        &&& opt_text(b.file_anchor) == path_at(entries_view(a.file_entries@), a.filtered_file_indices@, sel)
        &&& b == (App { file_selected_index: sel, file_anchor: b.file_anchor, ..a })
    } else {
        b == a
    }
}

/// The state after opening the info panel: unchanged when nothing is
/// selected, else open on its first tab, scrolled to the top, with the
/// detail that was read.
#[verifier::opaque]
pub open spec fn info_opened(a: App, b: App) -> bool {
    if pid_at(a.snapshots@, a.filtered_indices@, a.selected_index) is Some {
        b == (App { info_detail: b.info_detail, info_open: true, info_tab: 0, info_scroll: 0, ..a })
    } else {
        b == a
    }
}

/// The state after scrolling the info panel up: on the environment tab
/// the previous variable is selected, elsewhere the panel scrolls; both
/// stop at the top.
#[verifier::opaque]
pub open spec fn info_scrolled_up(a: App, b: App) -> bool {
    if a.info_tab == ENV_TAB {
        b == (App {
            info_env_selected: if a.info_env_selected > 0 { (a.info_env_selected - 1) as usize } else { 0 },
            ..a
        })
    } else {
        b == (App { info_scroll: if a.info_scroll > 0 { (a.info_scroll - 1) as usize } else { 0 }, ..a })
    }
}

/// The state after scrolling the info panel down: on the environment tab
/// the next variable is selected, stopping at the last; elsewhere the
/// panel scrolls by one.
#[verifier::opaque]
pub open spec fn info_scrolled_down(a: App, b: App) -> bool {
    if a.info_tab == ENV_TAB {
        b == (App {
            info_env_selected: match a.info_detail {
                Some(d) => if a.info_env_selected < last_row(d.environment@.len()) {
                    (a.info_env_selected + 1) as usize
                } else {
                    a.info_env_selected
                },
                None => a.info_env_selected,
            },
            ..a
        })
    } else {
        b == (App { info_scroll: (a.info_scroll + 1) as usize, ..a })
    }
}

/// The state after showing or hiding the selected column (a selection
/// past the last column changes nothing).
#[verifier::opaque]
pub open spec fn column_toggled(a: App, b: App) -> bool {
    &&& b.column_config.enabled@ == (if a.config_selected < COLUMN_COUNT {
        a.column_config.enabled@.update(a.config_selected as int, !a.column_config.enabled@[a.config_selected as int])
    } else {
        a.column_config.enabled@
    })
    &&& b == (App { column_config: b.column_config, ..a })
}

impl App {
    /// Moves the selection (or the detail row, when the detail is open) up
    /// by one, stopping at the top.
    pub fn move_up(&mut self)
        requires
            old(self).wf(),
        ensures
            final(self).wf(),
            moved_up(*old(self), *final(self)),
    {
        proof { reveal(moved_up); }
        if self.detail_open {
            if self.detail_selected > 0 {
                self.detail_selected = self.detail_selected - 1;
            }
            return;
        }
        match self.main_view {
            MainView::Processes => {
                if self.selected_index > 0 {
                    self.selected_index = self.selected_index - 1;
                    self.update_process_anchor();
                }
            },
            MainView::Files => {
                if self.file_selected_index > 0 {
                    self.file_selected_index = self.file_selected_index - 1;
                    self.update_file_anchor();
                }
            },
        }
    }

    /// Moves the selection (or the detail row, when the detail is open)
    /// down by one, stopping at the bottom.
    #[verifier::rlimit(40)]
    pub fn move_down(&mut self)
        requires
            old(self).wf(),
        ensures
            final(self).wf(),
            moved_down(*old(self), *final(self)),
    {
        proof { reveal(moved_down); }
        if self.detail_open {
            let max: usize = match self.main_view {
                MainView::Processes => match self.selected_snapshot() {
                    Some(s) => s.resources.len(),
                    None => 0,
                },
                MainView::Files => match self.selected_file_entry() {
                    Some(e) => e.openers.len(),
                    None => 0,
                },
            };
            let last = if max == 0 { 0 } else { max - 1 };
            if self.detail_selected < last {
                self.detail_selected = self.detail_selected + 1;
            }
            return;
        }
        match self.main_view {
            MainView::Processes => {
                if !self.filtered_indices.is_empty() && self.selected_index < self.filtered_indices.len() - 1 {
                    self.selected_index = self.selected_index + 1;
                    self.update_process_anchor();
                }
            },
            MainView::Files => {
                if !self.filtered_file_indices.is_empty()
                    && self.file_selected_index < self.filtered_file_indices.len() - 1 {
                    self.file_selected_index = self.file_selected_index + 1;
                    self.update_file_anchor();
                }
            },
        }
    }

    /// Scrolls the open detail four columns left, stopping at zero.
    pub fn scroll_left(&mut self)
        ensures
            *final(self) == (App {
                detail_h_scroll: if old(self).detail_open && old(self).detail_h_scroll > 0 {
                    if old(self).detail_h_scroll >= 4 { (old(self).detail_h_scroll - 4) as usize } else { 0 }
                } else {
                    old(self).detail_h_scroll
                },
                ..*old(self)
            }),
    {
        if self.detail_open && self.detail_h_scroll > 0 {
            self.detail_h_scroll = if self.detail_h_scroll >= 4 { self.detail_h_scroll - 4 } else { 0 };
        }
    }

    /// Scrolls the open detail four columns right.
    pub fn scroll_right(&mut self)
        requires
            old(self).detail_open ==> old(self).detail_h_scroll + 4 <= usize::MAX,
        ensures
            *final(self) == (App {
                detail_h_scroll: if old(self).detail_open { (old(self).detail_h_scroll + 4) as usize } else { old(self).detail_h_scroll },
                ..*old(self)
            }),
    {
        if self.detail_open {
            self.detail_h_scroll = self.detail_h_scroll + 4;
        }
    }

    /// Opens the detail of the selection, at its first row, when something
    /// is selected.
    pub fn open_detail(&mut self)
        ensures
            has_selection(*old(self)) ==> *final(self) == (App {
                detail_open: true,
                detail_selected: 0,
                detail_h_scroll: 0,
                ..*old(self)
            }),
            !has_selection(*old(self)) ==> *final(self) == *old(self),
    {
        let has_content = match self.main_view {
            MainView::Processes => self.selected_snapshot().is_some(),
            MainView::Files => self.selected_file_entry().is_some(),
        };
        if has_content {
            self.detail_open = true;
            self.detail_selected = 0;
            self.detail_h_scroll = 0;
        }
    }

    /// Closes the detail.
    pub fn close_detail(&mut self)
        ensures
            *final(self) == (App { detail_open: false, detail_selected: 0, detail_h_scroll: 0, ..*old(self) }),
    {
        self.detail_open = false;
        self.detail_selected = 0;
        self.detail_h_scroll = 0;
    }

    /// Opens the theme picker.
    pub fn open_theme_picker(&mut self)
        ensures
            *final(self) == (App { theme_open: true, ..*old(self) }),
    {
        self.theme_open = true;
    }

    /// Closes the theme picker and names the chosen theme in the status line.
    pub fn close_theme_picker(&mut self)
        requires
            old(self).wf(),
        ensures
            final(self).wf(),
            final(self).status_message is Some,
            final(self).status_message.unwrap()@ == "Theme: "@ + theme_label(old(self).theme_index as int),
            *final(self) == (App { theme_open: false, status_message: final(self).status_message, ..*old(self) }),
    {
        self.theme_open = false;
        let mut msg = String::new();
        push_str(&mut msg, "Theme: ");
        push_str(&mut msg, theme_name(self.theme_index));
        self.status_message = Some(msg);
    }

    /// Picks the previous theme, stopping at the first.
    pub fn theme_move_up(&mut self)
        ensures
            *final(self) == (App {
                theme_index: if old(self).theme_index > 0 { (old(self).theme_index - 1) as usize } else { 0 },
                ..*old(self)
            }),
    {
        if self.theme_index > 0 {
            self.theme_index = self.theme_index - 1;
        }
    }

    /// Picks the next theme, stopping at the last.
    pub fn theme_move_down(&mut self)
        requires
            old(self).wf(),
        ensures
            final(self).wf(),
            *final(self) == (App {
                theme_index: if old(self).theme_index + 1 < THEME_COUNT { (old(self).theme_index + 1) as usize } else { old(self).theme_index },
                ..*old(self)
            }),
    {
        if self.theme_index < THEME_COUNT - 1 {
            self.theme_index = self.theme_index + 1;
        }
    }

    /// The name of the current theme.
    pub fn current_theme_name(&self) -> (r: &'static str)
        requires
            self.wf(),
        ensures
            r@ == theme_label(self.theme_index as int),
    {
        theme_name(self.theme_index)
    }

    /// Opens the chart configuration at its first row.
    pub fn open_chart_config(&mut self)
        ensures
            *final(self) == (App { chart_config_open: true, chart_config_selected: 0, ..*old(self) }),
    {
        self.chart_config_open = true;
        self.chart_config_selected = 0;
    }

    /// Closes the chart configuration.
    pub fn close_chart_config(&mut self)
        ensures
            *final(self) == (App { chart_config_open: false, ..*old(self) }),
    {
        self.chart_config_open = false;
    }

    /// Moves up in the chart configuration, stopping at the top.
    pub fn chart_config_move_up(&mut self)
        ensures
            *final(self) == (App {
                chart_config_selected: if old(self).chart_config_selected > 0 { (old(self).chart_config_selected - 1) as usize } else { 0 },
                ..*old(self)
            }),
    {
        if self.chart_config_selected > 0 {
            self.chart_config_selected = self.chart_config_selected - 1;
        }
    }

    /// Moves down in the chart configuration, stopping at the last chart.
    pub fn chart_config_move_down(&mut self)
        ensures
            *final(self) == (App {
                chart_config_selected: if old(self).chart_config_selected + 1 < CHART_COUNT {
                    (old(self).chart_config_selected + 1) as usize
                } else {
                    old(self).chart_config_selected
                },
                ..*old(self)
            }),
    {
        if self.chart_config_selected < CHART_COUNT - 1 {
            self.chart_config_selected = self.chart_config_selected + 1;
        }
    }

    /// Shows or hides the selected chart.
    pub fn chart_config_toggle_selected(&mut self)
        requires
            old(self).wf(),
        ensures
            final(self).wf(),
            old(self).chart_config_selected < CHART_COUNT ==> final(self).chart_config.enabled@
                == old(self).chart_config.enabled@.update(
                    old(self).chart_config_selected as int,
                    !old(self).chart_config.enabled@[old(self).chart_config_selected as int],
                ),
            old(self).chart_config_selected >= CHART_COUNT ==> final(self).chart_config.enabled@ == old(self).chart_config.enabled@,
            *final(self) == (App { chart_config: final(self).chart_config, ..*old(self) }),
    {
        self.chart_config.toggle(self.chart_config_selected);
    }

    /// Opens the info panel for the selected process, with the detail that
    /// `source` gives for it (none when the source fails), on the first tab.
    /// The parent is named by the first listed process with the parent pid,
    /// or "?".
    pub fn open_info<S: ProcessSource>(&mut self, source: &S)
        requires
            old(self).wf(),
        ensures
            final(self).wf(),
            info_opened(*old(self), *final(self)),
    {
        proof { reveal(info_opened); }
        let sel = self.selected_snapshot();
        match sel {
            Some(snap) => {
                let pid = snap.pid;
                let ppid = snap.ppid;
                let parent = parent_name(&self.snapshots, ppid);
                let detail = match source.process_detail(pid, parent.as_str()) {
                    Ok(d) => Some(d),
                    Err(_) => None,
                };
                self.info_detail = detail;
                self.info_open = true;
                self.info_tab = 0;
                self.info_scroll = 0;
            },
            None => {},
        }
    }

    /// Closes the info panel and drops its detail.
    pub fn close_info(&mut self)
        ensures
            *final(self) == (App { info_open: false, info_detail: None, ..*old(self) }),
    {
        self.info_open = false;
        self.info_detail = None;
    }

    /// Shows tab `tab` of the info panel, scrolled to the top; a tab past
    /// the last changes nothing.
    pub fn info_set_tab(&mut self, tab: usize)
        ensures
            tab < INFO_TABS ==> *final(self) == (App { info_tab: tab, info_scroll: 0, info_env_selected: 0, ..*old(self) }),
            tab >= INFO_TABS ==> *final(self) == *old(self),
    {
        if tab < INFO_TABS {
            self.info_tab = tab;
            self.info_scroll = 0;
            self.info_env_selected = 0;
        }
    }

    /// Shows the next tab, after the last the first.
    pub fn info_next_tab(&mut self)
        requires
            old(self).info_tab < INFO_TABS,
        ensures
            *final(self) == (App {
                info_tab: ((old(self).info_tab + 1) % (INFO_TABS as int)) as usize,
                info_scroll: 0,
                info_env_selected: 0,
                ..*old(self)
            }),
    {
        self.info_set_tab((self.info_tab + 1) % INFO_TABS);
    }

    /// Shows the previous tab, before the first the last.
    pub fn info_prev_tab(&mut self)
        requires
            old(self).info_tab < INFO_TABS,
        ensures
            *final(self) == (App {
                info_tab: ((old(self).info_tab + 3) % (INFO_TABS as int)) as usize,
                info_scroll: 0,
                info_env_selected: 0,
                ..*old(self)
            }),
    {
        self.info_set_tab((self.info_tab + 3) % INFO_TABS);
    }

    /// Scrolls the info panel up; on the environment tab, selects the
    /// previous variable.
    pub fn info_scroll_up(&mut self)
        ensures
            info_scrolled_up(*old(self), *final(self)),
    {
        proof { reveal(info_scrolled_up); }
        if self.info_tab == ENV_TAB {
            if self.info_env_selected > 0 {
                self.info_env_selected = self.info_env_selected - 1;
            }
        } else if self.info_scroll > 0 {
            self.info_scroll = self.info_scroll - 1;
        }
    }

    /// Scrolls the info panel down; on the environment tab, selects the
    /// next variable, stopping at the last.
    pub fn info_scroll_down(&mut self)
        requires
            old(self).info_tab != ENV_TAB ==> old(self).info_scroll < usize::MAX,
        ensures
            info_scrolled_down(*old(self), *final(self)),
    {
        proof { reveal(info_scrolled_down); }
        if self.info_tab == ENV_TAB {
            let bump = match &self.info_detail {
                Some(d) => {
                    let n = d.environment.len();
                    let last = if n == 0 { 0 } else { n - 1 };
                    self.info_env_selected < last
                },
                None => false,
            };
            if bump {
                self.info_env_selected = self.info_env_selected + 1;
            }
        } else {
            self.info_scroll = self.info_scroll + 1;
        }
    }

    /// Opens the help at its top.
    pub fn open_help(&mut self)
        ensures
            *final(self) == (App { help_open: true, help_scroll: 0, ..*old(self) }),
    {
        self.help_open = true;
        self.help_scroll = 0;
    }

    /// Closes the help.
    pub fn close_help(&mut self)
        ensures
            *final(self) == (App { help_open: false, ..*old(self) }),
    {
        self.help_open = false;
    }

    /// Scrolls the help up, stopping at the top.
    pub fn help_scroll_up(&mut self)
        ensures
            *final(self) == (App {
                help_scroll: if old(self).help_scroll > 0 { (old(self).help_scroll - 1) as usize } else { 0 },
                ..*old(self)
            }),
    {
        if self.help_scroll > 0 {
            self.help_scroll = self.help_scroll - 1;
        }
    }

    /// Scrolls the help down.
    pub fn help_scroll_down(&mut self)
        requires
            old(self).help_scroll < usize::MAX,
        ensures
            *final(self) == (App { help_scroll: (old(self).help_scroll + 1) as usize, ..*old(self) }),
    {
        self.help_scroll = self.help_scroll + 1;
    }

    /// Opens the column configuration at its first row.
    pub fn open_config(&mut self)
        ensures
            *final(self) == (App { config_open: true, config_selected: 0, ..*old(self) }),
    {
        self.config_open = true;
        self.config_selected = 0;
    }

    /// Closes the column configuration.
    pub fn close_config(&mut self)
        ensures
            *final(self) == (App { config_open: false, ..*old(self) }),
    {
        self.config_open = false;
    }

    /// Moves up in the column configuration, stopping at the top.
    pub fn config_move_up(&mut self)
        ensures
            *final(self) == (App {
                config_selected: if old(self).config_selected > 0 { (old(self).config_selected - 1) as usize } else { 0 },
                ..*old(self)
            }),
    {
        if self.config_selected > 0 {
            self.config_selected = self.config_selected - 1;
        }
    }

    /// Moves down in the column configuration, stopping at the last column.
    pub fn config_move_down(&mut self)
        ensures
            *final(self) == (App {
                config_selected: if old(self).config_selected + 1 < COLUMN_COUNT {
                    (old(self).config_selected + 1) as usize
                } else {
                    old(self).config_selected
                },
                ..*old(self)
            }),
    {
        if self.config_selected < COLUMN_COUNT - 1 {
            self.config_selected = self.config_selected + 1;
        }
    }

    /// Shows or hides the selected column.
    pub fn config_toggle_selected(&mut self)
        requires
            old(self).wf(),
        ensures
            final(self).wf(),
            column_toggled(*old(self), *final(self)),
    {
        proof { reveal(column_toggled); }
        self.column_config.toggle(self.config_selected);
    }
}

/// The name of the first process with pid `ppid`, or "?".
pub fn parent_name(snapshots: &Vec<crate::models::ProcessSnapshot>, ppid: i32) -> (r: String)
    ensures
        (exists|k: int| 0 <= k < snapshots@.len() && snapshots@[k].pid == ppid) ==> {
            let k = choose|k: int| 0 <= k < snapshots@.len() && snapshots@[k].pid == ppid
                && forall|m: int| 0 <= m < k ==> snapshots@[m].pid != ppid;
            r@ == snapshots@[k].name@
        },
        !(exists|k: int| 0 <= k < snapshots@.len() && snapshots@[k].pid == ppid) ==> r@ == "?"@,
{
    let mut i: usize = 0;
    while i < snapshots.len()
        invariant
            i <= snapshots@.len(),
            forall|m: int| 0 <= m < i ==> snapshots@[m].pid != ppid,
        decreases snapshots@.len() - i,
    {
        if snapshots[i].pid == ppid {
            let ghost k = choose|k: int| 0 <= k < snapshots@.len() && snapshots@[k].pid == ppid
                && forall|m: int| 0 <= m < k ==> snapshots@[m].pid != ppid;
            assert(k == i) by {
                assert(0 <= i < snapshots@.len() && snapshots@[i as int].pid == ppid
                    && forall|m: int| 0 <= m < i ==> snapshots@[m].pid != ppid);
                if k < i {
                } else if k > i {
                    assert(snapshots@[i as int].pid != ppid);
                }
            }
            return snapshots[i].name.clone();
        }
        i = i + 1;
    }
    proof {
        reveal_strlit("?");
    }
    "?".to_string()
}

} // verus!
