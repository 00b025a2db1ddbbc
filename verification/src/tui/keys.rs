//! What a key press does: the decision from the state of the explorer and
//! the key to a command, and the command carried out.
use vstd::prelude::*;

use crate::source::ProcessSource;
use crate::text::push_str;
use crate::tui::app::config::COLUMN_COUNT;
use crate::tui::app::nav::{
    column_toggled, has_selection, info_opened, info_scrolled_down, info_scrolled_up, moved_down, moved_up,
    INFO_TABS,
};
use crate::tui::app::search::{char_deleted, char_typed, lookup_answered, next_match_selected, search_cleared};
use crate::tui::app::sorting::{sort_cycled, sort_reversed};
use crate::tui::app::state::{refreshed, show_all_toggled};
use crate::tui::app::stats::summary_toggled;
use crate::tui::app::{App, InputMode, MainView};
use crate::tui::theme::{theme_label, THEME_COUNT};

verus! {

/// A key, as the terminal reports it.
#[derive(Debug, Clone, Copy, PartialEq, Eq, Structural)]
pub enum Key {
    Char(char),
    Up,
    Down,
    Left,
    Right,
    Enter,
    Esc,
    Tab,
    BackTab,
    Backspace,
    Other,
}

/// What a key asks the explorer to do.
#[derive(Debug, Clone, Copy, PartialEq, Eq, Structural)]
pub enum Command {
    Nothing,
    Quit,
    ResetMain,
    MoveUp,
    MoveDown,
    EnterOrClear,
    NextMatch,
    StartSearch,
    ToggleView,
    OpenConfig,
    StartLookup,
    Refresh,
    OpenInfo,
    ToggleSummary,
    OpenHelp,
    OpenTheme,
    CycleSort,
    ReverseSort,
    ToggleShowAll,
    YankPath,
    CloseDetail,
    ScrollLeft,
    ScrollRight,
    CloseConfig,
    ConfigUp,
    ConfigDown,
    ConfigToggle,
    CloseInfo,
    InfoTab(usize),
    InfoNext,
    InfoPrev,
    InfoUp,
    InfoDown,
    YankEnv,
    CloseHelp,
    HelpUp,
    HelpDown,
    CloseTheme,
    ThemeUp,
    ThemeDown,
    CancelSearch,
    ConfirmSearch,
    DeleteChar,
    TypeChar(char),
    CancelLookup,
    RunLookup,
}

/// What is left to do outside: copying to the clipboard.
#[derive(Debug, Clone, Copy, PartialEq, Eq, Structural)]
pub enum Effect {
    Done,
    CopyPath,
    CopyEnv,
}

/// The command of a key in the main list.
pub open spec fn main_command(a: App, key: Key, ctrl: bool) -> Command {
    match key {
        Key::Char('q') => Command::Quit,
        Key::Esc => Command::ResetMain,
        Key::Char('c') => if ctrl { Command::Quit } else { Command::OpenConfig },
        Key::Up | Key::Char('k') => Command::MoveUp,
        Key::Down | Key::Char('j') => Command::MoveDown,
        Key::Enter => Command::EnterOrClear,
        Key::Char('n') => Command::NextMatch,
        Key::Char('/') => Command::StartSearch,
        Key::Char('v') => Command::ToggleView,
        Key::Char('r') => if a.main_view == MainView::Processes { Command::StartLookup } else { Command::Nothing },
        Key::Char('R') => Command::Refresh,
        Key::Char('i') => Command::OpenInfo,
        Key::Char('g') => Command::ToggleSummary,
        Key::Char('?') => Command::OpenHelp,
        Key::Char('t') => Command::OpenTheme,
        Key::Char('s') => Command::CycleSort,
        Key::Char('S') => Command::ReverseSort,
        Key::Char('a') => Command::ToggleShowAll,
        Key::Char('y') => if a.main_view == MainView::Files { Command::YankPath } else { Command::Nothing },
        _ => Command::Nothing,
    }
}

/// The command of a key in the open detail.
pub open spec fn detail_command(key: Key, ctrl: bool) -> Command {
    match key {
        Key::Char('q') | Key::Esc => Command::CloseDetail,
        Key::Char('c') => if ctrl { Command::Quit } else { Command::Nothing },
        Key::Up | Key::Char('k') => Command::MoveUp,
        Key::Down | Key::Char('j') => Command::MoveDown,
        Key::Left | Key::Char('h') => Command::ScrollLeft,
        Key::Right | Key::Char('l') => Command::ScrollRight,
        Key::Char('y') => Command::YankPath,
        _ => Command::Nothing,
    }
}

/// The command of a key in the column configuration.
pub open spec fn config_command(key: Key, ctrl: bool) -> Command {
    match key {
        Key::Char('q') | Key::Esc | Key::Char('c') => Command::CloseConfig,
        Key::Char('x') => if ctrl { Command::Quit } else { Command::Nothing },
        Key::Up | Key::Char('k') => Command::ConfigUp,
        Key::Down | Key::Char('j') => Command::ConfigDown,
        Key::Enter | Key::Char(' ') => Command::ConfigToggle,
        _ => Command::Nothing,
    }
}

/// The command of a key in the info panel.
pub open spec fn info_command(key: Key) -> Command {
    match key {
        Key::Char('q') | Key::Esc | Key::Char('i') => Command::CloseInfo,
        Key::Char('1') => Command::InfoTab(0),
        Key::Char('2') => Command::InfoTab(1),
        Key::Char('3') => Command::InfoTab(2),
        Key::Char('4') => Command::InfoTab(3),
        Key::Tab => Command::InfoNext,
        Key::BackTab => Command::InfoPrev,
        Key::Up | Key::Char('k') => Command::InfoUp,
        Key::Down | Key::Char('j') => Command::InfoDown,
        Key::Char('y') => Command::YankEnv,
        _ => Command::Nothing,
    }
}

/// The command of a key in the help.
pub open spec fn help_command(key: Key) -> Command {
    match key {
        Key::Char('q') | Key::Esc | Key::Char('?') => Command::CloseHelp,
        Key::Up | Key::Char('k') => Command::HelpUp,
        Key::Down | Key::Char('j') => Command::HelpDown,
        _ => Command::Nothing,
    }
}

/// The command of a key in the theme picker.
pub open spec fn theme_command(key: Key) -> Command {
    match key {
        Key::Char('q') | Key::Esc | Key::Char('t') | Key::Enter => Command::CloseTheme,
        Key::Up | Key::Char('k') => Command::ThemeUp,
        Key::Down | Key::Char('j') => Command::ThemeDown,
        _ => Command::Nothing,
    }
}

/// The command of a key while typing a search.
pub open spec fn search_command(key: Key) -> Command {
    match key {
        Key::Esc => Command::CancelSearch,
        Key::Enter => Command::ConfirmSearch,
        Key::Backspace => Command::DeleteChar,
        Key::Char(c) => Command::TypeChar(c),
        _ => Command::Nothing,
    }
}

/// The command of a key while typing a path to look up.
pub open spec fn lookup_command(key: Key) -> Command {
    match key {
        Key::Esc => Command::CancelLookup,
        Key::Enter => Command::RunLookup,
        Key::Backspace => Command::DeleteChar,
        Key::Char(c) => Command::TypeChar(c),
        _ => Command::Nothing,
    }
}

/// The command of a key: by input mode, then by the overlay on top (info
/// panel, help, theme picker, column configuration, detail), else the
/// main list.
pub open spec fn command_of(a: App, key: Key, ctrl: bool) -> Command {
    match a.input_mode {
        InputMode::Normal => if a.info_open {
            info_command(key)
        } else if a.help_open {
            help_command(key)
        } else if a.theme_open {
            theme_command(key)
        } else if a.config_open {
            config_command(key, ctrl)
        } else if a.detail_open {
            detail_command(key, ctrl)
        } else {
            main_command(a, key, ctrl)
        },
        InputMode::Search => search_command(key),
        InputMode::ReverseLookup => lookup_command(key),
    }
}

/// The command of a key.
pub fn key_command(app: &App, key: Key, ctrl: bool) -> (c: Command)
    ensures
        c == command_of(*app, key, ctrl),
{
    match app.input_mode {
        InputMode::Normal => {
            if app.info_open {
                match key {
                    Key::Char('q') | Key::Esc | Key::Char('i') => Command::CloseInfo,
                    Key::Char('1') => Command::InfoTab(0),
                    Key::Char('2') => Command::InfoTab(1),
                    Key::Char('3') => Command::InfoTab(2),
                    Key::Char('4') => Command::InfoTab(3),
                    Key::Tab => Command::InfoNext,
                    Key::BackTab => Command::InfoPrev,
                    Key::Up | Key::Char('k') => Command::InfoUp,
                    Key::Down | Key::Char('j') => Command::InfoDown,
                    Key::Char('y') => Command::YankEnv,
                    _ => Command::Nothing,
                }
            } else if app.help_open {
                match key {
                    Key::Char('q') | Key::Esc | Key::Char('?') => Command::CloseHelp,
                    Key::Up | Key::Char('k') => Command::HelpUp,
                    Key::Down | Key::Char('j') => Command::HelpDown,
                    _ => Command::Nothing,
                }
            } else if app.theme_open {
                match key {
                    Key::Char('q') | Key::Esc | Key::Char('t') | Key::Enter => Command::CloseTheme,
                    Key::Up | Key::Char('k') => Command::ThemeUp,
                    Key::Down | Key::Char('j') => Command::ThemeDown,
                    _ => Command::Nothing,
                }
            } else if app.config_open {
                match key {
                    Key::Char('q') | Key::Esc | Key::Char('c') => Command::CloseConfig,
                    Key::Char('x') => if ctrl { Command::Quit } else { Command::Nothing },
                    Key::Up | Key::Char('k') => Command::ConfigUp,
                    Key::Down | Key::Char('j') => Command::ConfigDown,
                    Key::Enter | Key::Char(' ') => Command::ConfigToggle,
                    _ => Command::Nothing,
                }
            } else if app.detail_open {
                match key {
                    Key::Char('q') | Key::Esc => Command::CloseDetail,
                    Key::Char('c') => if ctrl { Command::Quit } else { Command::Nothing },
                    Key::Up | Key::Char('k') => Command::MoveUp,
                    Key::Down | Key::Char('j') => Command::MoveDown,
                    Key::Left | Key::Char('h') => Command::ScrollLeft,
                    Key::Right | Key::Char('l') => Command::ScrollRight,
                    Key::Char('y') => Command::YankPath,
                    _ => Command::Nothing,
                }
            } else {
                match key {
                    Key::Char('q') => Command::Quit,
                    Key::Esc => Command::ResetMain,
                    Key::Char('c') => if ctrl { Command::Quit } else { Command::OpenConfig },
                    Key::Up | Key::Char('k') => Command::MoveUp,
                    Key::Down | Key::Char('j') => Command::MoveDown,
                    Key::Enter => Command::EnterOrClear,
                    Key::Char('n') => Command::NextMatch,
                    Key::Char('/') => Command::StartSearch,
                    Key::Char('v') => Command::ToggleView,
                    Key::Char('r') => if app.main_view == MainView::Processes {
                        Command::StartLookup
                    } else {
                        Command::Nothing
                    },
                    Key::Char('R') => Command::Refresh,
                    Key::Char('i') => Command::OpenInfo,
                    Key::Char('g') => Command::ToggleSummary,
                    Key::Char('?') => Command::OpenHelp,
                    Key::Char('t') => Command::OpenTheme,
                    Key::Char('s') => Command::CycleSort,
                    Key::Char('S') => Command::ReverseSort,
                    Key::Char('a') => Command::ToggleShowAll,
                    Key::Char('y') => if app.main_view == MainView::Files { Command::YankPath } else { Command::Nothing },
                    _ => Command::Nothing,
                }
            }
        },
        InputMode::Search => match key {
            Key::Esc => Command::CancelSearch,
            Key::Enter => Command::ConfirmSearch,
            Key::Backspace => Command::DeleteChar,
            Key::Char(c) => Command::TypeChar(c),
            _ => Command::Nothing,
        },
        InputMode::ReverseLookup => match key {
            Key::Esc => Command::CancelLookup,
            Key::Enter => Command::RunLookup,
            Key::Backspace => Command::DeleteChar,
            Key::Char(c) => Command::TypeChar(c),
            _ => Command::Nothing,
        },
    }
}

/// The clipboard work a command leaves to the caller.
pub open spec fn effect_of(c: Command) -> Effect {
    match c {
        Command::YankPath => Effect::CopyPath,
        Command::YankEnv => Effect::CopyEnv,
        _ => Effect::Done,
    }
}

/// Whether the detail, the column configuration, the help or the theme
/// picker carries out `cmd`.
pub open spec fn panel_command(cmd: Command) -> bool {
    match cmd {
        Command::CloseDetail | Command::ScrollLeft | Command::ScrollRight | Command::CloseConfig
        | Command::ConfigUp | Command::ConfigDown | Command::ConfigToggle | Command::CloseHelp
        | Command::HelpUp | Command::HelpDown | Command::CloseTheme | Command::ThemeUp
        | Command::ThemeDown => true,
        _ => false,
    }
}

/// Whether the info panel carries out `cmd`.
pub open spec fn info_panel_command(cmd: Command) -> bool {
    match cmd {
        Command::CloseInfo | Command::InfoTab(_) | Command::InfoNext | Command::InfoPrev | Command::InfoUp
        | Command::InfoDown => true,
        _ => false,
    }
}

/// Whether typing (a search or a path to look up) carries out `cmd`.
pub open spec fn typing_command(cmd: Command) -> bool {
    match cmd {
        Command::CancelSearch | Command::ConfirmSearch | Command::DeleteChar | Command::TypeChar(_)
        | Command::CancelLookup | Command::RunLookup => true,
        _ => false,
    }
}

/// What a command of the main list does to the state `a`: the state `b`.
#[verifier::opaque]
pub open spec fn list_step(a: App, cmd: Command, b: App) -> bool {
    match cmd {
        Command::Nothing | Command::YankPath | Command::YankEnv => b == a,
        Command::Quit => b == (App { should_quit: true, ..a }),
        Command::ResetMain => exists|mid: App| {
            &&& search_cleared(a, mid)
            &&& b.reverse_results@.len() == 0
            &&& b == (App { reverse_results: b.reverse_results, status_message: None, ..mid })
        },
        Command::MoveUp => moved_up(a, b),
        Command::MoveDown => moved_down(a, b),
        Command::EnterOrClear => if a.search_active {
            search_cleared(a, b)
        } else if has_selection(a) {
            b == (App { detail_open: true, detail_selected: 0, detail_h_scroll: 0, ..a })
        } else {
            b == a
        },
        Command::NextMatch => next_match_selected(a, b),
        Command::StartSearch => {
            &&& b.search_text@.len() == 0
            &&& b == (App { input_mode: InputMode::Search, search_text: b.search_text, search_active: false, ..a })
        },
        Command::ToggleView => {
            &&& b.search_text@.len() == 0
            &&& b == (App {
                main_view: if a.main_view == MainView::Processes { MainView::Files } else { MainView::Processes },
                search_text: b.search_text,
                search_active: false,
                status_message: None,
                ..a
            })
        },
        Command::OpenConfig => b == (App { config_open: true, config_selected: 0, ..a }),
        Command::StartLookup => {
            &&& b.reverse_lookup_text@.len() == 0
            &&& b.reverse_results@.len() == 0
            &&& b == (App {
                input_mode: InputMode::ReverseLookup,
                reverse_lookup_text: b.reverse_lookup_text,
                reverse_results: b.reverse_results,
                ..a
            })
        },
        Command::Refresh => exists|mid: App| {
            &&& refreshed(a, mid)
            &&& b.status_message is Some
            &&& b.status_message.unwrap()@ == "Refreshed"@
            &&& b == (App { status_message: b.status_message, ..mid })
        },
        Command::OpenInfo => info_opened(a, b),
        Command::ToggleSummary => summary_toggled(a, b),
        Command::OpenHelp => b == (App { help_open: true, help_scroll: 0, ..a }),
        Command::OpenTheme => b == (App { theme_open: true, ..a }),
        Command::CycleSort => sort_cycled(a, b),
        Command::ReverseSort => sort_reversed(a, b),
        Command::ToggleShowAll => show_all_toggled(a, b),
        _ => false,
    }
}

/// What a command of the detail, the column configuration, the help or
/// the theme picker does to the state `a`: the state `b`.
#[verifier::opaque]
pub open spec fn panel_step(a: App, cmd: Command, b: App) -> bool {
    match cmd {
        Command::CloseDetail => b == (App { detail_open: false, detail_selected: 0, detail_h_scroll: 0, ..a }),
        Command::ScrollLeft => b == (App {
            detail_h_scroll: if a.detail_open && a.detail_h_scroll > 0 {
                if a.detail_h_scroll >= 4 { (a.detail_h_scroll - 4) as usize } else { 0 }
            } else {
                a.detail_h_scroll
            },
            ..a
        }),
        Command::ScrollRight => b == (App {
            detail_h_scroll: if a.detail_open { (a.detail_h_scroll + 4) as usize } else { a.detail_h_scroll },
            ..a
        }),
        Command::CloseConfig => b == (App { config_open: false, ..a }),
        Command::ConfigUp => b == (App {
            config_selected: if a.config_selected > 0 { (a.config_selected - 1) as usize } else { 0 },
            ..a
        }),
        Command::ConfigDown => b == (App {
            config_selected: if a.config_selected + 1 < COLUMN_COUNT { (a.config_selected + 1) as usize } else { a.config_selected },
            ..a
        }),
        Command::ConfigToggle => column_toggled(a, b),
        Command::CloseHelp => b == (App { help_open: false, ..a }),
        Command::HelpUp => b == (App {
            help_scroll: if a.help_scroll > 0 { (a.help_scroll - 1) as usize } else { 0 },
            ..a
        }),
        Command::HelpDown => b == (App { help_scroll: (a.help_scroll + 1) as usize, ..a }),
        Command::CloseTheme => {
            &&& b.status_message is Some
            &&& b.status_message.unwrap()@ == "Theme: "@ + theme_label(a.theme_index as int)
            &&& b == (App { theme_open: false, status_message: b.status_message, ..a })
        },
        Command::ThemeUp => b == (App {
            theme_index: if a.theme_index > 0 { (a.theme_index - 1) as usize } else { 0 },
            ..a
        }),
        Command::ThemeDown => b == (App {
            theme_index: if a.theme_index + 1 < THEME_COUNT { (a.theme_index + 1) as usize } else { a.theme_index },
            ..a
        }),
        _ => false,
    }
}

/// What a command of the info panel does to the state `a`: the state `b`.
#[verifier::opaque]
pub open spec fn info_step(a: App, cmd: Command, b: App) -> bool {
    match cmd {
        Command::CloseInfo => b == (App { info_open: false, info_detail: None, ..a }),
        Command::InfoTab(t) => if t < INFO_TABS {
            b == (App { info_tab: t, info_scroll: 0, info_env_selected: 0, ..a })
        } else {
            b == a
        },
        Command::InfoNext => b == (App {
            info_tab: ((a.info_tab + 1) % (INFO_TABS as int)) as usize,
            info_scroll: 0,
            info_env_selected: 0,
            ..a
        }),
        Command::InfoPrev => b == (App {
            info_tab: ((a.info_tab + 3) % (INFO_TABS as int)) as usize,
            info_scroll: 0,
            info_env_selected: 0,
            ..a
        }),
        Command::InfoUp => info_scrolled_up(a, b),
        Command::InfoDown => info_scrolled_down(a, b),
        _ => false,
    }
}

/// What a command of typing does to the state `a`: the state `b`.
#[verifier::opaque]
pub open spec fn typing_step(a: App, cmd: Command, b: App) -> bool {
    match cmd {
        Command::CancelSearch => exists|mid: App| {
            &&& search_cleared(a, mid)
            &&& b == (App { input_mode: InputMode::Normal, ..mid })
        },
        Command::ConfirmSearch => b == (App {
            input_mode: InputMode::Normal,
            search_active: a.search_text@.len() > 0,
            ..a
        }),
        Command::DeleteChar => char_deleted(a, b),
        Command::TypeChar(c) => char_typed(a, c, b),
        Command::CancelLookup => {
            &&& b.reverse_lookup_text@.len() == 0
            &&& b == (App { reverse_lookup_text: b.reverse_lookup_text, input_mode: InputMode::Normal, ..a })
        },
        Command::RunLookup => lookup_answered(a, b),
        _ => false,
    }
}

/// What carrying out `cmd` on the state `a` gives: the state `b`.
pub open spec fn command_step(a: App, cmd: Command, b: App) -> bool {
    if panel_command(cmd) {
        panel_step(a, cmd, b)
    } else if info_panel_command(cmd) {
        info_step(a, cmd, b)
    } else if typing_command(cmd) {
        typing_step(a, cmd, b)
    } else {
        list_step(a, cmd, b)
    }
}

/// Carries out a command of the main list.
#[verifier::spinoff_prover]
#[verifier::rlimit(100)]
fn apply_list_command<S: ProcessSource>(app: &mut App, cmd: Command, source: &S)
    requires
        !panel_command(cmd),
        !info_panel_command(cmd),
        !typing_command(cmd),
        old(app).wf(),
        old(app).info_tab < 4,
        old(app).detail_h_scroll + 4 <= usize::MAX,
        old(app).help_scroll < usize::MAX,
        old(app).info_scroll < usize::MAX,
    ensures
        final(app).wf(),
        cmd == Command::Quit ==> final(app).should_quit,
        cmd != Command::Quit ==> final(app).should_quit == old(app).should_quit,
        command_step(*old(app), cmd, *final(app)),
{
    proof { reveal(list_step); }
    match cmd {
        Command::Quit => app.should_quit = true,
        Command::ResetMain => {
            app.clear_search();
            let ghost mid = *app;
            app.reverse_results = Vec::new();
            app.status_message = None;
            assert(search_cleared(*old(app), mid));
            proof { reveal(search_cleared); }
        },
        Command::MoveUp => {
            app.move_up();
            proof { reveal(moved_up); }
        },
        Command::MoveDown => {
            app.move_down();
            proof { reveal(moved_down); }
        },
        Command::EnterOrClear => {
            if app.search_active {
                app.clear_search();
                proof { reveal(search_cleared); }
            } else {
                app.open_detail();
            }
        },
        Command::NextMatch => {
            app.next_search_match();
            proof { reveal(next_match_selected); }
        },
        Command::StartSearch => app.enter_search_mode(),
        Command::ToggleView => app.toggle_view(),
        Command::OpenConfig => app.open_config(),
        Command::StartLookup => app.enter_reverse_lookup_mode(),
        Command::Refresh => {
            app.refresh(source);
            let ghost mid = *app;
            let mut msg = String::new();
            push_str(&mut msg, "Refreshed");
            app.status_message = Some(msg);
            assert(refreshed(*old(app), mid));
            proof { reveal(refreshed); }
        },
        Command::OpenInfo => {
            app.open_info(source);
            proof { reveal(info_opened); }
        },
        Command::ToggleSummary => {
            app.toggle_summary(source);
            proof { reveal(summary_toggled); }
        },
        Command::OpenHelp => app.open_help(),
        Command::OpenTheme => app.open_theme_picker(),
        Command::CycleSort => {
            app.cycle_sort();
            proof { reveal(sort_cycled); }
        },
        Command::ReverseSort => {
            app.reverse_sort();
            proof { reveal(sort_reversed); }
        },
        Command::ToggleShowAll => {
            app.toggle_show_all();
            proof { reveal(show_all_toggled); }
        },
        _ => {},
    }
}

/// Carries out a command of the info panel.
#[verifier::spinoff_prover]
#[verifier::rlimit(100)]
fn apply_info_command(app: &mut App, cmd: Command)
    requires
        info_panel_command(cmd),
        old(app).wf(),
        old(app).info_tab < 4,
        old(app).info_scroll < usize::MAX,
    ensures
        final(app).wf(),
        final(app).should_quit == old(app).should_quit,
        command_step(*old(app), cmd, *final(app)),
{
    proof { reveal(info_step); }
    match cmd {
        Command::CloseInfo => app.close_info(),
        Command::InfoTab(t) => app.info_set_tab(t),
        Command::InfoNext => app.info_next_tab(),
        Command::InfoPrev => app.info_prev_tab(),
        Command::InfoUp => {
            app.info_scroll_up();
            proof { reveal(info_scrolled_up); }
        },
        Command::InfoDown => {
            app.info_scroll_down();
            proof { reveal(info_scrolled_down); }
        },
        _ => {},
    }
}

/// Carries out a command of the detail, the column configuration, the
/// help or the theme picker.
#[verifier::spinoff_prover]
#[verifier::rlimit(100)]
fn apply_panel_command(app: &mut App, cmd: Command)
    requires
        panel_command(cmd),
        old(app).wf(),
        old(app).detail_h_scroll + 4 <= usize::MAX,
        old(app).help_scroll < usize::MAX,
    ensures
        final(app).wf(),
        final(app).should_quit == old(app).should_quit,
        command_step(*old(app), cmd, *final(app)),
{
    proof { reveal(panel_step); }
    match cmd {
        Command::CloseDetail => app.close_detail(),
        Command::ScrollLeft => app.scroll_left(),
        Command::ScrollRight => app.scroll_right(),
        Command::CloseConfig => app.close_config(),
        Command::ConfigUp => app.config_move_up(),
        Command::ConfigDown => app.config_move_down(),
        Command::ConfigToggle => {
            app.config_toggle_selected();
            proof { reveal(column_toggled); }
        },
        Command::CloseHelp => app.close_help(),
        Command::HelpUp => app.help_scroll_up(),
        Command::HelpDown => app.help_scroll_down(),
        Command::CloseTheme => app.close_theme_picker(),
        Command::ThemeUp => app.theme_move_up(),
        Command::ThemeDown => app.theme_move_down(),
        _ => {},
    }
}

/// Carries out a command of typing.
#[verifier::spinoff_prover]
#[verifier::rlimit(100)]
fn apply_typing_command<S: ProcessSource>(app: &mut App, cmd: Command, source: &S)
    requires
        typing_command(cmd),
        old(app).wf(),
        old(app).info_tab < 4,
        old(app).detail_h_scroll + 4 <= usize::MAX,
        old(app).help_scroll < usize::MAX,
        old(app).info_scroll < usize::MAX,
    ensures
        final(app).wf(),
        final(app).should_quit == old(app).should_quit,
        command_step(*old(app), cmd, *final(app)),
{
    proof { reveal(typing_step); }
    match cmd {
        Command::CancelSearch => {
            app.clear_search();
            let ghost mid = *app;
            app.exit_input_mode();
            assert(search_cleared(*old(app), mid));
            proof { reveal(search_cleared); }
        },
        Command::ConfirmSearch => app.confirm_search(),
        Command::DeleteChar => {
            app.pop_input_char();
            proof { reveal(char_deleted); }
        },
        Command::TypeChar(c) => {
            app.push_input_char(c);
            proof { reveal(char_typed); }
        },
        Command::CancelLookup => {
            app.reverse_lookup_text = String::new();
            app.exit_input_mode();
        },
        Command::RunLookup => {
            app.perform_reverse_lookup(source);
            proof { reveal(lookup_answered); }
        },
        _ => {},
    }
}

/// Carries out a command; returns the clipboard work left to do. The
/// state stays well formed, and quitting is only ever asked for by `Quit`.
pub fn apply_command<S: ProcessSource>(app: &mut App, cmd: Command, source: &S) -> (e: Effect)
    requires
        old(app).wf(),
        old(app).info_tab < 4,
        old(app).detail_h_scroll + 4 <= usize::MAX,
        old(app).help_scroll < usize::MAX,
        old(app).info_scroll < usize::MAX,
    ensures
        final(app).wf(),
        e == effect_of(cmd),
        cmd == Command::Quit ==> final(app).should_quit,
        cmd != Command::Quit ==> final(app).should_quit == old(app).should_quit,
        command_step(*old(app), cmd, *final(app)),
{
    match cmd {
        Command::CloseDetail | Command::ScrollLeft | Command::ScrollRight | Command::CloseConfig
        | Command::ConfigUp | Command::ConfigDown | Command::ConfigToggle | Command::CloseHelp
        | Command::HelpUp | Command::HelpDown | Command::CloseTheme | Command::ThemeUp
        | Command::ThemeDown => apply_panel_command(app, cmd),
        Command::CloseInfo | Command::InfoTab(_) | Command::InfoNext | Command::InfoPrev | Command::InfoUp
        | Command::InfoDown => apply_info_command(app, cmd),
        Command::CancelSearch | Command::ConfirmSearch | Command::DeleteChar | Command::TypeChar(_)
        | Command::CancelLookup | Command::RunLookup => apply_typing_command(app, cmd, source),
        _ => apply_list_command(app, cmd, source),
    }
    match cmd {
        Command::YankPath => Effect::CopyPath,
        Command::YankEnv => Effect::CopyEnv,
        _ => Effect::Done,
    }
}

/// Handles a key: decides its command and carries it out; returns the
/// clipboard work left to do.
pub fn handle_key<S: ProcessSource>(app: &mut App, key: Key, ctrl: bool, source: &S) -> (e: Effect)
    requires
        old(app).wf(),
        old(app).info_tab < 4,
        old(app).detail_h_scroll + 4 <= usize::MAX,
        old(app).help_scroll < usize::MAX,
        old(app).info_scroll < usize::MAX,
    ensures
        final(app).wf(),
        e == effect_of(command_of(*old(app), key, ctrl)),
        command_step(*old(app), command_of(*old(app), key, ctrl), *final(app)),
        command_of(*old(app), key, ctrl) == Command::Quit ==> final(app).should_quit,
        command_of(*old(app), key, ctrl) != Command::Quit ==> final(app).should_quit == old(app).should_quit,
{
    let cmd = key_command(app, key, ctrl);
    apply_command(app, cmd, source)
}

} // verus!
