//! Typing a search or a path to look up, and what is copied by a yank.
use vstd::prelude::*;

use crate::error::{error_message, PrexpError};
use crate::models::ProcessSnapshot;
use crate::source::ProcessSource;
use crate::text::{nat_dec, pop_char, push_char, push_str, push_u64};

use super::files::entries_view;
use super::listing::{path_at, pid_at};
use super::nav::ENV_TAB;
use super::state::{opt_text, view_refiltered};
use super::{App, InputMode, MainView};

verus! {

/// The path a yank copies: in the open detail of a process the path of the
/// selected resource, in the file view the selected path.
pub open spec fn yank_path(a: App) -> Option<Seq<char>> {
    if a.detail_open {
        match a.main_view {
            MainView::Processes => if a.selected_index < a.filtered_indices@.len()
                && a.filtered_indices@[a.selected_index as int] < a.snapshots@.len() {
                let rs = a.snapshots@[a.filtered_indices@[a.selected_index as int] as int].resources@;
                if a.detail_selected < rs.len() { opt_text(rs[a.detail_selected as int].path) } else { None }
            } else {
                None
            },
            MainView::Files => path_at(entries_view(a.file_entries@), a.filtered_file_indices@, a.file_selected_index),
        }
    } else if a.main_view == MainView::Files {
        path_at(entries_view(a.file_entries@), a.filtered_file_indices@, a.file_selected_index)
    } else {
        None
    }
}

/// The message after an attempt to copy `shown` to the clipboard.
pub open spec fn copy_report(shown: Seq<char>, outcome: Result<(), Seq<char>>) -> Seq<char> {
    match outcome {
        Ok(()) => "Copied to clipboard: "@ + shown,
        Err(e) => "Copy failed: "@ + e,
    }
}

/// The message after an attempt to copy `shown` to the clipboard.
pub fn copy_message(shown: &str, outcome: &Result<(), String>) -> (r: String)
    ensures
        r@ == copy_report(shown@, match outcome { Ok(()) => Ok(()), Err(e) => Err(e@) }),
{
    let mut msg = String::new();
    match outcome {
        Ok(()) => {
            push_str(&mut msg, "Copied to clipboard: ");
            push_str(&mut msg, shown);
        },
        Err(e) => {
            push_str(&mut msg, "Copy failed: ");
            push_str(&mut msg, e.as_str());
        },
    }
    msg
}

/// The message after an attempt to copy `count` environment variables.
pub fn copy_all_message(count: usize, outcome: &Result<(), String>) -> (r: String)
    ensures
        r@ == match outcome {
            Ok(()) => "Copied "@ + nat_dec(count as nat) + " environment variables to clipboard"@,
            Err(e) => "Copy failed: "@ + e@,
        },
{
    let mut msg = String::new();
    match outcome {
        Ok(()) => {
            push_str(&mut msg, "Copied ");
            push_u64(&mut msg, count as u64);
            push_str(&mut msg, " environment variables to clipboard");
        },
        Err(e) => {
            push_str(&mut msg, "Copy failed: ");
            push_str(&mut msg, e.as_str());
        },
    }
    msg
}

/// `key=value`.
pub open spec fn env_line(kv: (String, String)) -> Seq<char> {
    kv.0@ + "="@ + kv.1@
}

/// The lines `key=value` of the variables, joined by newlines.
pub open spec fn env_lines(vars: Seq<(String, String)>) -> Seq<char>
    decreases vars.len(),
{
    if vars.len() == 0 {
        Seq::empty()
    } else if vars.len() == 1 {
        env_line(vars[0])
    } else {
        env_lines(vars.drop_last()) + "\n"@ + env_line(vars.last())
    }
}

/// The position after `i` in a cycle of `n`.
pub fn next_wrapping(i: usize, n: usize) -> (r: usize)
    requires
        n > 0,
    ensures
        r == (i + 1) % (n as int),
{
    let s = i % n;
    let r = if s + 1 == n { 0 } else { s + 1 };
    assert(r == (i + 1) % (n as int)) by (nonlinear_arith)
        requires
            n > 0,
            s == i % n,
            r == (if s + 1 == n { 0 } else { s + 1 }),
    {
        vstd::arithmetic::div_mod::lemma_add_mod_noop(i as int, 1, n as int);
        vstd::arithmetic::div_mod::lemma_mod_bound(i as int + 1, n as int);
    }
    r
}

/// The processes to show and the status line after a reverse lookup of
/// `path`.
pub open spec fn lookup_shown(
    result: Result<Vec<ProcessSnapshot>, PrexpError>,
    path: Seq<char>,
    shown: Seq<ProcessSnapshot>,
    msg: Seq<char>,
) -> bool {
    match result {
        Ok(v) => shown == v@ && msg == nat_dec(v@.len()) + " process(es) have '"@ + path + "' open"@,
        Err(PrexpError::ProcessNotFound { .. }) => shown.len() == 0 && msg == "No processes found"@,
        Err(e) => shown.len() == 0 && msg == "Lookup failed: "@ + error_message(e),
    }
}

/// The processes to show and the status line after a reverse lookup.
pub fn lookup_report(result: Result<Vec<ProcessSnapshot>, PrexpError>, path: &String) -> (r: (Vec<ProcessSnapshot>, String))
    ensures
        lookup_shown(result, path@, r.0@, r.1@),
{
    let mut msg = String::new();
    match result {
        Ok(results) => {
            push_u64(&mut msg, results.len() as u64);
            push_str(&mut msg, " process(es) have '");
            push_str(&mut msg, path.as_str());
            push_str(&mut msg, "' open");
            (results, msg)
        },
        Err(PrexpError::ProcessNotFound { .. }) => {
            push_str(&mut msg, "No processes found");
            (Vec::new(), msg)
        },
        Err(e) => {
            push_str(&mut msg, "Lookup failed: ");
            let text = e.message();
            push_str(&mut msg, text.as_str());
            (Vec::new(), msg)
        },
    }
}

/// The state after dropping the search: empty and inactive, with the
/// list of the current view rebuilt.
#[verifier::opaque]
pub open spec fn search_cleared(a: App, b: App) -> bool {
    &&& b.search_text@.len() == 0
    &&& exists|mid: App| {
        &&& mid.search_text@.len() == 0
        &&& mid == (App { search_text: mid.search_text, search_active: false, ..a })
        &&& view_refiltered(mid, b)
    }
}

/// The state after selecting the next search result: with an active
/// search and a non-empty list, the selection of the current view (and its
/// anchor) moves one down, after the last to the first; otherwise nothing
/// changes.
#[verifier::opaque]
pub open spec fn next_match_selected(a: App, b: App) -> bool {
    if !a.search_active {
        b == a
    } else if a.main_view == MainView::Processes {
        if a.filtered_indices@.len() > 0 {
            let sel = ((a.selected_index + 1) % (a.filtered_indices@.len() as int)) as usize;
            b == (App { selected_index: sel, process_anchor: pid_at(a.snapshots@, a.filtered_indices@, sel), ..a })
        } else {
            b == a
        }
    } else if a.filtered_file_indices@.len() > 0 {
        let sel = ((a.file_selected_index + 1) % (a.filtered_file_indices@.len() as int)) as usize;
        &&& opt_text(b.file_anchor) == path_at(entries_view(a.file_entries@), a.filtered_file_indices@, sel)
        &&& b == (App { file_selected_index: sel, file_anchor: b.file_anchor, ..a })
    } else {
        b == a
    }
}

/// The state after answering a reverse lookup of the typed path: the
/// processes and the status line shown for what the source answered,
/// typing ended.
#[verifier::opaque]
pub open spec fn lookup_answered(a: App, b: App) -> bool {
    &&& b.status_message is Some
    &&& exists|answer: Result<Vec<ProcessSnapshot>, PrexpError>|
        lookup_shown(answer, a.reverse_lookup_text@, b.reverse_results@, b.status_message.unwrap()@)
    &&& b == (App {
        reverse_results: b.reverse_results,
        status_message: b.status_message,
        input_mode: InputMode::Normal,
        ..a
    })
}

/// The state after typing `c`: added to the search (the list then
/// re-filtered) or to the path to look up; nothing when not typing.
#[verifier::opaque]
pub open spec fn char_typed(a: App, c: char, b: App) -> bool {
    match a.input_mode {
        InputMode::Normal => b == a,
        InputMode::ReverseLookup => {
            &&& b.reverse_lookup_text@ == a.reverse_lookup_text@.push(c)
            &&& b == (App { reverse_lookup_text: b.reverse_lookup_text, ..a })
        },
        InputMode::Search => exists|mid: App| {
            &&& mid.search_text@ == a.search_text@.push(c)
            &&& mid == (App { search_text: mid.search_text, ..a })
            &&& view_refiltered(mid, b)
        },
    }
}

/// A text without its last character, if it has one.
pub open spec fn without_last(t: Seq<char>) -> Seq<char> {
    if t.len() > 0 { t.drop_last() } else { t }
}

/// The state after deleting the last typed character of the search (the
/// list then re-filtered) or of the path to look up; nothing when not
/// typing.
#[verifier::opaque]
pub open spec fn char_deleted(a: App, b: App) -> bool {
    match a.input_mode {
        InputMode::Normal => b == a,
        InputMode::ReverseLookup => {
            &&& b.reverse_lookup_text@ == without_last(a.reverse_lookup_text@)
            &&& b == (App { reverse_lookup_text: b.reverse_lookup_text, ..a })
        },
        InputMode::Search => exists|mid: App| {
            &&& mid.search_text@ == without_last(a.search_text@)
            &&& mid == (App { search_text: mid.search_text, ..a })
            &&& view_refiltered(mid, b)
        },
    }
}

impl App {
    /// Starts typing a search, from an empty query.
    pub fn enter_search_mode(&mut self)
        ensures
            final(self).search_text@.len() == 0,
            *final(self) == (App {
                input_mode: InputMode::Search,
                search_text: final(self).search_text,
                search_active: false,
                ..*old(self)
            }),
    {
        self.input_mode = InputMode::Search;
        self.search_text = String::new();
        self.search_active = false;
    }

    /// Ends typing the search; it stays active when it has text.
    pub fn confirm_search(&mut self)
        ensures
            *final(self) == (App {
                input_mode: InputMode::Normal,
                search_active: old(self).search_text@.len() > 0,
                ..*old(self)
            }),
    {
        self.input_mode = InputMode::Normal;
        self.search_active = !self.search_text.as_str().is_empty();
    }

    /// Drops the search and rebuilds the list of the current view.
    pub fn clear_search(&mut self)
        requires
            old(self).wf(),
        ensures
            final(self).wf(),
            search_cleared(*old(self), *final(self)),
    {
        proof { reveal(search_cleared); }
        self.search_text = String::new();
        self.search_active = false;
        let ghost mid = *self;
        self.apply_filter();
    }

    /// Selects the next search result, after the last the first.
    pub fn next_search_match(&mut self)
        requires
            old(self).wf(),
        ensures
            final(self).wf(),
            next_match_selected(*old(self), *final(self)),
    {
        proof { reveal(next_match_selected); }
        if !self.search_active {
            return;
        }
        match self.main_view {
            MainView::Processes => {
                if !self.filtered_indices.is_empty() {
                    let n = self.filtered_indices.len();
                    self.selected_index = next_wrapping(self.selected_index, n);
                    self.update_process_anchor();
                }
            },
            MainView::Files => {
                if !self.filtered_file_indices.is_empty() {
                    let n = self.filtered_file_indices.len();
                    self.file_selected_index = next_wrapping(self.file_selected_index, n);
                    self.update_file_anchor();
                }
            },
        }
    }

    /// Starts typing a path to look up, dropping earlier results.
    pub fn enter_reverse_lookup_mode(&mut self)
        ensures
            final(self).reverse_lookup_text@.len() == 0,
            final(self).reverse_results@.len() == 0,
            *final(self) == (App {
                input_mode: InputMode::ReverseLookup,
                reverse_lookup_text: final(self).reverse_lookup_text,
                reverse_results: final(self).reverse_results,
                ..*old(self)
            }),
    {
        self.input_mode = InputMode::ReverseLookup;
        self.reverse_lookup_text = String::new();
        self.reverse_results = Vec::new();
    }

    /// Stops typing.
    pub fn exit_input_mode(&mut self)
        ensures
            *final(self) == (App { input_mode: InputMode::Normal, ..*old(self) }),
    {
        self.input_mode = InputMode::Normal;
    }

    /// Shows the answer to a reverse lookup of the typed path: the processes
    /// found and their number, "No processes found" when the source found
    /// no process, or the error.
    pub fn show_lookup_result(&mut self, result: Result<Vec<ProcessSnapshot>, PrexpError>)
        ensures
            final(self).status_message is Some,
            lookup_shown(result, old(self).reverse_lookup_text@, final(self).reverse_results@, final(self).status_message.unwrap()@),
            *final(self) == (App {
                reverse_results: final(self).reverse_results,
                status_message: final(self).status_message,
                input_mode: InputMode::Normal,
                ..*old(self)
            }),
    {
        let (results, msg) = lookup_report(result, &self.reverse_lookup_text);
        self.reverse_results = results;
        self.status_message = Some(msg);
        self.input_mode = InputMode::Normal;
    }

    /// Looks up the processes that have the typed path open, asking
    /// `source`, and shows the answer.
    pub fn perform_reverse_lookup<S: ProcessSource>(&mut self, source: &S)
        ensures
            lookup_answered(*old(self), *final(self)),
    {
        proof { reveal(lookup_answered); }
        let result = source.find_by_path(self.reverse_lookup_text.as_str());
        let ghost answer = result;
        self.show_lookup_result(result);
        assert(lookup_shown(answer, old(self).reverse_lookup_text@, self.reverse_results@, self.status_message.unwrap()@));
    }

    /// Adds a typed character to the search (and re-filters) or to the path
    /// to look up.
    pub fn push_input_char(&mut self, c: char)
        requires
            old(self).wf(),
        ensures
            final(self).wf(),
            char_typed(*old(self), c, *final(self)),
    {
        proof { reveal(char_typed); }
        match self.input_mode {
            InputMode::Search => {
                push_char(&mut self.search_text, c);
                let ghost mid = *self;
                self.apply_filter();
            },
            InputMode::ReverseLookup => {
                push_char(&mut self.reverse_lookup_text, c);
            },
            InputMode::Normal => {},
        }
    }

    /// Removes the last typed character from the search (and re-filters) or
    /// from the path to look up.
    pub fn pop_input_char(&mut self)
        requires
            old(self).wf(),
        ensures
            final(self).wf(),
            char_deleted(*old(self), *final(self)),
    {
        proof { reveal(char_deleted); }
        match self.input_mode {
            InputMode::Search => {
                let _ = pop_char(&mut self.search_text);
                let ghost mid = *self;
                self.apply_filter();
            },
            InputMode::ReverseLookup => {
                let _ = pop_char(&mut self.reverse_lookup_text);
            },
            InputMode::Normal => {},
        }
    }

    /// The path a yank copies, if there is one.
    pub fn yank_target(&self) -> (r: Option<String>)
        ensures
            opt_text(r) == yank_path(*self),
    {
        if self.detail_open {
            match self.main_view {
                MainView::Processes => match self.selected_snapshot() {
                    Some(snap) => {
                        if self.detail_selected < snap.resources.len() {
                            match &snap.resources[self.detail_selected].path {
                                Some(p) => Some(p.clone()),
                                None => None,
                            }
                        } else {
                            None
                        }
                    },
                    None => None,
                },
                MainView::Files => match self.selected_file_entry() {
                    Some(e) => Some(e.path.clone()),
                    None => None,
                },
            }
        } else if self.main_view == MainView::Files {
            match self.selected_file_entry() {
                Some(e) => Some(e.path.clone()),
                None => None,
            }
        } else {
            None
        }
    }

    /// The `key=value` line of the selected environment variable, or the
    /// message to show when there is none to copy.
    pub fn env_yank_text(&self) -> (r: Result<String, String>)
        ensures
            self.info_tab != ENV_TAB ==> r is Err && r->Err_0@ == "No path to copy"@,
            self.info_tab == ENV_TAB ==> match self.info_detail {
                Some(d) => if self.info_env_selected < d.environment@.len() {
                    r is Ok && r->Ok_0@ == env_line(d.environment@[self.info_env_selected as int])
                } else {
                    r is Err && r->Err_0@ == "No environment variable selected"@
                },
                None => r is Err && r->Err_0@ == "No environment variable selected"@,
            },
    {
        if self.info_tab != ENV_TAB {
            return Err("No path to copy".to_string());
        }
        match &self.info_detail {
            Some(d) => {
                if self.info_env_selected < d.environment.len() {
                    let kv = &d.environment[self.info_env_selected];
                    let mut text = String::new();
                    push_str(&mut text, kv.0.as_str());
                    push_str(&mut text, "=");
                    push_str(&mut text, kv.1.as_str());
                    return Ok(text);
                }
            },
            None => {},
        }
        Err("No environment variable selected".to_string())
    }

    /// All environment variables as `key=value` lines, with their number,
    /// or the message to show when there are none to copy.
    pub fn all_env_yank_text(&self) -> (r: Result<(String, usize), String>)
        ensures
            self.info_tab != ENV_TAB ==> r is Err && r->Err_0@ == "No environment to copy"@,
            self.info_tab == ENV_TAB ==> match self.info_detail {
                Some(d) => if d.environment@.len() > 0 {
                    r is Ok && r->Ok_0.0@ == env_lines(d.environment@) && r->Ok_0.1 == d.environment@.len()
                } else {
                    r is Err && r->Err_0@ == "No environment variables"@
                },
                None => r is Err && r->Err_0@ == "No environment variables"@,
            },
    {
        if self.info_tab != ENV_TAB {
            return Err("No environment to copy".to_string());
        }
        match &self.info_detail {
            Some(d) => {
                let n = d.environment.len();
                if n == 0 {
                    return Err("No environment variables".to_string());
                }
                let mut text = String::new();
                let mut i: usize = 0;
                while i < n
                    invariant
                        n == d.environment@.len(),
                        i <= n,
                        n > 0,
                        text@ == (if i == 0 { Seq::empty() } else { env_lines(d.environment@.take(i as int)) }),
                    decreases n - i,
                {
                    let ghost before = text@;
                    if i > 0 {
                        push_str(&mut text, "\n");
                    }
                    let kv = &d.environment[i];
                    push_str(&mut text, kv.0.as_str());
                    push_str(&mut text, "=");
                    push_str(&mut text, kv.1.as_str());
                    proof {
                        let t = d.environment@.take(i + 1);
                        assert(t.drop_last() =~= d.environment@.take(i as int));
                        assert(t.last() == d.environment@[i as int]);
                        if i == 0 {
                            assert(t.len() == 1);
                            assert(text@ =~= env_line(t[0]));
                        } else {
                            assert(text@ =~= env_lines(t.drop_last()) + "\n"@ + env_line(t.last()));
                        }
                    }
                    i = i + 1;
                }
                assert(d.environment@.take(n as int) =~= d.environment@);
                Ok((text, n))
            },
            None => Err("No environment variables".to_string()),
        }
    }
}

} // verus!
