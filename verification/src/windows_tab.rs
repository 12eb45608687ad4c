//! The Windows tab as a plugin: what its keys do, the AI analysis text it
//! streams in, and the hints it shows. The agent's latest snapshot carries
//! percentages and stays with the application, which passes in what a key
//! needs from it: how many processes it lists, and the AI context built from it.

use vstd::prelude::*;
use crate::cooldown::{AlertCooldowns, AlertKey};
use crate::market::{opt_view, PAGE_SIZE};
use crate::registry::{ActionView, Key, Plugin, PluginAction};
use crate::text::{chars_of, contains_str, eq_str, push_str, replace_str, spec_contains, spec_replace, string_of};
use crate::windows::{fresh_windows_state, field_next, last_process, panel_after, WindowsPanel, WindowsState};

verus! {

/// The state after moving the process selection up `n` rows, one row at a
/// time: the scroll offset follows the selection up.
pub open spec fn ws_up_by(st: WindowsState, n: int) -> WindowsState {
    if st.selected_process > 0 && n > 0 {
        let s: int = if st.selected_process > n {
            st.selected_process - n
        } else {
            0
        };
        WindowsState {
            selected_process: s as usize,
            scroll_offset: if s < st.scroll_offset {
                s as usize
            } else {
                st.scroll_offset
            },
            ..st
        }
    } else {
        st
    }
}

/// The state after moving the process selection down `n` rows, one row at a
/// time, within a list of `count` processes.
pub open spec fn ws_down_by(st: WindowsState, count: Option<usize>, n: int) -> WindowsState {
    let last = last_process(count);
    if st.selected_process < last {
        let s: int = if st.selected_process + n < last {
            st.selected_process + n
        } else {
            last
        };
        WindowsState { selected_process: s as usize, ..st }
    } else {
        st
    }
}

/// The tab state after `key`, with `count` processes listed (`None` without a
/// snapshot) and an AI context at hand when `has_context`.
pub open spec fn windows_key_state(st: WindowsState, key: Key, count: Option<usize>, has_context: bool) -> WindowsState {
    match key {
        Key::Char(c) => if c == 'a' || c == 'A' {
            if !st.ai_loading && has_context {
                WindowsState { ai_loading: true, ai_analysis: None, ai_scroll: 0, ..st }
            } else {
                st
            }
        } else if c == 's' {
            WindowsState { sort_field: field_next(st.sort_field), selected_process: 0, scroll_offset: 0, ..st }
        } else if c == 'S' {
            WindowsState { sort_ascending: !st.sort_ascending, selected_process: 0, scroll_offset: 0, ..st }
        } else if c == 'f' {
            WindowsState {
                focused_panel: if st.focused_panel is Some {
                    None
                } else {
                    Some(WindowsPanel::ProcessList)
                },
                ..st
            }
        } else if c == 'F' && st.focused_panel is Some {
            WindowsState { focused_panel: Some(panel_after(st.focused_panel->0)), ..st }
        } else if c == 'k' {
            ws_up_by(st, 1)
        } else if c == 'j' {
            ws_down_by(st, count, 1)
        } else {
            st
        },
        Key::Up => ws_up_by(st, 1),
        Key::Down => ws_down_by(st, count, 1),
        Key::PageUp => ws_up_by(st, PAGE_SIZE as int),
        Key::PageDown => ws_down_by(st, count, PAGE_SIZE as int),
        Key::Home => WindowsState { selected_process: 0, scroll_offset: 0, ..st },
        Key::End => match count {
            Some(n) => WindowsState {
                selected_process: if n > 0 {
                    (n - 1) as usize
                } else {
                    0
                },
                ..st
            },
            None => st,
        },
        _ => st,
    }
}

/// What the tab answers to `key`, with the AI context built from the
/// snapshot (`None` without one).
pub open spec fn windows_key_action(st: WindowsState, key: Key, context: Option<Seq<char>>) -> ActionView {
    match key {
        Key::Char(c) => if c == 'a' || c == 'A' {
            if st.ai_loading {
                ActionView::Consumed
            } else {
                match context {
                    Some(x) => ActionView::RequestAiAnalysis(x),
                    None => ActionView::SetStatus("No snapshot available for AI analysis"@),
                }
            }
        } else if c == 's' || c == 'S' || c == 'f' || (c == 'F' && st.focused_panel is Some) || c == 'k'
            || c == 'j' {
            ActionView::Consumed
        } else {
            ActionView::Ignored
        },
        Key::Up | Key::Down | Key::PageUp | Key::PageDown | Key::Home | Key::End => ActionView::Consumed,
        _ => ActionView::Ignored,
    }
}

fn page_up(st: &mut WindowsState)
    ensures
        *final(st) == ws_up_by(*old(st), PAGE_SIZE as int),
{
    let mut i: usize = 0;
    while i < PAGE_SIZE
        invariant
            i <= PAGE_SIZE,
            *st == ws_up_by(*old(st), i as int),
        decreases PAGE_SIZE - i,
    {
        st.move_selection_up();
        i = i + 1;
    }
}

fn page_down(st: &mut WindowsState, count: Option<usize>)
    ensures
        *final(st) == ws_down_by(*old(st), count, PAGE_SIZE as int),
{
    let mut i: usize = 0;
    while i < PAGE_SIZE
        invariant
            i <= PAGE_SIZE,
            *st == ws_down_by(*old(st), count, i as int),
        decreases PAGE_SIZE - i,
    {
        st.move_selection_down(count);
        i = i + 1;
    }
}

/// The answer to the `windows` command: the snapshot summary when there is a
/// snapshot, else whether the agent is connected, with its URL when it is not.
pub open spec fn windows_command_reply(summary: Option<Seq<char>>, connected: bool, agent_url: Seq<char>) -> Seq<char> {
    match summary {
        Some(s) => s,
        None => if connected {
            "Windows agent connected, waiting for data..."@
        } else {
            "Windows agent not connected. URL: "@ + agent_url
        },
    }
}

/// The agent URL to poll. Under WSL, `localhost` on the Linux side is not the
/// Windows host: a URL naming `localhost` or `127.0.0.1` is pointed at the
/// host's address `wsl_host_ip` when there is one; any other URL is kept.
pub open spec fn resolved_agent_url(url: Seq<char>, wsl_host_ip: Option<Seq<char>>) -> Seq<char> {
    if !spec_contains(url, "localhost"@) && !spec_contains(url, "127.0.0.1"@) {
        url
    } else {
        match wsl_host_ip {
            Some(ip) => spec_replace(spec_replace(url, "localhost"@, ip), "127.0.0.1"@, ip),
            None => url,
        }
    }
}

/// The Windows host tab.
pub struct WindowsPlugin {
    pub state: WindowsState,
    /// Agent snapshot endpoint.
    pub agent_url: String,
    /// Seconds between polls of the agent.
    pub poll_interval_secs: u64,
    pub enabled: bool,
    /// Whether the background poller runs.
    pub poller_spawned: bool,
    /// When each security alert last fired.
    pub alert_cooldowns: AlertCooldowns,
}

impl WindowsPlugin {
    /// A tab polling the agent at `agent_url` every `poll_interval_secs`.
    pub fn new(enabled: bool, agent_url: String, poll_interval_secs: u64) -> (p: WindowsPlugin)
        ensures
            p.enabled == enabled,
            p.agent_url@ == agent_url@,
            p.poll_interval_secs == poll_interval_secs,
            !p.poller_spawned,
            fresh_windows_state(p.state),
            p.alert_cooldowns.view() == Map::<AlertKey, u128>::empty(),
    {
        WindowsPlugin {
            state: WindowsState::new(),
            agent_url,
            poll_interval_secs,
            enabled,
            poller_spawned: false,
            alert_cooldowns: AlertCooldowns::new(),
        }
    }

    /// Handles `key`; `process_count` is the length of the snapshot's process
    /// list (`None` without a snapshot) and `ai_context` the analysis request
    /// built from the snapshot (`None` without one).
    pub fn handle_key(&mut self, key: Key, process_count: Option<usize>, ai_context: Option<String>) -> (a: PluginAction)
        ensures
            final(self).state == windows_key_state(old(self).state, key, process_count, ai_context is Some),
            a@ == windows_key_action(old(self).state, key, opt_view(ai_context)),
            final(self).agent_url == old(self).agent_url,
            final(self).poll_interval_secs == old(self).poll_interval_secs,
            final(self).enabled == old(self).enabled,
            final(self).poller_spawned == old(self).poller_spawned,
            final(self).alert_cooldowns == old(self).alert_cooldowns,
    {
        match key {
            Key::Char(c) => {
                if c == 'a' || c == 'A' {
                    if !self.state.ai_loading {
                        match ai_context {
                            Some(ctx) => {
                                self.state.ai_loading = true;
                                self.state.ai_analysis = None;
                                self.state.ai_scroll = 0;
                                PluginAction::RequestAiAnalysis(ctx)
                            },
                            None => PluginAction::SetStatus(
                                string_of(chars_of("No snapshot available for AI analysis").as_slice()),
                            ),
                        }
                    } else {
                        PluginAction::Consumed
                    }
                } else if c == 's' {
                    self.state.cycle_sort();
                    PluginAction::Consumed
                } else if c == 'S' {
                    self.state.toggle_sort_direction();
                    PluginAction::Consumed
                } else if c == 'f' {
                    self.state.toggle_panel_focus();
                    PluginAction::Consumed
                } else if c == 'F' && self.state.focused_panel.is_some() {
                    self.state.cycle_panel_forward();
                    PluginAction::Consumed
                } else if c == 'k' {
                    self.state.move_selection_up();
                    PluginAction::Consumed
                } else if c == 'j' {
                    self.state.move_selection_down(process_count);
                    PluginAction::Consumed
                } else {
                    PluginAction::Ignored
                }
            },
            Key::Up => {
                self.state.move_selection_up();
                PluginAction::Consumed
            },
            Key::Down => {
                self.state.move_selection_down(process_count);
                PluginAction::Consumed
            },
            Key::PageUp => {
                page_up(&mut self.state);
                PluginAction::Consumed
            },
            Key::PageDown => {
                page_down(&mut self.state, process_count);
                PluginAction::Consumed
            },
            Key::Home => {
                self.state.selected_process = 0;
                self.state.scroll_offset = 0;
                PluginAction::Consumed
            },
            Key::End => {
                if let Some(n) = process_count {
                    self.state.selected_process = if n > 0 {
                        n - 1
                    } else {
                        0
                    };
                }
                PluginAction::Consumed
            },
            _ => PluginAction::Ignored,
        }
    }

    /// Appends a piece of the streamed AI analysis.
    pub fn receive_ai_chunk(&mut self, chunk: &str)
        ensures
            final(self).state == (WindowsState { ai_analysis: final(self).state.ai_analysis, ..old(self).state }),
            final(self).state.ai_analysis is Some,
            final(self).state.ai_analysis->0@ == match old(self).state.ai_analysis {
                Some(a) => a@ + chunk@,
                None => chunk@,
            },
            final(self).agent_url == old(self).agent_url,
            final(self).poll_interval_secs == old(self).poll_interval_secs,
            final(self).enabled == old(self).enabled,
            final(self).poller_spawned == old(self).poller_spawned,
            final(self).alert_cooldowns == old(self).alert_cooldowns,
    {
        let text = match &self.state.ai_analysis {
            Some(a) => {
                let mut v = chars_of(a.as_str());
                push_str(&mut v, chunk);
                string_of(v.as_slice())
            },
            None => string_of(chars_of(chunk).as_slice()),
        };
        self.state.ai_analysis = Some(text);
    }

    /// The AI analysis stream ended.
    pub fn ai_analysis_done(&mut self)
        ensures
            final(self).state == (WindowsState { ai_loading: false, ..old(self).state }),
            final(self).agent_url == old(self).agent_url,
            final(self).poll_interval_secs == old(self).poll_interval_secs,
            final(self).enabled == old(self).enabled,
            final(self).poller_spawned == old(self).poller_spawned,
            final(self).alert_cooldowns == old(self).alert_cooldowns,
    {
        self.state.ai_loading = false;
    }

    /// The AI analysis failed with `error`, which replaces the analysis text.
    pub fn ai_analysis_error(&mut self, error: &str)
        ensures
            final(self).state == (WindowsState {
                ai_loading: false,
                ai_analysis: final(self).state.ai_analysis,
                ..old(self).state
            }),
            final(self).state.ai_analysis is Some,
            final(self).state.ai_analysis->0@ == "Error: "@ + error@,
            final(self).agent_url == old(self).agent_url,
            final(self).poll_interval_secs == old(self).poll_interval_secs,
            final(self).enabled == old(self).enabled,
            final(self).poller_spawned == old(self).poller_spawned,
            final(self).alert_cooldowns == old(self).alert_cooldowns,
    {
        self.state.ai_loading = false;
        let mut v = chars_of("Error: ");
        push_str(&mut v, error);
        self.state.ai_analysis = Some(string_of(v.as_slice()));
    }

    /// The URL the poller uses: `wsl_host_ip` is the Windows host's address
    /// when running under WSL and it could be found, `None` otherwise.
    pub fn resolve_agent_url(&self, wsl_host_ip: Option<String>) -> (r: String)
        ensures
            r@ == resolved_agent_url(self.agent_url@, opt_view(wsl_host_ip)),
    {
        let url = chars_of(self.agent_url.as_str());
        if !contains_str(url.as_slice(), "localhost") && !contains_str(url.as_slice(), "127.0.0.1") {
            return self.agent_url.clone();
        }
        match wsl_host_ip {
            Some(ip) => {
                proof {
                    reveal_strlit("localhost");
                    reveal_strlit("127.0.0.1");
                }
                let once = replace_str(url.as_slice(), "localhost", ip.as_str());
                let twice = replace_str(once.as_slice(), "127.0.0.1", ip.as_str());
                string_of(twice.as_slice())
            },
            None => self.agent_url.clone(),
        }
    }

    /// Answers the `windows` command. `summary` is the text that sums up the
    /// agent's latest snapshot (`None` while there is none); other commands
    /// get no answer.
    pub fn execute_command(&mut self, cmd: &str, _args: &str, summary: Option<String>) -> (r: Option<String>)
        ensures
            *final(self) == *old(self),
            cmd@ != "windows"@ ==> r is None,
            cmd@ == "windows"@ ==> r is Some && r->0@ == windows_command_reply(
                opt_view(summary),
                old(self).state.agent_connected,
                old(self).agent_url@,
            ),
    {
        let c = chars_of(cmd);
        if !eq_str(c.as_slice(), "windows") {
            return None;
        }
        match summary {
            Some(s) => Some(s),
            None => {
                if self.state.agent_connected {
                    Some(string_of(chars_of("Windows agent connected, waiting for data...").as_slice()))
                } else {
                    let mut v = chars_of("Windows agent not connected. URL: ");
                    push_str(&mut v, self.agent_url.as_str());
                    Some(string_of(v.as_slice()))
                }
            },
        }
    }

    /// Key hints for the status bar.
    pub fn status_bar_hints(&self) -> (r: Vec<(&'static str, &'static str)>)
        ensures
            r@.map_values(|h: (&str, &str)| (h.0@, h.1@)) == seq![
                ("j/k"@, "Navigate"@),
                ("s"@, "Sort"@),
                ("S"@, "Direction"@),
                ("f"@, "Focus"@),
                ("a"@, "AI Analysis"@),
            ],
    {
        let r = vec![("j/k", "Navigate"), ("s", "Sort"), ("S", "Direction"), ("f", "Focus"), ("a", "AI Analysis")];
        proof {
            assert(r@.map_values(|h: (&str, &str)| (h.0@, h.1@)) =~= seq![
                ("j/k"@, "Navigate"@),
                ("s"@, "Sort"@),
                ("S"@, "Direction"@),
                ("f"@, "Focus"@),
                ("a"@, "AI Analysis"@),
            ]);
        }
        r
    }

    /// The keys listed in the help overlay.
    pub fn help_entries(&self) -> (r: Vec<(&'static str, &'static str)>)
        ensures
            r@.len() == 11,
            r@.map_values(|h: (&str, &str)| h.0@) == seq![
                "j / Up"@,
                "k / Down"@,
                "s"@,
                "S"@,
                "f"@,
                "F"@,
                "a"@,
                "PgUp"@,
                "PgDn"@,
                "Home"@,
                "End"@,
            ],
    {
        let r = vec![
            ("j / Up", "Move selection up"),
            ("k / Down", "Move selection down"),
            ("s", "Cycle sort field (CPU/RAM/PID/Name)"),
            ("S", "Toggle sort direction (asc/desc)"),
            ("f", "Focus/expand current panel"),
            ("F", "Cycle focused panel"),
            ("a", "AI security analysis (Haiku)"),
            ("PgUp", "Page up in process list"),
            ("PgDn", "Page down in process list"),
            ("Home", "Jump to first process"),
            ("End", "Jump to last process"),
        ];
        proof {
            assert(r@.map_values(|h: (&str, &str)| h.0@) =~= seq![
                "j / Up"@,
                "k / Down"@,
                "s"@,
                "S"@,
                "f"@,
                "F"@,
                "a"@,
                "PgUp"@,
                "PgDn"@,
                "Home"@,
                "End"@,
            ]);
        }
        r
    }

    /// The commands the tab answers.
    pub fn commands(&self) -> (r: Vec<(&'static str, &'static str)>)
        ensures
            r@.map_values(|h: (&str, &str)| (h.0@, h.1@)) == seq![("windows"@, "Show Windows host status"@)],
    {
        let r = vec![("windows", "Show Windows host status")];
        proof {
            assert(r@.map_values(|h: (&str, &str)| (h.0@, h.1@)) =~= seq![
                ("windows"@, "Show Windows host status"@),
            ]);
        }
        r
    }
}

impl Plugin for WindowsPlugin {
    open spec fn spec_id(&self) -> Seq<char> {
        "windows"@
    }

    open spec fn spec_enabled(&self) -> bool {
        self.enabled
    }

    fn id(&self) -> (r: &str) {
        "windows"
    }

    fn tab_label(&self) -> (r: &str)
        ensures
            r@ == "Windows"@,
    {
        "Windows"
    }

    fn is_enabled(&self) -> (r: bool) {
        self.enabled
    }

    /// The tab's background work is driven by the application, so a tick here
    /// has nothing to do.
    fn tick(&mut self) {
    }
}

} // verus!
