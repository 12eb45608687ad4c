//! The plugin interface and the registry that holds the plugins in tab order.

use vstd::prelude::*;
use crate::text::{chars_eq, chars_of};

verus! {

/// A key press, as the tabs see it.
#[derive(Debug, Clone, Copy, PartialEq, Eq, Structural)]
pub enum Key {
    Char(char),
    Up,
    Down,
    Left,
    Right,
    PageUp,
    PageDown,
    Home,
    End,
    Enter,
    Esc,
    Backspace,
    Tab,
    /// Any other key.
    Other,
}

/// What a tab asks of the application after handling a key.
#[derive(Debug, Clone)]
pub enum PluginAction {
    /// The key was handled.
    Consumed,
    /// The tab has no use for the key.
    Ignored,
    /// Show a message in the status bar.
    SetStatus(String),
    /// Start an AI analysis of the given context.
    RequestAiAnalysis(String),
}

/// The plain value of a `PluginAction`.
pub enum ActionView {
    Consumed,
    Ignored,
    SetStatus(Seq<char>),
    RequestAiAnalysis(Seq<char>),
}

impl PluginAction {
    pub open spec fn view(&self) -> ActionView {
        match self {
            PluginAction::Consumed => ActionView::Consumed,
            PluginAction::Ignored => ActionView::Ignored,
            PluginAction::SetStatus(s) => ActionView::SetStatus(s@),
            PluginAction::RequestAiAnalysis(s) => ActionView::RequestAiAnalysis(s@),
        }
    }
}

/// A tab of the monitor. Each plugin names itself, says whether it is shown,
/// and is ticked once per frame to drain its own background work.
pub trait Plugin {
    /// The plugin's stable identifier; a plugin states it by overriding this.
    open spec fn spec_id(&self) -> Seq<char> {
        Seq::empty()
    }

    /// Whether the plugin is currently enabled; a plugin states it by
    /// overriding this.
    open spec fn spec_enabled(&self) -> bool {
        false
    }

    /// Stable identifier, used for lookups.
    fn id(&self) -> (r: &str)
        ensures
            r@ == self.spec_id(),
    ;

    /// Text of the plugin's tab.
    fn tab_label(&self) -> &str;

    /// Whether the plugin is shown.
    fn is_enabled(&self) -> (r: bool)
        ensures
            r == self.spec_enabled(),
    ;

    /// The plugin's per-frame state, as far as a plugin describes it by
    /// overriding this.
    open spec fn spec_state(&self) -> Seq<int> {
        Seq::empty()
    }

    /// The state one tick leads to from this one; a plugin whose `tick` does
    /// work states it by overriding this.
    open spec fn spec_state_after_tick(&self) -> Seq<int> {
        self.spec_state()
    }

    /// Per-frame housekeeping. A tick takes the plugin to the state one tick
    /// leads to, and it keeps its identifier.
    fn tick(&mut self)
        ensures
            final(self).spec_state() == old(self).spec_state_after_tick(),
            final(self).spec_id() == old(self).spec_id(),
    ;
}

/// The element at `index` of `v`, mutably.
fn slot_of(v: &mut Vec<Box<dyn Plugin>>, index: usize) -> (p: &mut Box<dyn Plugin>)
    requires
        index < old(v)@.len(),
    ensures
        *p == old(v)@[index as int],
        final(v)@.len() == old(v)@.len(),
        final(v)@[index as int] == *final(p),
        forall|j: int| 0 <= j < old(v)@.len() && j != index ==> final(v)@[j] == old(v)@[j],
{
    &mut v[index]
}

/// Central registry of the compiled-in plugins, kept in registration order.
pub struct PluginRegistry {
    plugins: Vec<Box<dyn Plugin>>,
}

/// The positions of the enabled plugins among `s[..n]`, in order.
pub open spec fn enabled_positions(s: Seq<Box<dyn Plugin>>, n: int) -> Seq<usize>
    decreases n,
{
    if n <= 0 {
        Seq::empty()
    } else if s[n - 1].spec_enabled() {
        enabled_positions(s, n - 1).push((n - 1) as usize)
    } else {
        enabled_positions(s, n - 1)
    }
}

/// Position `i` holds the first plugin in `s` with identifier `id`.
pub open spec fn is_first_with_id(s: Seq<Box<dyn Plugin>>, id: Seq<char>, i: int) -> bool {
    &&& 0 <= i < s.len()
    &&& s[i].spec_id() == id
    &&& forall|j: int| 0 <= j < i ==> #[trigger] s[j].spec_id() != id
}

/// No plugin in `s` has identifier `id`.
pub open spec fn has_no_id(s: Seq<Box<dyn Plugin>>, id: Seq<char>) -> bool {
    forall|j: int| 0 <= j < s.len() ==> #[trigger] s[j].spec_id() != id
}

impl PluginRegistry {
    /// The registered plugins, in registration order.
    pub closed spec fn view(&self) -> Seq<Box<dyn Plugin>> {
        self.plugins@
    }

    /// An empty registry.
    pub fn new() -> (r: PluginRegistry)
        ensures
            r.view().len() == 0,
    {
        PluginRegistry { plugins: Vec::new() }
    }

    /// Registers a plugin after the existing ones.
    pub fn register(&mut self, plugin: Box<dyn Plugin>)
        ensures
            final(self).view() == old(self).view().push(plugin),
            final(self).view().len() == old(self).view().len() + 1,
            forall|k: int| 0 <= k < old(self).view().len() ==> #[trigger] final(self).view()[k] == old(self).view()[k],
    {
        let ghost before = self.plugins@;
        self.plugins.push(plugin);
        proof {
            vstd::seq::axiom_seq_push_len(before, plugin);
            assert forall|k: int| 0 <= k < before.len() implies #[trigger] self.plugins@[k] == before[k] by {
                vstd::seq::axiom_seq_push_index_different(before, plugin, k);
            }
        }
    }

    /// Number of registered plugins.
    pub fn len(&self) -> (n: usize)
        ensures
            n == self.view().len(),
    {
        self.plugins.len()
    }

    /// All plugins.
    pub fn plugins(&self) -> (r: &[Box<dyn Plugin>])
        ensures
            r@ == self.view(),
    {
        self.plugins.as_slice()
    }

    /// All plugins, for ticking and key handling.
    pub fn plugins_mut(&mut self) -> (r: &mut [Box<dyn Plugin>])
        ensures
            r@ == old(self).view(),
            final(self).view() == final(r)@,
    {
        self.plugins.as_mut_slice()
    }

    /// The enabled plugins with their positions, in registration order.
    pub fn enabled_plugins(&self) -> (r: Vec<(usize, &Box<dyn Plugin>)>)
        ensures
            r@.len() == enabled_positions(self.view(), self.view().len() as int).len(),
            forall|k: int| 0 <= k < r@.len() ==> {
                &&& (#[trigger] r@[k]).0 == enabled_positions(self.view(), self.view().len() as int)[k]
                &&& *r@[k].1 == self.view()[r@[k].0 as int]
            },
    {
        let mut r: Vec<(usize, &Box<dyn Plugin>)> = Vec::new();
        let n = self.plugins.len();
        let mut i: usize = 0;
        while i < n
            invariant
                n == self.plugins@.len(),
                i <= n,
                r@.len() == enabled_positions(self.plugins@, i as int).len(),
                forall|k: int| 0 <= k < r@.len() ==> {
                    &&& (#[trigger] r@[k]).0 == enabled_positions(self.plugins@, i as int)[k]
                    &&& *r@[k].1 == self.plugins@[r@[k].0 as int]
                },
            decreases n - i,
        {
            let p: &Box<dyn Plugin> = &self.plugins[i];
            let ghost before = enabled_positions(self.plugins@, i as int);
            if p.is_enabled() {
                r.push((i, p));
                assert(enabled_positions(self.plugins@, i + 1) == before.push(i));
            } else {
                assert(enabled_positions(self.plugins@, i + 1) == before);
            }
            i = i + 1;
        }
        r
    }

    /// How many plugins are enabled.
    pub fn enabled_count(&self) -> (n: usize)
        ensures
            n == enabled_positions(self.view(), self.view().len() as int).len(),
    {
        let mut count: usize = 0;
        let n = self.plugins.len();
        let mut i: usize = 0;
        while i < n
            invariant
                n == self.plugins@.len(),
                i <= n,
                count == enabled_positions(self.plugins@, i as int).len(),
                count <= i,
            decreases n - i,
        {
            if self.plugins[i].is_enabled() {
                count = count + 1;
            }
            i = i + 1;
        }
        count
    }

    /// The plugin at `index`, if there is one.
    pub fn get(&self, index: usize) -> (r: Option<&Box<dyn Plugin>>)
        ensures
            match r {
                Some(p) => index < self.view().len() && *p == self.view()[index as int],
                None => index >= self.view().len(),
            },
    {
        if index < self.plugins.len() {
            Some(&self.plugins[index])
        } else {
            None
        }
    }

    /// The plugin at `index`, mutably, if there is one.
    pub fn get_mut(&mut self, index: usize) -> (r: Option<&mut Box<dyn Plugin>>)
        ensures
            match r {
                Some(p) => {
                    &&& index < old(self).view().len()
                    &&& *p == old(self).view()[index as int]
                    &&& final(self).view().len() == old(self).view().len()
                    &&& final(self).view()[index as int] == *final(p)
                    &&& forall|j: int| 0 <= j < old(self).view().len() && j != index ==> final(self).view()[j] == old(self).view()[j]
                },
                None => index >= old(self).view().len() && final(self).view() == old(self).view(),
            },
    {
        if index < self.plugins.len() {
            Some(slot_of(&mut self.plugins, index))
        } else {
            None
        }
    }

    /// Position of the first plugin whose identifier equals `id`.
    fn position_of(&self, id: &str) -> (r: Option<usize>)
        ensures
            match r {
                Some(i) => is_first_with_id(self.view(), id@, i as int),
                None => has_no_id(self.view(), id@),
            },
    {
        let want = chars_of(id);
        let n = self.plugins.len();
        let mut i: usize = 0;
        while i < n
            invariant
                n == self.plugins@.len(),
                i <= n,
                want@ == id@,
                forall|j: int| 0 <= j < i ==> #[trigger] self.plugins@[j].spec_id() != id@,
            decreases n - i,
        {
            let pid = chars_of(self.plugins[i].id());
            if chars_eq(pid.as_slice(), want.as_slice()) {
                return Some(i);
            }
            i = i + 1;
        }
        None
    }

    /// The first plugin whose identifier equals `id`, with its position.
    pub fn find_by_id(&self, id: &str) -> (r: Option<(usize, &Box<dyn Plugin>)>)
        ensures
            match r {
                Some((i, p)) => is_first_with_id(self.view(), id@, i as int) && *p == self.view()[i as int],
                None => has_no_id(self.view(), id@),
            },
    {
        match self.position_of(id) {
            Some(i) => Some((i, &self.plugins[i])),
            None => None,
        }
    }

    /// The first plugin whose identifier equals `id`, mutably, with its position.
    pub fn find_by_id_mut(&mut self, id: &str) -> (r: Option<(usize, &mut Box<dyn Plugin>)>)
        ensures
            match r {
                Some((i, p)) => {
                    &&& is_first_with_id(old(self).view(), id@, i as int)
                    &&& *p == old(self).view()[i as int]
                    &&& final(self).view().len() == old(self).view().len()
                    &&& final(self).view()[i as int] == *final(p)
                    &&& forall|j: int| 0 <= j < old(self).view().len() && j != i ==> final(self).view()[j] == old(self).view()[j]
                },
                None => has_no_id(old(self).view(), id@) && final(self).view() == old(self).view(),
            },
    {
        match self.position_of(id) {
            Some(i) => Some((i, slot_of(&mut self.plugins, i))),
            None => None,
        }
    }

    /// Ticks every plugin once, in registration order: each plugin ends in the
    /// state one tick leads to from where it was, keeping its identifier.
    pub fn tick_all(&mut self)
        ensures
            final(self).view().len() == old(self).view().len(),
            forall|k: int| 0 <= k < old(self).view().len() ==> (#[trigger] final(self).view()[k]).spec_state()
                == old(self).view()[k].spec_state_after_tick(),
            forall|k: int| 0 <= k < old(self).view().len() ==> (#[trigger] final(self).view()[k]).spec_id()
                == old(self).view()[k].spec_id(),
    {
        let n = self.plugins.len();
        let mut i: usize = 0;
        while i < n
            invariant
                n == self.plugins@.len(),
                n == old(self).plugins@.len(),
                i <= n,
                forall|k: int| 0 <= k < i ==> (#[trigger] self.plugins@[k]).spec_state()
                    == old(self).plugins@[k].spec_state_after_tick(),
                forall|k: int| 0 <= k < i ==> (#[trigger] self.plugins@[k]).spec_id() == old(self).plugins@[k].spec_id(),
                forall|k: int| i <= k < n ==> #[trigger] self.plugins@[k] == old(self).plugins@[k],
            decreases n - i,
        {
            let p = slot_of(&mut self.plugins, i);
            p.tick();
            i = i + 1;
        }
    }
}

} // verus!
