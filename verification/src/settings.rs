//! Settings tab: the categories the settings are grouped under, and how the
//! tab's keys move through the settings and edit them. A key that edits a
//! value hands the setting's key and the text to store to the caller, which
//! stores it with `settings_config::apply_setting` (a typed number is first
//! clamped to its bounds, in floating point) and rebuilds the list with
//! `settings_config::settings_list`.

use vstd::prelude::*;
use crate::registry::{Key, Plugin};
use crate::text::{
    byte_len, chars_of, eq_str, is_control, is_ctrl, is_digit, lemma_byte_len_push, push_str, spec_trim,
    str_byte_len, string_of, trim,
};

verus! {

/// Setting category shown in the left column of the settings tab.
#[derive(Debug, Clone, Copy, PartialEq, Eq, Structural)]
pub enum SettingsCategory {
    General,
    Market,
    Thermal,
    Alerts,
    Security,
    Notifications,
}

/// Every category, in display order.
pub open spec fn all_categories() -> Seq<SettingsCategory> {
    seq![
        SettingsCategory::General,
        SettingsCategory::Market,
        SettingsCategory::Thermal,
        SettingsCategory::Alerts,
        SettingsCategory::Security,
        SettingsCategory::Notifications,
    ]
}

/// The name shown for each category.
pub open spec fn category_label(c: SettingsCategory) -> Seq<char> {
    match c {
        SettingsCategory::General => "General"@,
        SettingsCategory::Market => "Market"@,
        SettingsCategory::Thermal => "Thermal"@,
        SettingsCategory::Alerts => "Alerts"@,
        SettingsCategory::Security => "Security"@,
        SettingsCategory::Notifications => "Notifications"@,
    }
}

impl SettingsCategory {
    /// All categories, in display order.
    pub fn all() -> (r: Vec<SettingsCategory>)
        ensures
            r@ == all_categories(),
    {
        vec![
            SettingsCategory::General,
            SettingsCategory::Market,
            SettingsCategory::Thermal,
            SettingsCategory::Alerts,
            SettingsCategory::Security,
            SettingsCategory::Notifications,
        ]
    }

    /// Display name.
    pub fn label(&self) -> (r: &'static str)
        ensures
            r@ == category_label(*self),
    {
        match self {
            SettingsCategory::General => "General",
            SettingsCategory::Market => "Market",
            SettingsCategory::Thermal => "Thermal",
            SettingsCategory::Alerts => "Alerts",
            SettingsCategory::Security => "Security",
            SettingsCategory::Notifications => "Notifications",
        }
    }
}

/// Every category is listed by `all`, exactly once.
pub proof fn lemma_all_categories_listed_once()
    ensures
        forall|c: SettingsCategory| #[trigger] all_categories().contains(c),
        forall|i: int, j: int| 0 <= i < j < all_categories().len() ==> all_categories()[i] != all_categories()[j],
{
    assert forall|c: SettingsCategory| #[trigger] all_categories().contains(c) by {
        match c {
            SettingsCategory::General => assert(all_categories()[0] == c),
            SettingsCategory::Market => assert(all_categories()[1] == c),
            SettingsCategory::Thermal => assert(all_categories()[2] == c),
            SettingsCategory::Alerts => assert(all_categories()[3] == c),
            SettingsCategory::Security => assert(all_categories()[4] == c),
            SettingsCategory::Notifications => assert(all_categories()[5] == c),
        }
    }
}

// ── Settings and how they are edited ─────────────────────────────

/// How a setting is edited in the tab.
#[derive(Debug, Clone)]
pub enum SettingKind {
    /// `Enter`/`Space` flips between "true" and "false".
    Toggle,
    /// `Enter`/`Space` moves to the next of a fixed list of values.
    Cycle(Vec<String>),
    /// `Enter` starts typing a number; its bounds are whole numbers.
    Number { min: u64, max: u64, suffix: String, integer: bool },
    /// `Enter` starts typing free text of at most `max_length` bytes.
    Text { max_length: usize, masked: bool },
    /// Shown only; edited in the configuration file.
    ReadOnly,
}

/// A single setting, with the configuration key it maps to.
#[derive(Debug, Clone)]
pub struct SettingItem {
    /// Dot-separated configuration field, such as `thermal.warning_threshold`.
    pub key: String,
    pub label: String,
    /// Current value, as shown.
    pub value: String,
    pub description: String,
    pub kind: SettingKind,
}

/// What the settings tab asks of the application after a key.
#[derive(Debug, Clone)]
pub enum SettingsRequest {
    /// The key was handled.
    Consumed,
    /// The tab has no use for the key.
    Ignored,
    /// Show a message in the status bar.
    SetStatus(String),
    /// Store `value` under the setting `key`.
    Apply { key: String, value: String },
    /// Clamp the typed number `raw` to `min..=max` (to a whole number when
    /// `integer`), then store it under the setting `key`.
    ApplyNumber { key: String, raw: String, min: u64, max: u64, integer: bool },
}

/// The plain value of a `SettingsRequest`.
pub enum RequestView {
    Consumed,
    Ignored,
    SetStatus(Seq<char>),
    Apply(Seq<char>, Seq<char>),
    ApplyNumber(Seq<char>, Seq<char>, u64, u64, bool),
}

impl SettingsRequest {
    pub open spec fn view(&self) -> RequestView {
        match self {
            SettingsRequest::Consumed => RequestView::Consumed,
            SettingsRequest::Ignored => RequestView::Ignored,
            SettingsRequest::SetStatus(s) => RequestView::SetStatus(s@),
            SettingsRequest::Apply { key, value } => RequestView::Apply(key@, value@),
            SettingsRequest::ApplyNumber { key, raw, min, max, integer } => RequestView::ApplyNumber(
                key@,
                raw@,
                *min,
                *max,
                *integer,
            ),
        }
    }
}

/// The message for a setting that is edited in the configuration file.
pub open spec fn read_only_message() -> Seq<char> {
    "This setting is read-only. Edit ~/.config/sentinel/config.toml for advanced settings."@
}

/// The settings of category `cat`, none when there is no such category.
pub open spec fn category_items(s: Seq<(SettingsCategory, Vec<SettingItem>)>, cat: int) -> Seq<SettingItem> {
    if 0 <= cat < s.len() {
        s[cat].1@
    } else {
        Seq::empty()
    }
}

/// Every cycling setting offers at least one value.
pub open spec fn cycles_nonempty(s: Seq<(SettingsCategory, Vec<SettingItem>)>) -> bool {
    forall|c: int, i: int|
        0 <= c < s.len() && 0 <= i < s[c].1@.len() ==> match #[trigger] s[c].1@[i].kind {
            SettingKind::Cycle(opts) => opts@.len() > 0,
            _ => true,
        }
}

/// Position `i` holds the first of `opts` equal to `v`.
pub open spec fn is_first_match(opts: Seq<Seq<char>>, v: Seq<char>, i: int) -> bool {
    &&& 0 <= i < opts.len()
    &&& opts[i] == v
    &&& forall|j: int| 0 <= j < i ==> opts[j] != v
}

/// Where cycling starts from: the first option equal to the current value,
/// else the first option.
pub open spec fn cycle_start(opts: Seq<Seq<char>>, v: Seq<char>) -> int {
    if exists|i: int| is_first_match(opts, v, i) {
        choose|i: int| is_first_match(opts, v, i)
    } else {
        0
    }
}

/// The option after the current value, wrapping around.
pub open spec fn cycle_next(opts: Seq<Seq<char>>, v: Seq<char>) -> Seq<char> {
    opts[(cycle_start(opts, v) + 1) % (opts.len() as int)]
}

/// The characters of each option.
pub open spec fn option_texts(opts: Seq<String>) -> Seq<Seq<char>> {
    opts.map_values(|o: String| o@)
}

/// The state of the settings tab, as plain values.
pub struct SettingsView {
    pub enabled: bool,
    pub category: usize,
    pub item: usize,
    pub scroll: usize,
    pub settings: Seq<(SettingsCategory, Vec<SettingItem>)>,
    pub editing: bool,
    pub buffer: Seq<char>,
}

/// The selected setting, if the selection points at one.
pub open spec fn current_setting(v: SettingsView) -> Option<SettingItem> {
    let items = category_items(v.settings, v.category as int);
    if v.item < items.len() {
        Some(items[v.item as int])
    } else {
        None
    }
}

/// Whether typing `c` adds it to the buffer of a setting of kind `kind`:
/// numbers take digits and one decimal point, text takes printable
/// characters up to its byte limit.
pub open spec fn accepts_char(kind: SettingKind, buffer: Seq<char>, c: char) -> bool {
    match kind {
        SettingKind::Number { .. } => (is_digit(c) || c == '.') && !(c == '.' && buffer.contains('.')),
        SettingKind::Text { max_length, .. } => !is_ctrl(c) && byte_len(buffer) < max_length,
        _ => false,
    }
}

/// The state after `Enter`/`Space` on the selected setting: numbers and text
/// start editing with the current value in the buffer.
pub open spec fn activate_state(v: SettingsView) -> SettingsView {
    match current_setting(v) {
        Some(it) => match it.kind {
            SettingKind::Number { .. } => SettingsView { editing: true, buffer: it.value@, ..v },
            SettingKind::Text { .. } => SettingsView { editing: true, buffer: it.value@, ..v },
            _ => v,
        },
        None => v,
    }
}

/// What `Enter`/`Space` on the selected setting asks for.
pub open spec fn activate_request(v: SettingsView) -> RequestView {
    match current_setting(v) {
        Some(it) => match it.kind {
            SettingKind::Toggle => RequestView::Apply(
                it.key@,
                if it.value@ == "true"@ {
                    "false"@
                } else {
                    "true"@
                },
            ),
            SettingKind::Cycle(opts) => RequestView::Apply(it.key@, cycle_next(option_texts(opts@), it.value@)),
            SettingKind::ReadOnly => RequestView::SetStatus(read_only_message()),
            _ => RequestView::Consumed,
        },
        None => RequestView::Consumed,
    }
}

/// The state after a key while a value is being typed.
pub open spec fn edit_state(v: SettingsView, key: Key) -> SettingsView {
    match key {
        Key::Esc => SettingsView { editing: false, buffer: Seq::empty(), ..v },
        Key::Enter => SettingsView { editing: false, buffer: Seq::empty(), ..v },
        Key::Backspace => SettingsView {
            buffer: if v.buffer.len() > 0 {
                v.buffer.drop_last()
            } else {
                v.buffer
            },
            ..v
        },
        Key::Char(c) => match current_setting(v) {
            Some(it) => if accepts_char(it.kind, v.buffer, c) {
                SettingsView { buffer: v.buffer.push(c), ..v }
            } else {
                v
            },
            None => v,
        },
        _ => v,
    }
}

/// What a key asks for while a value is being typed: `Enter` hands the
/// typed number, or the trimmed text, to the application.
pub open spec fn edit_request(v: SettingsView, key: Key) -> RequestView {
    match key {
        Key::Enter => match current_setting(v) {
            Some(it) => match it.kind {
                SettingKind::Number { min, max, integer, .. } => RequestView::ApplyNumber(
                    it.key@,
                    v.buffer,
                    min,
                    max,
                    integer,
                ),
                SettingKind::Text { .. } => RequestView::Apply(it.key@, spec_trim(v.buffer)),
                _ => RequestView::Consumed,
            },
            None => RequestView::Consumed,
        },
        _ => RequestView::Consumed,
    }
}

/// The selection moved to category `c`, at its first setting.
pub open spec fn at_category(v: SettingsView, c: usize) -> SettingsView {
    SettingsView { category: c, item: 0, scroll: 0, ..v }
}

/// The state after a key.
pub open spec fn settings_key_state(v: SettingsView, key: Key) -> SettingsView {
    let len = category_items(v.settings, v.category as int).len();
    let last = if len > 0 {
        len - 1
    } else {
        0
    };
    let left = if v.category > 0 {
        at_category(v, (v.category - 1) as usize)
    } else {
        v
    };
    let right = if v.category < 5 {
        at_category(v, (v.category + 1) as usize)
    } else {
        v
    };
    let up = if v.item > 0 {
        SettingsView { item: (v.item - 1) as usize, ..v }
    } else {
        v
    };
    let down = if v.item < last {
        SettingsView { item: (v.item + 1) as usize, ..v }
    } else {
        v
    };
    if v.editing {
        edit_state(v, key)
    } else {
        match key {
            Key::Left => left,
            Key::Right => right,
            Key::Up => up,
            Key::Down => down,
            Key::Enter => activate_state(v),
            Key::Char(c) => if c == 'h' {
                left
            } else if c == 'l' {
                right
            } else if c == 'k' {
                up
            } else if c == 'j' {
                down
            } else if c == ' ' {
                activate_state(v)
            } else {
                v
            },
            _ => v,
        }
    }
}

/// What a key asks for.
pub open spec fn settings_key_request(v: SettingsView, key: Key) -> RequestView {
    if v.editing {
        edit_request(v, key)
    } else {
        match key {
            Key::Left | Key::Right | Key::Up | Key::Down => RequestView::Consumed,
            Key::Enter => activate_request(v),
            Key::Char(c) => if c == 'h' || c == 'l' || c == 'k' || c == 'j' {
                RequestView::Consumed
            } else if c == ' ' {
                activate_request(v)
            } else {
                RequestView::Ignored
            },
            _ => RequestView::Ignored,
        }
    }
}

// ── What every key keeps ─────────────────────────────────────────

/// The selection names one of the categories, and a setting of it (or the
/// first place, in an empty category).
pub open spec fn selection_in_range(v: SettingsView) -> bool {
    &&& v.category <= 5
    &&& (v.item == 0 || v.item < category_items(v.settings, v.category as int).len())
}

/// A typed value holds at most one decimal point.
pub open spec fn at_most_one_point(s: Seq<char>) -> bool {
    forall|i: int, j: int| 0 <= i < j < s.len() && s[i] == '.' ==> s[j] != '.'
}

/// Navigation never leaves the list: from a selection in range, every key
/// leads to a selection in range, and no key changes the settings shown.
pub proof fn lemma_selection_stays_in_range(v: SettingsView, key: Key)
    requires
        selection_in_range(v),
    ensures
        selection_in_range(settings_key_state(v, key)),
        settings_key_state(v, key).settings == v.settings,
{
}

/// While a value is being typed, no key moves the selection.
pub proof fn lemma_editing_keeps_selection(v: SettingsView, key: Key)
    requires
        v.editing,
    ensures
        settings_key_state(v, key).category == v.category,
        settings_key_state(v, key).item == v.item,
        settings_key_state(v, key).scroll == v.scroll,
        settings_key_state(v, key).settings == v.settings,
{
}

/// A number being typed never gains a second decimal point.
pub proof fn lemma_number_keeps_one_point(v: SettingsView, key: Key)
    requires
        v.editing,
        current_setting(v) matches Some(it) && it.kind is Number,
        at_most_one_point(v.buffer),
    ensures
        at_most_one_point(settings_key_state(v, key).buffer),
{
    let b = v.buffer;
    let nb = settings_key_state(v, key).buffer;
    if let Key::Char(c) = key {
        if nb != b {
            assert(nb == b.push(c));
            assert forall|i: int, j: int| 0 <= i < j < nb.len() && nb[i] == '.' implies nb[j] != '.' by {
                if j == b.len() && c == '.' {
                    assert(b.contains(nb[i]));
                }
            }
        }
    } else if key is Backspace && b.len() > 0 {
        assert forall|i: int, j: int| 0 <= i < j < nb.len() && nb[i] == '.' implies nb[j] != '.' by {
            assert(nb[i] == b[i] && nb[j] == b[j]);
        }
    }
}

/// Text being typed grows only while it is under its byte limit.
pub proof fn lemma_text_respects_limit(v: SettingsView, key: Key)
    requires
        v.editing,
        current_setting(v) matches Some(it) && it.kind is Text,
    ensures
        byte_len(settings_key_state(v, key).buffer) > byte_len(v.buffer) ==> byte_len(v.buffer)
            < current_setting(v)->0.kind->max_length,
{
    let b = v.buffer;
    let nb = settings_key_state(v, key).buffer;
    if key is Backspace && b.len() > 0 {
        assert(b == b.drop_last().push(b.last()));
        lemma_byte_len_push(b.drop_last(), b.last());
    } else if let Key::Char(c) = key {
        lemma_byte_len_push(b, c);
    }
}

/// How a setting's value is shown in the list: toggles as `[ON]`/`[OFF]`,
/// cycles between arrows, numbers with their unit, masked text as one star
/// per byte (at most 16), empty text as `[<empty>]`.
pub open spec fn value_display(value: Seq<char>, kind: SettingKind) -> Seq<char> {
    match kind {
        SettingKind::Toggle => if value == "true"@ {
            "[ON]"@
        } else {
            "[OFF]"@
        },
        SettingKind::Cycle(_) => "[< "@ + value + " >]"@,
        SettingKind::Number { suffix, .. } => "["@ + value + suffix@ + "]"@,
        SettingKind::Text { masked, .. } => if masked && value.len() > 0 {
            "["@ + Seq::new(
                if byte_len(value) < 16 {
                    byte_len(value)
                } else {
                    16
                },
                |i: int| '*',
            ) + "]"@
        } else if value.len() == 0 {
            "[<empty>]"@
        } else {
            "["@ + value + "]"@
        },
        SettingKind::ReadOnly => "["@ + value + "]"@,
    }
}

/// A setting's value as shown in the list.
pub fn format_value_for_kind(value: &str, kind: &SettingKind) -> (r: String)
    ensures
        r@ == value_display(value@, *kind),
{
    let v = chars_of(value);
    let out = match kind {
        SettingKind::Toggle => {
            if eq_str(v.as_slice(), "true") {
                chars_of("[ON]")
            } else {
                chars_of("[OFF]")
            }
        },
        SettingKind::Cycle(_) => {
            let mut o = chars_of("[< ");
            push_str(&mut o, value);
            push_str(&mut o, " >]");
            o
        },
        SettingKind::Number { suffix, .. } => {
            let mut o = chars_of("[");
            push_str(&mut o, value);
            push_str(&mut o, suffix.as_str());
            push_str(&mut o, "]");
            o
        },
        SettingKind::Text { masked, .. } => {
            if *masked && v.len() > 0 {
                let n = str_byte_len(value);
                let stars: usize = if n < 16 {
                    n
                } else {
                    16
                };
                let mut o = chars_of("[");
                let ghost start = o@;
                let mut i: usize = 0;
                while i < stars
                    invariant
                        i <= stars,
                        o@ == start + Seq::new(i as nat, |k: int| '*'),
                    decreases stars - i,
                {
                    o.push('*');
                    i = i + 1;
                    proof {
                        assert(o@ =~= start + Seq::new(i as nat, |k: int| '*'));
                    }
                }
                push_str(&mut o, "]");
                o
            } else if v.len() == 0 {
                chars_of("[<empty>]")
            } else {
                let mut o = chars_of("[");
                push_str(&mut o, value);
                push_str(&mut o, "]");
                o
            }
        },
        SettingKind::ReadOnly => {
            let mut o = chars_of("[");
            push_str(&mut o, value);
            push_str(&mut o, "]");
            o
        },
    };
    string_of(out.as_slice())
}

/// The settings tab.
pub struct SettingsPlugin {
    pub enabled: bool,
    pub selected_category: usize,
    pub selected_item: usize,
    pub scroll_offset: usize,
    /// The settings shown, grouped by category.
    pub settings: Vec<(SettingsCategory, Vec<SettingItem>)>,
    /// Whether a value is being typed.
    pub editing: bool,
    /// The value being typed.
    pub edit_buffer: Vec<char>,
}

impl SettingsPlugin {
    pub open spec fn view(&self) -> SettingsView {
        SettingsView {
            enabled: self.enabled,
            category: self.selected_category,
            item: self.selected_item,
            scroll: self.scroll_offset,
            settings: self.settings@,
            editing: self.editing,
            buffer: self.edit_buffer@,
        }
    }

    /// A tab showing `settings`, with the first setting of the first category
    /// selected.
    pub fn new(enabled: bool, settings: Vec<(SettingsCategory, Vec<SettingItem>)>) -> (p: SettingsPlugin)
        ensures
            p@ == (SettingsView {
                enabled,
                category: 0,
                item: 0,
                scroll: 0,
                settings: settings@,
                editing: false,
                buffer: Seq::empty(),
            }),
    {
        SettingsPlugin {
            enabled,
            selected_category: 0,
            selected_item: 0,
            scroll_offset: 0,
            settings,
            editing: false,
            edit_buffer: Vec::new(),
        }
    }

    /// Number of settings in the selected category.
    fn current_items_len(&self) -> (n: usize)
        ensures
            n == category_items(self.settings@, self.selected_category as int).len(),
    {
        if self.selected_category < self.settings.len() {
            self.settings[self.selected_category].1.len()
        } else {
            0
        }
    }

    /// The selected setting, if the selection points at one.
    pub fn current_item(&self) -> (r: Option<&SettingItem>)
        ensures
            match r {
                Some(it) => current_setting(self@) == Some(*it),
                None => current_setting(self@) is None,
            },
    {
        if self.selected_category < self.settings.len() {
            let items = &self.settings[self.selected_category].1;
            if self.selected_item < items.len() {
                Some(&items[self.selected_item])
            } else {
                None
            }
        } else {
            None
        }
    }

    /// The typed value, as text.
    pub fn edit_text(&self) -> (r: String)
        ensures
            r@ == self.edit_buffer@,
    {
        string_of(self.edit_buffer.as_slice())
    }

    /// Handles a key.
    pub fn handle_key(&mut self, key: Key) -> (r: SettingsRequest)
        requires
            cycles_nonempty(old(self).settings@),
        ensures
            final(self)@ == settings_key_state(old(self)@, key),
            r@ == settings_key_request(old(self)@, key),
    {
        if self.editing {
            return self.handle_edit_key(key);
        }
        let (left, right, up, down, activate) = match key {
            Key::Left => (true, false, false, false, false),
            Key::Right => (false, true, false, false, false),
            Key::Up => (false, false, true, false, false),
            Key::Down => (false, false, false, true, false),
            Key::Enter => (false, false, false, false, true),
            Key::Char(c) => (c == 'h', c == 'l', c == 'k', c == 'j', c == ' '),
            _ => (false, false, false, false, false),
        };
        if left {
            if self.selected_category > 0 {
                self.selected_category = self.selected_category - 1;
                self.selected_item = 0;
                self.scroll_offset = 0;
            }
            SettingsRequest::Consumed
        } else if right {
            if self.selected_category < 5 {
                self.selected_category = self.selected_category + 1;
                self.selected_item = 0;
                self.scroll_offset = 0;
            }
            SettingsRequest::Consumed
        } else if up {
            if self.selected_item > 0 {
                self.selected_item = self.selected_item - 1;
            }
            SettingsRequest::Consumed
        } else if down {
            let len = self.current_items_len();
            let last = if len > 0 {
                len - 1
            } else {
                0
            };
            if self.selected_item < last {
                self.selected_item = self.selected_item + 1;
            }
            SettingsRequest::Consumed
        } else if activate {
            self.activate_edit()
        } else {
            SettingsRequest::Ignored
        }
    }

    /// `Enter`/`Space` on the selected setting.
    fn activate_edit(&mut self) -> (r: SettingsRequest)
        requires
            cycles_nonempty(old(self).settings@),
        ensures
            final(self)@ == activate_state(old(self)@),
            r@ == activate_request(old(self)@),
    {
        let item = match self.current_item() {
            Some(it) => it,
            None => return SettingsRequest::Consumed,
        };
        let key = item.key.clone();
        match &item.kind {
            SettingKind::Toggle => {
                let current = eq_text(&item.value, "true");
                let value = if current {
                    string_of(chars_of("false").as_slice())
                } else {
                    string_of(chars_of("true").as_slice())
                };
                SettingsRequest::Apply { key, value }
            },
            SettingKind::Cycle(options) => {
                let next = cycle_next_value(options, &item.value);
                SettingsRequest::Apply { key, value: next }
            },
            SettingKind::Number { .. } => {
                let buffer = chars_of(item.value.as_str());
                self.editing = true;
                self.edit_buffer = buffer;
                SettingsRequest::Consumed
            },
            SettingKind::Text { .. } => {
                let buffer = chars_of(item.value.as_str());
                self.editing = true;
                self.edit_buffer = buffer;
                SettingsRequest::Consumed
            },
            SettingKind::ReadOnly => SettingsRequest::SetStatus(
                string_of(
                    chars_of(
                        "This setting is read-only. Edit ~/.config/sentinel/config.toml for advanced settings.",
                    ).as_slice(),
                ),
            ),
        }
    }

    /// A key while a value is being typed.
    fn handle_edit_key(&mut self, key: Key) -> (r: SettingsRequest)
        ensures
            final(self)@ == edit_state(old(self)@, key),
            r@ == edit_request(old(self)@, key),
    {
        match key {
            Key::Esc => {
                self.editing = false;
                self.edit_buffer = Vec::new();
                SettingsRequest::Consumed
            },
            Key::Enter => {
                let raw = string_of(self.edit_buffer.as_slice());
                let trimmed = trim(self.edit_buffer.as_slice());
                self.editing = false;
                self.edit_buffer = Vec::new();
                match self.current_item() {
                    Some(item) => match &item.kind {
                        SettingKind::Number { min, max, integer, .. } => SettingsRequest::ApplyNumber {
                            key: item.key.clone(),
                            raw,
                            min: *min,
                            max: *max,
                            integer: *integer,
                        },
                        SettingKind::Text { .. } => SettingsRequest::Apply {
                            key: item.key.clone(),
                            value: string_of(trimmed.as_slice()),
                        },
                        _ => SettingsRequest::Consumed,
                    },
                    None => SettingsRequest::Consumed,
                }
            },
            Key::Backspace => {
                if self.edit_buffer.len() > 0 {
                    self.edit_buffer.pop();
                }
                SettingsRequest::Consumed
            },
            Key::Char(c) => {
                let accept = match self.current_item() {
                    Some(item) => match &item.kind {
                        SettingKind::Number { .. } => {
                            ('0' <= c && c <= '9' || c == '.') && !(c == '.' && has_char(
                                self.edit_buffer.as_slice(),
                                '.',
                            ))
                        },
                        SettingKind::Text { max_length, .. } => {
                            let text = string_of(self.edit_buffer.as_slice());
                            !is_control(c) && str_byte_len(text.as_str()) < *max_length
                        },
                        _ => false,
                    },
                    None => false,
                };
                if accept {
                    self.edit_buffer.push(c);
                }
                SettingsRequest::Consumed
            },
            _ => SettingsRequest::Consumed,
        }
    }

    /// After the application tried to store a value under `key`: `rebuilt` is
    /// the list rebuilt from the updated configuration, or `None` when the
    /// value was refused. Gives the status message to show, if any.
    pub fn apply_result(&mut self, key: &str, rebuilt: Option<Vec<(SettingsCategory, Vec<SettingItem>)>>) -> (r: Option<String>)
        ensures
            match rebuilt {
                Some(s) => r is None && final(self)@ == (SettingsView { settings: s@, ..old(self)@ }),
                None => r is Some && r->0@ == "Invalid value for "@ + key@ && final(self)@ == old(self)@,
            },
    {
        match rebuilt {
            Some(s) => {
                self.settings = s;
                None
            },
            None => {
                let mut v = chars_of("Invalid value for ");
                push_str(&mut v, key);
                Some(string_of(v.as_slice()))
            },
        }
    }

    /// Key hints for the status bar.
    pub fn status_bar_hints(&self) -> (r: Vec<(&'static str, &'static str)>)
        ensures
            self.editing ==> r@.map_values(|h: (&str, &str)| (h.0@, h.1@)) == seq![
                ("Enter"@, "Confirm"@),
                ("Esc"@, "Cancel"@),
            ],
            !self.editing ==> r@.map_values(|h: (&str, &str)| (h.0@, h.1@)) == seq![
                ("\u{2190}\u{2192}"@, "Category"@),
                ("\u{2191}\u{2193}"@, "Setting"@),
                ("Enter"@, "Edit"@),
            ],
    {
        if self.editing {
            let r = vec![("Enter", "Confirm"), ("Esc", "Cancel")];
            proof {
                assert(r@.map_values(|h: (&str, &str)| (h.0@, h.1@)) =~= seq![
                    ("Enter"@, "Confirm"@),
                    ("Esc"@, "Cancel"@),
                ]);
            }
            r
        } else {
            let r = vec![("\u{2190}\u{2192}", "Category"), ("\u{2191}\u{2193}", "Setting"), ("Enter", "Edit")];
            proof {
                assert(r@.map_values(|h: (&str, &str)| (h.0@, h.1@)) =~= seq![
                    ("\u{2190}\u{2192}"@, "Category"@),
                    ("\u{2191}\u{2193}"@, "Setting"@),
                    ("Enter"@, "Edit"@),
                ]);
            }
            r
        }
    }

    /// The keys listed in the help overlay.
    pub fn help_entries(&self) -> (r: Vec<(&'static str, &'static str)>)
        ensures
            r@.map_values(|h: (&str, &str)| (h.0@, h.1@)) == seq![
                ("Left/Right"@, "Switch settings category"@),
                ("Up/Down"@, "Navigate settings"@),
                ("Enter/Space"@, "Edit selected setting"@),
                ("Esc"@, "Cancel number edit"@),
            ],
    {
        let r = vec![
            ("Left/Right", "Switch settings category"),
            ("Up/Down", "Navigate settings"),
            ("Enter/Space", "Edit selected setting"),
            ("Esc", "Cancel number edit"),
        ];
        proof {
            assert(r@.map_values(|h: (&str, &str)| (h.0@, h.1@)) =~= seq![
                ("Left/Right"@, "Switch settings category"@),
                ("Up/Down"@, "Navigate settings"@),
                ("Enter/Space"@, "Edit selected setting"@),
                ("Esc"@, "Cancel number edit"@),
            ]);
        }
        r
    }
}

/// Whether `s` holds exactly the characters of `lit`.
fn eq_text(s: &String, lit: &str) -> (r: bool)
    ensures
        r == (s@ == lit@),
{
    let a = chars_of(s.as_str());
    eq_str(a.as_slice(), lit)
}

/// Whether `c` occurs in `s`.
fn has_char(s: &[char], c: char) -> (r: bool)
    ensures
        r == s@.contains(c),
{
    let mut i: usize = 0;
    while i < s.len()
        invariant
            i <= s@.len(),
            forall|j: int| 0 <= j < i ==> s@[j] != c,
        decreases s@.len() - i,
    {
        if s[i] == c {
            return true;
        }
        i = i + 1;
    }
    false
}

/// The option after `value` among `options`, wrapping around; cycling starts
/// from the first option when `value` is not among them.
fn cycle_next_value(options: &Vec<String>, value: &String) -> (r: String)
    requires
        options@.len() > 0,
    ensures
        r@ == cycle_next(option_texts(options@), value@),
{
    let ghost opts = option_texts(options@);
    let mut i: usize = 0;
    let mut found = false;
    while !found && i < options.len()
        invariant
            i <= options@.len(),
            opts == option_texts(options@),
            !found ==> forall|j: int| 0 <= j < i ==> opts[j] != value@,
            found ==> is_first_match(opts, value@, i as int),
        decreases options@.len() - i + (if found {
            0int
        } else {
            1int
        }),
    {
        if options[i] == *value {
            found = true;
        } else {
            i = i + 1;
        }
    }
    let start: usize = if found {
        i
    } else {
        0
    };
    proof {
        if found {
            assert forall|k: int| is_first_match(opts, value@, k) implies k == i by {
                if k < i {
                    assert(opts[k] == value@);
                } else if k > i {
                    assert(opts[i as int] == value@);
                }
            }
            assert(is_first_match(opts, value@, i as int));
        } else {
            assert forall|k: int| !is_first_match(opts, value@, k) by {
                if 0 <= k < opts.len() {
                    assert(opts[k] != value@);
                }
            }
        }
        assert(cycle_start(opts, value@) == start);
        assert(start < options@.len());
    }
    let n = options.len();
    let next = if start + 1 < n {
        start + 1
    } else {
        0
    };
    proof {
        let (a, m) = ((start + 1) as int, n as int);
        assert(next as int == a % m) by (nonlinear_arith)
            requires
                0 < a <= m,
                next as int == (if a < m {
                    a
                } else {
                    0
                }),
        ;
    }
    options[next].clone()
}

impl Plugin for SettingsPlugin {
    open spec fn spec_id(&self) -> Seq<char> {
        "settings"@
    }

    open spec fn spec_enabled(&self) -> bool {
        self.enabled
    }

    fn id(&self) -> (r: &str) {
        "settings"
    }

    fn tab_label(&self) -> (r: &str)
        ensures
            r@ == "Settings"@,
    {
        "Settings"
    }

    fn is_enabled(&self) -> (r: bool) {
        self.enabled
    }

    /// The tab's background work is driven by the application, so a tick here
    /// has nothing to do.
    fn tick(&mut self) {
    }
}

} // verus!
