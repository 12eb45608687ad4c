//! The market tab as a plugin: what its keys and the `market` command do to
//! the tab state. The coins carry prices and stay with the application, which
//! passes in what a key needs from them (how many are listed, the symbol of
//! the selected or detailed coin, the AI context) and carries out the request
//! that comes back.

use vstd::prelude::*;
use crate::market::{
    lemma_filter_keeps_no_duplicates,
    first_pos, fresh_market_state, other_than, last_row, opt_view, parse_market_command, select_up, sort_next,
    spec_market_command, views, ChartRange, MarketCommand, MarketState, MarketView, PAGE_SIZE,
};
use crate::registry::{ActionView, Key, Plugin, PluginAction};
use crate::text::eq_str;
use crate::text::{
    alphanumeric, ascii_upper_char, ascii_uppercase, byte_len, char_index_at, char_index_at_byte,
    chars_of, is_alphanumeric, is_boundary, push_str, spec_trim, str_byte_len, string_of,
    to_uppercase, trim, uppercase_of,
};

verus! {

/// What the application does with its coin data after a key or command.
#[derive(Debug, Clone)]
pub enum MarketRequest {
    /// Nothing beyond the state change.
    Nothing,
    /// Show this coin in the detail view: take it as the detail coin, drop the
    /// price history and fetch its chart for the current range.
    OpenDetail(String),
    /// Leave the detail view: drop the detail coin and the price history.
    CloseDetail,
    /// The chart range changed: drop the price history and fetch the detail
    /// coin's chart for the new range.
    ReloadChart,
    /// This symbol's favorite flag flipped: refresh the coins' flags.
    FavoriteToggled(String),
    /// This ticker joined the watchlist: fetch it now and pass the watchlist on.
    TickerAdded(String),
    /// This ticker left the watchlist: drop its coin and pass the watchlist on.
    TickerRemoved(String),
}

/// The plain value of a `MarketRequest`.
pub enum RequestView {
    Nothing,
    OpenDetail(Seq<char>),
    CloseDetail,
    ReloadChart,
    FavoriteToggled(Seq<char>),
    TickerAdded(Seq<char>),
    TickerRemoved(Seq<char>),
}

impl MarketRequest {
    pub open spec fn view(&self) -> RequestView {
        match self {
            MarketRequest::Nothing => RequestView::Nothing,
            MarketRequest::OpenDetail(s) => RequestView::OpenDetail(s@),
            MarketRequest::CloseDetail => RequestView::CloseDetail,
            MarketRequest::ReloadChart => RequestView::ReloadChart,
            MarketRequest::FavoriteToggled(s) => RequestView::FavoriteToggled(s@),
            MarketRequest::TickerAdded(s) => RequestView::TickerAdded(s@),
            MarketRequest::TickerRemoved(s) => RequestView::TickerRemoved(s@),
        }
    }
}

// ── Shared pieces of the key contracts ───────────────────────────

/// `new` is `old` with `symbol`'s favorite flag flipped.
pub open spec fn favorite_flipped(old: MarketState, new: MarketState, symbol: Seq<char>) -> bool {
    &&& views(new.favorites@) == if views(old.favorites@).contains(symbol) {
        views(old.favorites@).filter(other_than(symbol))
    } else {
        views(old.favorites@).push(symbol)
    }
    &&& new == (MarketState { favorites: new.favorites, ..old })
}

/// Flipping a favorite works as on the set the favorites stand for: the
/// symbol is a favorite afterwards exactly when it was not before, no other
/// symbol comes or goes, and favorites free of repeats stay so.
pub proof fn lemma_favorite_flip_toggles_membership(old: MarketState, new: MarketState, symbol: Seq<char>)
    requires
        favorite_flipped(old, new, symbol),
    ensures
        views(new.favorites@).contains(symbol) == !views(old.favorites@).contains(symbol),
        forall|x: Seq<char>| x != symbol ==> #[trigger] views(new.favorites@).contains(x) == views(
            old.favorites@,
        ).contains(x),
        views(old.favorites@).no_duplicates() ==> views(new.favorites@).no_duplicates(),
{
    let o = views(old.favorites@);
    let n = views(new.favorites@);
    if o.contains(symbol) {
        assert(n == o.filter(other_than(symbol)));
        if n.contains(symbol) {
            let k = choose|k: int| 0 <= k < n.len() && n[k] == symbol;
            o.lemma_filter_pred(other_than(symbol), k);
        }
        assert forall|x: Seq<char>| x != symbol implies #[trigger] n.contains(x) == o.contains(x) by {
            if n.contains(x) {
                o.lemma_filter_contains_rev(other_than(symbol), x);
            }
            if o.contains(x) {
                let k = choose|k: int| 0 <= k < o.len() && o[k] == x;
                o.lemma_filter_contains(other_than(symbol), k);
            }
        }
        if o.no_duplicates() {
            lemma_filter_keeps_no_duplicates(o, other_than(symbol));
        }
    } else {
        assert(n == o.push(symbol));
        assert(n[o.len() as int] == symbol);
        assert forall|x: Seq<char>| x != symbol implies #[trigger] n.contains(x) == o.contains(x) by {
            if n.contains(x) {
                let k = choose|k: int| 0 <= k < n.len() && n[k] == x;
                assert(o[k] == x);
            }
            if o.contains(x) {
                let k = choose|k: int| 0 <= k < o.len() && o[k] == x;
                assert(n[k] == x);
            }
        }
        if o.no_duplicates() {
            assert forall|i: int, j: int| 0 <= i < n.len() && 0 <= j < n.len() && i != j implies n[i] != n[j] by {
                if i < o.len() && j < o.len() {
                } else if i < o.len() {
                    assert(o[i] == n[i]);
                } else {
                    assert(o[j] == n[j]);
                }
            }
        }
    }
}

/// `new` is `old` with the first `symbol` of the watchlist taken out.
pub open spec fn ticker_taken_out(old: MarketState, new: MarketState, symbol: Seq<char>) -> bool {
    exists|p: int| first_pos(views(old.watchlist@), symbol, p) && new.watchlist@ == old.watchlist@.remove(p)
}

/// The selection one row up from `old`.
pub open spec fn moved_up(old: MarketState, new: MarketState) -> bool {
    &&& (new.selected_index as int, new.scroll_offset as int) == select_up(
        old.selected_index as int,
        old.scroll_offset as int,
    )
    &&& new == (MarketState { selected_index: new.selected_index, scroll_offset: new.scroll_offset, ..old })
}

/// The selection one row down from `old` in a list of `len` rows.
pub open spec fn moved_down(old: MarketState, new: MarketState, len: usize) -> bool {
    &&& new.selected_index == if old.selected_index < last_row(len as int) {
        old.selected_index + 1
    } else {
        old.selected_index as int
    }
    &&& new == (MarketState { selected_index: new.selected_index, ..old })
}

/// The selection a page up from `old`.
pub open spec fn paged_up(old: MarketState, new: MarketState) -> bool {
    &&& new.selected_index == if old.selected_index >= PAGE_SIZE {
        old.selected_index - PAGE_SIZE
    } else {
        0
    }
    &&& new.scroll_offset == if new.selected_index < old.scroll_offset {
        new.selected_index
    } else {
        old.scroll_offset
    }
    &&& new == (MarketState { selected_index: new.selected_index, scroll_offset: new.scroll_offset, ..old })
}

/// The selection a page down from `old` in a list of `len` rows.
pub open spec fn paged_down(old: MarketState, new: MarketState, len: usize) -> bool {
    &&& new.selected_index == if old.selected_index + PAGE_SIZE < last_row(len as int) {
        old.selected_index + PAGE_SIZE
    } else {
        last_row(len as int)
    }
    &&& new == (MarketState { selected_index: new.selected_index, ..old })
}

// ── List view ─────────────────────────────────────────────────────

/// What a key does in the coin list with `len` coins listed and the coin
/// `selected` at the selection (if any): the state after it, the action and
/// the request.
pub open spec fn list_key_post(
    old: MarketState,
    new: MarketState,
    a: ActionView,
    r: RequestView,
    key: Key,
    len: usize,
    selected: Option<Seq<char>>,
) -> bool {
    if key == Key::Up || key == Key::Char('k') {
        moved_up(old, new) && a == ActionView::Consumed && r == RequestView::Nothing
    } else if key == Key::Down || key == Key::Char('j') {
        moved_down(old, new, len) && a == ActionView::Consumed && r == RequestView::Nothing
    } else if key == Key::PageUp {
        paged_up(old, new) && a == ActionView::Consumed && r == RequestView::Nothing
    } else if key == Key::PageDown {
        paged_down(old, new, len) && a == ActionView::Consumed && r == RequestView::Nothing
    } else if key == Key::Home {
        new == (MarketState { selected_index: 0, scroll_offset: 0, ..old }) && a == ActionView::Consumed && r
            == RequestView::Nothing
    } else if key == Key::End {
        new == (MarketState { selected_index: last_row(len as int) as usize, ..old }) && a == ActionView::Consumed
            && r == RequestView::Nothing
    } else if key == Key::Enter {
        a == ActionView::Consumed && match selected {
            Some(sym) => new == (MarketState {
                view: MarketView::Detail,
                ai_analysis: None,
                ai_loading: false,
                detail_scroll: 0,
                chart_loading: true,
                ..old
            }) && r == RequestView::OpenDetail(sym),
            None => new == old && r == RequestView::Nothing,
        }
    } else if key == Key::Char('f') || key == Key::Char('F') {
        a == ActionView::Consumed && match selected {
            Some(sym) => favorite_flipped(old, new, sym) && r == RequestView::FavoriteToggled(sym),
            None => new == old && r == RequestView::Nothing,
        }
    } else if key == Key::Char('/') {
        &&& new == (MarketState { search_mode: true, search_text: new.search_text, search_cursor: 0, ..old })
        &&& new.search_text@.len() == 0
        &&& a == ActionView::Consumed
        &&& r == RequestView::Nothing
    } else if key == Key::Char('*') {
        new == (MarketState {
            show_favorites_only: !old.show_favorites_only,
            selected_index: 0,
            scroll_offset: 0,
            ..old
        }) && a == ActionView::Consumed && r == RequestView::Nothing
    } else if key == Key::Char('s') || key == Key::Char('S') {
        new == (MarketState { sort_column: sort_next(old.sort_column), ..old }) && a == ActionView::Consumed && r
            == RequestView::Nothing
    } else if key == Key::Char('r') || key == Key::Char('R') {
        new == (MarketState { sort_ascending: !old.sort_ascending, ..old }) && a == ActionView::Consumed && r
            == RequestView::Nothing
    } else if key == Key::Char('+') || key == Key::Char('=') {
        &&& new == (MarketState { add_ticker_mode: true, add_ticker_text: new.add_ticker_text, ..old })
        &&& new.add_ticker_text@.len() == 0
        &&& a == ActionView::Consumed
        &&& r == RequestView::Nothing
    } else if key == Key::Char('d') || key == Key::Char('D') {
        a == ActionView::Consumed && match selected {
            Some(sym) => if views(old.watchlist@).contains(sym) {
                &&& ticker_taken_out(old, new, sym)
                &&& new.selected_index == if old.selected_index > 0 {
                    old.selected_index - 1
                } else {
                    0
                }
                &&& new.error is Some && new.error->0@ == "Removed "@ + sym
                &&& new == (MarketState {
                    watchlist: new.watchlist,
                    selected_index: new.selected_index,
                    error: new.error,
                    ..old
                })
                &&& r == RequestView::TickerRemoved(sym)
            } else {
                new == old && r == RequestView::Nothing
            },
            None => new == old && r == RequestView::Nothing,
        }
    } else {
        new == old && a == ActionView::Ignored && r == RequestView::Nothing
    }
}

fn consumed() -> (r: (PluginAction, MarketRequest))
    ensures
        r.0@ == ActionView::Consumed,
        r.1@ == RequestView::Nothing,
{
    (PluginAction::Consumed, MarketRequest::Nothing)
}

fn copy_text(s: &str) -> (r: String)
    ensures
        r@ == s@,
{
    string_of(chars_of(s).as_slice())
}

/// Handles `key` in the coin list, with `len` coins listed and `selected` the
/// symbol of the coin at the selection.
#[verifier::rlimit(40)]
pub fn list_key(state: &mut MarketState, key: Key, len: usize, selected: Option<&str>) -> (r: (
    PluginAction,
    MarketRequest,
))
    requires
        key == Key::PageDown ==> old(state).selected_index + PAGE_SIZE <= usize::MAX,
    ensures
        list_key_post(*old(state), *final(state), r.0@, r.1@, key, len, match selected {
            Some(s) => Some(s@),
            None => None,
        }),
{
    if key == Key::Up || key == Key::Char('k') {
        state.move_selection_up();
        consumed()
    } else if key == Key::Down || key == Key::Char('j') {
        state.move_selection_down(len);
        consumed()
    } else if key == Key::PageUp {
        state.page_up();
        consumed()
    } else if key == Key::PageDown {
        state.page_down(len);
        consumed()
    } else if key == Key::Home {
        state.selected_index = 0;
        state.scroll_offset = 0;
        consumed()
    } else if key == Key::End {
        state.selected_index = if len > 0 {
            len - 1
        } else {
            0
        };
        consumed()
    } else if key == Key::Enter {
        match selected {
            Some(sym) => {
                state.view = MarketView::Detail;
                state.ai_analysis = None;
                state.ai_loading = false;
                state.detail_scroll = 0;
                state.chart_loading = true;
                (PluginAction::Consumed, MarketRequest::OpenDetail(copy_text(sym)))
            },
            None => consumed(),
        }
    } else if key == Key::Char('f') || key == Key::Char('F') {
        match selected {
            Some(sym) => {
                state.toggle_favorite_symbol(sym);
                (PluginAction::Consumed, MarketRequest::FavoriteToggled(copy_text(sym)))
            },
            None => consumed(),
        }
    } else if key == Key::Char('/') {
        state.search_mode = true;
        state.search_text = String::new();
        state.search_cursor = 0;
        consumed()
    } else if key == Key::Char('*') {
        state.show_favorites_only = !state.show_favorites_only;
        state.selected_index = 0;
        state.scroll_offset = 0;
        consumed()
    } else if key == Key::Char('s') || key == Key::Char('S') {
        state.cycle_sort();
        consumed()
    } else if key == Key::Char('r') || key == Key::Char('R') {
        state.sort_ascending = !state.sort_ascending;
        consumed()
    } else if key == Key::Char('+') || key == Key::Char('=') {
        state.add_ticker_mode = true;
        state.add_ticker_text = String::new();
        consumed()
    } else if key == Key::Char('d') || key == Key::Char('D') {
        match selected {
            Some(sym) => match state.remove_selected_symbol(sym) {
                Some(removed) => {
                    let mut msg = chars_of("Removed ");
                    push_str(&mut msg, removed.as_str());
                    state.error = Some(string_of(msg.as_slice()));
                    (PluginAction::Consumed, MarketRequest::TickerRemoved(removed))
                },
                None => consumed(),
            },
            None => consumed(),
        }
    } else {
        (PluginAction::Ignored, MarketRequest::Nothing)
    }
}

// ── Detail view ───────────────────────────────────────────────────

/// The chart range a key selects in the detail view: '1' to '5'.
pub open spec fn range_key(key: Key) -> Option<ChartRange> {
    if key == Key::Char('1') {
        Some(ChartRange::Hour1)
    } else if key == Key::Char('2') {
        Some(ChartRange::Hour4)
    } else if key == Key::Char('3') {
        Some(ChartRange::Day1)
    } else if key == Key::Char('4') {
        Some(ChartRange::Week1)
    } else if key == Key::Char('5') {
        Some(ChartRange::Month1)
    } else {
        None
    }
}

/// What a key does in the detail view of the coin `detail` (if any), with
/// `context` the AI request built from it.
pub open spec fn detail_key_post(
    old: MarketState,
    new: MarketState,
    a: ActionView,
    r: RequestView,
    key: Key,
    detail: Option<Seq<char>>,
    context: Option<Seq<char>>,
) -> bool {
    if key == Key::Esc || key == Key::Backspace {
        new == (MarketState { view: MarketView::List, ai_analysis: None, ..old }) && a == ActionView::Consumed
            && r == RequestView::CloseDetail
    } else if key == Key::Char('f') || key == Key::Char('F') {
        a == ActionView::Consumed && match detail {
            Some(sym) => favorite_flipped(old, new, sym) && r == RequestView::FavoriteToggled(sym),
            None => new == old && r == RequestView::Nothing,
        }
    } else if range_key(key) is Some {
        new == (MarketState { chart_range: range_key(key)->0, chart_loading: true, ..old }) && a
            == ActionView::Consumed && r == RequestView::ReloadChart
    } else if key == Key::Char('a') || key == Key::Char('A') {
        r == RequestView::Nothing && if old.ai_loading {
            new == old && a == ActionView::Consumed
        } else {
            &&& new == (MarketState { ai_loading: true, ai_analysis: None, ..old })
            &&& a == match context {
                Some(x) => ActionView::RequestAiAnalysis(x),
                None => ActionView::Consumed,
            }
        }
    } else if key == Key::Up || key == Key::Char('k') {
        new == (MarketState {
            detail_scroll: if old.detail_scroll > 0 {
                (old.detail_scroll - 1) as usize
            } else {
                0
            },
            ..old
        }) && a == ActionView::Consumed && r == RequestView::Nothing
    } else if key == Key::Down || key == Key::Char('j') {
        new == (MarketState { detail_scroll: (old.detail_scroll + 1) as usize, ..old }) && a == ActionView::Consumed
            && r == RequestView::Nothing
    } else {
        new == old && a == ActionView::Ignored && r == RequestView::Nothing
    }
}

fn chart_range_of(key: Key) -> (r: Option<ChartRange>)
    ensures
        r == range_key(key),
{
    if key == Key::Char('1') {
        Some(ChartRange::Hour1)
    } else if key == Key::Char('2') {
        Some(ChartRange::Hour4)
    } else if key == Key::Char('3') {
        Some(ChartRange::Day1)
    } else if key == Key::Char('4') {
        Some(ChartRange::Week1)
    } else if key == Key::Char('5') {
        Some(ChartRange::Month1)
    } else {
        None
    }
}

/// Handles `key` in the detail view of the coin with symbol `detail`;
/// `context` is the AI request built from that coin.
pub fn detail_key(state: &mut MarketState, key: Key, detail: Option<&str>, context: Option<String>) -> (r: (
    PluginAction,
    MarketRequest,
))
    requires
        key == Key::Down || key == Key::Char('j') ==> old(state).detail_scroll < usize::MAX,
    ensures
        detail_key_post(*old(state), *final(state), r.0@, r.1@, key, match detail {
            Some(s) => Some(s@),
            None => None,
        }, opt_view(context)),
{
    if key == Key::Esc || key == Key::Backspace {
        state.view = MarketView::List;
        state.ai_analysis = None;
        return (PluginAction::Consumed, MarketRequest::CloseDetail);
    }
    if key == Key::Char('f') || key == Key::Char('F') {
        return match detail {
            Some(sym) => {
                state.toggle_favorite_symbol(sym);
                (PluginAction::Consumed, MarketRequest::FavoriteToggled(copy_text(sym)))
            },
            None => consumed(),
        };
    }
    if let Some(range) = chart_range_of(key) {
        state.chart_range = range;
        state.chart_loading = true;
        return (PluginAction::Consumed, MarketRequest::ReloadChart);
    }
    if key == Key::Char('a') || key == Key::Char('A') {
        if !state.ai_loading {
            state.ai_loading = true;
            state.ai_analysis = None;
            if let Some(ctx) = context {
                return (PluginAction::RequestAiAnalysis(ctx), MarketRequest::Nothing);
            }
        }
        return consumed();
    }
    if key == Key::Up || key == Key::Char('k') {
        if state.detail_scroll > 0 {
            state.detail_scroll = state.detail_scroll - 1;
        }
        return consumed();
    }
    if key == Key::Down || key == Key::Char('j') {
        state.detail_scroll = state.detail_scroll + 1;
        return consumed();
    }
    (PluginAction::Ignored, MarketRequest::Nothing)
}

// ── Search box ────────────────────────────────────────────────────

/// The keys the search box can take without cutting a character: the cursor
/// (a byte offset) must sit where text is inserted or removed.
pub open spec fn search_key_ok(st: MarketState, key: Key) -> bool {
    let t = st.search_text@;
    let c = st.search_cursor as int;
    match key {
        Key::Backspace => c > 0 ==> is_boundary(t, c - 1) && c - 1 < byte_len(t),
        Key::Char(_) => is_boundary(t, c) && c < usize::MAX,
        _ => true,
    }
}

/// What a key does while the search box is open.
pub open spec fn search_key_post(old: MarketState, new: MarketState, a: ActionView, r: RequestView, key: Key) -> bool {
    let t = old.search_text@;
    let c = old.search_cursor as int;
    &&& a == ActionView::Consumed
    &&& r == RequestView::Nothing
    &&& match key {
        Key::Esc => new == (MarketState { search_mode: false, search_text: new.search_text, ..old })
            && new.search_text@.len() == 0,
        Key::Enter => new == (MarketState { search_mode: false, ..old }),
        Key::Backspace => if c > 0 {
            &&& new.search_text@ == t.remove(char_index_at(t, c - 1))
            &&& new == (MarketState {
                search_text: new.search_text,
                search_cursor: (c - 1) as usize,
                selected_index: 0,
                scroll_offset: 0,
                ..old
            })
        } else {
            new == (MarketState { selected_index: 0, scroll_offset: 0, ..old })
        },
        Key::Left => new == (MarketState {
            search_cursor: if c > 0 {
                (c - 1) as usize
            } else {
                0
            },
            ..old
        }),
        Key::Right => new == (MarketState {
            search_cursor: if c < byte_len(t) {
                (c + 1) as usize
            } else {
                c as usize
            },
            ..old
        }),
        Key::Char(ch) => {
            &&& new.search_text@ == t.insert(char_index_at(t, c), ch)
            &&& new == (MarketState {
                search_text: new.search_text,
                search_cursor: (c + 1) as usize,
                selected_index: 0,
                scroll_offset: 0,
                ..old
            })
        },
        _ => new == old,
    }
}

/// Handles `key` while the search box is open.
#[verifier::rlimit(40)]
pub fn search_key(state: &mut MarketState, key: Key) -> (r: (PluginAction, MarketRequest))
    requires
        search_key_ok(*old(state), key),
    ensures
        search_key_post(*old(state), *final(state), r.0@, r.1@, key),
{
    match key {
        Key::Esc => {
            state.search_mode = false;
            state.search_text = String::new();
        },
        Key::Enter => {
            state.search_mode = false;
        },
        Key::Backspace => {
            if state.search_cursor > 0 {
                let pos = state.search_cursor - 1;
                let mut cs = chars_of(state.search_text.as_str());
                let k = char_index_at_byte(cs.as_slice(), pos).unwrap();
                proof {
                    if k == cs@.len() {
                        assert(cs@.take(k as int) =~= cs@);
                    }
                }
                cs.remove(k);
                state.search_text = string_of(cs.as_slice());
                state.search_cursor = pos;
            }
            state.selected_index = 0;
            state.scroll_offset = 0;
        },
        Key::Left => {
            if state.search_cursor > 0 {
                state.search_cursor = state.search_cursor - 1;
            }
        },
        Key::Right => {
            if state.search_cursor < str_byte_len(state.search_text.as_str()) {
                state.search_cursor = state.search_cursor + 1;
            }
        },
        Key::Char(ch) => {
            let pos = state.search_cursor;
            let mut cs = chars_of(state.search_text.as_str());
            let k = char_index_at_byte(cs.as_slice(), pos).unwrap();
            cs.insert(k, ch);
            state.search_text = string_of(cs.as_slice());
            state.search_cursor = pos + 1;
            state.selected_index = 0;
            state.scroll_offset = 0;
        },
        _ => {},
    }
    consumed()
}

// ── Add-ticker box ────────────────────────────────────────────────

/// What a key does while the add-ticker box is open.
pub open spec fn add_key_post(old: MarketState, new: MarketState, a: ActionView, r: RequestView, key: Key) -> bool {
    let text = old.add_ticker_text@;
    &&& a == ActionView::Consumed
    &&& match key {
        Key::Esc => {
            &&& new == (MarketState { add_ticker_mode: false, add_ticker_text: new.add_ticker_text, ..old })
            &&& new.add_ticker_text@.len() == 0
            &&& r == RequestView::Nothing
        },
        Key::Enter => {
            let ticker = uppercase_of(spec_trim(text));
            let added = ticker.len() > 0 && uppercase_of(ticker).len() > 0 && !views(
                old.watchlist@,
            ).contains(uppercase_of(ticker));
            &&& !new.add_ticker_mode
            &&& new.add_ticker_text@.len() == 0
            &&& views(new.watchlist@) == if added {
                views(old.watchlist@).push(uppercase_of(ticker))
            } else {
                views(old.watchlist@)
            }
            &&& (ticker.len() == 0 ==> new.error == old.error && r == RequestView::Nothing)
            &&& (ticker.len() > 0 && added ==> new.error is None && r == RequestView::TickerAdded(ticker))
            &&& (ticker.len() > 0 && !added ==> new.error is Some && new.error->0@ == ticker
                + " already in watchlist"@ && r == RequestView::Nothing)
            &&& new == (MarketState {
                add_ticker_mode: new.add_ticker_mode,
                add_ticker_text: new.add_ticker_text,
                watchlist: new.watchlist,
                error: new.error,
                ..old
            })
        },
        Key::Backspace => {
            &&& new.add_ticker_text@ == if text.len() > 0 {
                text.drop_last()
            } else {
                text
            }
            &&& new == (MarketState { add_ticker_text: new.add_ticker_text, ..old })
            &&& r == RequestView::Nothing
        },
        Key::Char(ch) => {
            &&& new.add_ticker_text@ == if alphanumeric(ch) {
                text.push(ascii_upper_char(ch))
            } else {
                text
            }
            &&& new == (MarketState { add_ticker_text: new.add_ticker_text, ..old })
            &&& r == RequestView::Nothing
        },
        _ => new == old && r == RequestView::Nothing,
    }
}

/// Handles `key` while the add-ticker box is open.
pub fn add_key(state: &mut MarketState, key: Key) -> (r: (PluginAction, MarketRequest))
    ensures
        add_key_post(*old(state), *final(state), r.0@, r.1@, key),
{
    match key {
        Key::Esc => {
            state.add_ticker_mode = false;
            state.add_ticker_text = String::new();
            consumed()
        },
        Key::Enter => {
            let tc = chars_of(state.add_ticker_text.as_str());
            let trimmed = string_of(trim(tc.as_slice()).as_slice());
            let ticker = to_uppercase(trimmed.as_str());
            let mut request = MarketRequest::Nothing;
            if chars_of(ticker.as_str()).len() > 0 {
                if state.add_ticker(ticker.as_str()) {
                    state.error = None;
                    request = MarketRequest::TickerAdded(copy_text(ticker.as_str()));
                } else {
                    let mut msg = chars_of(ticker.as_str());
                    push_str(&mut msg, " already in watchlist");
                    state.error = Some(string_of(msg.as_slice()));
                }
            }
            state.add_ticker_mode = false;
            state.add_ticker_text = String::new();
            (PluginAction::Consumed, request)
        },
        Key::Backspace => {
            let mut cs = chars_of(state.add_ticker_text.as_str());
            cs.pop();
            state.add_ticker_text = string_of(cs.as_slice());
            consumed()
        },
        Key::Char(ch) => {
            if is_alphanumeric(ch) {
                let mut cs = chars_of(state.add_ticker_text.as_str());
                cs.push(ascii_uppercase(ch));
                state.add_ticker_text = string_of(cs.as_slice());
            }
            consumed()
        },
        _ => consumed(),
    }
}

// ── The tab ───────────────────────────────────────────────────────

/// The keys the tab can take in its current mode without overflowing a
/// counter or cutting a character of the search text.
pub open spec fn market_key_ok(st: MarketState, key: Key) -> bool {
    if st.add_ticker_mode {
        true
    } else if st.search_mode {
        search_key_ok(st, key)
    } else if st.view == MarketView::List {
        key == Key::PageDown ==> st.selected_index + PAGE_SIZE <= usize::MAX
    } else {
        key == Key::Down || key == Key::Char('j') ==> st.detail_scroll < usize::MAX
    }
}

/// The answer to a `market` command.
#[derive(Debug, Clone)]
pub enum CommandReply {
    /// The command is not the market tab's.
    NotMine,
    /// Show the market overview (written from the coins by the application).
    Overview,
    /// This message, and this request for the coin data.
    Reply(String, MarketRequest),
}

/// What `market add <T>` / `market remove <T>` (with `command` the parsed
/// arguments) does to the state, says and asks.
pub open spec fn command_reply_post(
    old: MarketState,
    new: MarketState,
    msg: Seq<char>,
    r: RequestView,
    command: (Option<bool>, Seq<char>),
) -> bool {
    let t = command.1;
    match command.0 {
        Some(true) => {
            let added = uppercase_of(t).len() > 0 && !views(old.watchlist@).contains(uppercase_of(t));
            &&& views(new.watchlist@) == if added {
                views(old.watchlist@).push(uppercase_of(t))
            } else {
                views(old.watchlist@)
            }
            &&& new == (MarketState { watchlist: new.watchlist, ..old })
            &&& msg == if added {
                "Added "@ + t + " to watchlist"@
            } else {
                t + " is already in watchlist"@
            }
            &&& r == if added {
                RequestView::TickerAdded(t)
            } else {
                RequestView::Nothing
            }
        },
        Some(false) => if views(old.watchlist@).contains(t) {
            &&& ticker_taken_out(old, new, t)
            &&& new == (MarketState { watchlist: new.watchlist, ..old })
            &&& msg == "Removed "@ + t + " from watchlist"@
            &&& r == RequestView::TickerRemoved(t)
        } else {
            new == old && msg == t + " not in watchlist"@ && r == RequestView::Nothing
        },
        None => false,
    }
}

fn message2(a: &str, b: &str) -> (r: String)
    ensures
        r@ == a@ + b@,
{
    let mut v = chars_of(a);
    push_str(&mut v, b);
    string_of(v.as_slice())
}

fn message(a: &str, b: &str, c: &str) -> (r: String)
    ensures
        r@ == a@ + b@ + c@,
{
    let mut v = chars_of(a);
    push_str(&mut v, b);
    push_str(&mut v, c);
    string_of(v.as_slice())
}

/// The market tab.
pub struct MarketPlugin {
    pub state: MarketState,
    /// Seconds between polls of the exchange.
    pub poll_interval_secs: u64,
    pub enabled: bool,
    /// Whether the background poller runs.
    pub poller_spawned: bool,
}

impl MarketPlugin {
    /// A tab watching `watchlist`, with `favorites` marked.
    pub fn new(enabled: bool, poll_interval_secs: u64, watchlist: Vec<String>, favorites: Vec<String>) -> (p: MarketPlugin)
        ensures
            p.enabled == enabled,
            p.poll_interval_secs == poll_interval_secs,
            !p.poller_spawned,
            fresh_market_state(p.state, favorites@, watchlist@),
    {
        MarketPlugin { state: MarketState::new(favorites, watchlist), poll_interval_secs, enabled, poller_spawned: false }
    }

    /// The symbols on the watchlist, in order.
    pub fn watchlist(&self) -> (r: &[String])
        ensures
            r@ == self.state.watchlist@,
    {
        self.state.watchlist.as_slice()
    }

    /// The favorite symbols.
    pub fn favorites(&self) -> (r: Option<&[String]>)
        ensures
            r matches Some(f) && f@ == self.state.favorites@,
    {
        Some(self.state.favorites.as_slice())
    }

    /// Handles `key`: in the add-ticker box, the search box, the coin list or
    /// the detail view, whichever is open. `len` is how many coins are listed,
    /// `selected` the symbol of the coin at the selection, `detail` that of
    /// the coin in the detail view, and `context` the AI request built from it.
    pub fn handle_key(
        &mut self,
        key: Key,
        len: usize,
        selected: Option<&str>,
        detail: Option<&str>,
        context: Option<String>,
    ) -> (r: (PluginAction, MarketRequest))
        requires
            market_key_ok(old(self).state, key),
        ensures
            if old(self).state.add_ticker_mode {
                add_key_post(old(self).state, final(self).state, r.0@, r.1@, key)
            } else if old(self).state.search_mode {
                search_key_post(old(self).state, final(self).state, r.0@, r.1@, key)
            } else if old(self).state.view == MarketView::List {
                list_key_post(old(self).state, final(self).state, r.0@, r.1@, key, len, match selected {
                    Some(s) => Some(s@),
                    None => None,
                })
            } else {
                detail_key_post(old(self).state, final(self).state, r.0@, r.1@, key, match detail {
                    Some(s) => Some(s@),
                    None => None,
                }, opt_view(context))
            },
            final(self).poll_interval_secs == old(self).poll_interval_secs,
            final(self).enabled == old(self).enabled,
            final(self).poller_spawned == old(self).poller_spawned,
    {
        if self.state.add_ticker_mode {
            add_key(&mut self.state, key)
        } else if self.state.search_mode {
            search_key(&mut self.state, key)
        } else if self.state.view == MarketView::List {
            list_key(&mut self.state, key, len, selected)
        } else {
            detail_key(&mut self.state, key, detail, context)
        }
    }

    /// Runs a command: `market add <TICKER>` and `market remove <TICKER>`
    /// change the watchlist; any other `market` command asks for the overview.
    pub fn execute_command(&mut self, cmd: &str, args: &str) -> (r: CommandReply)
        ensures
            match r {
                CommandReply::NotMine => cmd@ != "market"@ && final(self).state == old(self).state,
                CommandReply::Overview => cmd@ == "market"@ && spec_market_command(args@).0 is None
                    && final(self).state == old(self).state,
                CommandReply::Reply(msg, req) => cmd@ == "market"@ && command_reply_post(
                    old(self).state,
                    final(self).state,
                    msg@,
                    req@,
                    spec_market_command(args@),
                ),
            },
            final(self).poll_interval_secs == old(self).poll_interval_secs,
            final(self).enabled == old(self).enabled,
            final(self).poller_spawned == old(self).poller_spawned,
    {
        if !eq_str(chars_of(cmd).as_slice(), "market") {
            return CommandReply::NotMine;
        }
        match parse_market_command(args) {
            MarketCommand::Add(ticker) => {
                if self.state.add_ticker(ticker.as_str()) {
                    let msg = message("Added ", ticker.as_str(), " to watchlist");
                    CommandReply::Reply(msg, MarketRequest::TickerAdded(ticker))
                } else {
                    let msg = message2(ticker.as_str(), " is already in watchlist");
                    CommandReply::Reply(msg, MarketRequest::Nothing)
                }
            },
            MarketCommand::Remove(ticker) => {
                if self.state.remove_ticker(ticker.as_str()) {
                    let msg = message("Removed ", ticker.as_str(), " from watchlist");
                    CommandReply::Reply(msg, MarketRequest::TickerRemoved(ticker))
                } else {
                    let msg = message2(ticker.as_str(), " not in watchlist");
                    CommandReply::Reply(msg, MarketRequest::Nothing)
                }
            },
            MarketCommand::Overview => CommandReply::Overview,
        }
    }

    /// Appends a piece of the streamed AI analysis.
    pub fn receive_ai_chunk(&mut self, chunk: &str)
        ensures
            final(self).state == (MarketState { ai_analysis: final(self).state.ai_analysis, ..old(self).state }),
            final(self).state.ai_analysis is Some,
            final(self).state.ai_analysis->0@ == match old(self).state.ai_analysis {
                Some(a) => a@ + chunk@,
                None => chunk@,
            },
            final(self).poll_interval_secs == old(self).poll_interval_secs,
            final(self).enabled == old(self).enabled,
            final(self).poller_spawned == old(self).poller_spawned,
    {
        let text = match &self.state.ai_analysis {
            Some(a) => message2(a.as_str(), chunk),
            None => copy_text(chunk),
        };
        self.state.ai_analysis = Some(text);
    }

    /// The AI analysis stream ended.
    pub fn ai_analysis_done(&mut self)
        ensures
            final(self).state == (MarketState { ai_loading: false, ..old(self).state }),
            final(self).poll_interval_secs == old(self).poll_interval_secs,
            final(self).enabled == old(self).enabled,
            final(self).poller_spawned == old(self).poller_spawned,
    {
        self.state.ai_loading = false;
    }

    /// The AI analysis failed with `error`, which replaces the analysis text.
    pub fn ai_analysis_error(&mut self, error: &str)
        ensures
            final(self).state == (MarketState {
                ai_loading: false,
                ai_analysis: final(self).state.ai_analysis,
                ..old(self).state
            }),
            final(self).state.ai_analysis is Some,
            final(self).state.ai_analysis->0@ == "Error: "@ + error@,
            final(self).poll_interval_secs == old(self).poll_interval_secs,
            final(self).enabled == old(self).enabled,
            final(self).poller_spawned == old(self).poller_spawned,
    {
        self.state.ai_loading = false;
        let text = message2("Error: ", error);
        self.state.ai_analysis = Some(text);
    }

    /// Key hints for the status bar, for the open view.
    pub fn status_bar_hints(&self) -> (r: Vec<(&'static str, &'static str)>)
        ensures
            r@.map_values(|h: (&str, &str)| (h.0@, h.1@)) == if self.state.view == MarketView::List {
                seq![
                    ("Enter"@, "Detail"@),
                    ("/"@, "Search"@),
                    ("f"@, "Favorite"@),
                    ("s"@, "Sort"@),
                    ("+"@, "Add ticker"@),
                    ("d"@, "Remove"@),
                ]
            } else {
                seq![("Esc"@, "Back"@), ("1-5"@, "Chart range"@), ("f"@, "Favorite"@), ("a"@, "AI Analysis"@)]
            },
    {
        if self.state.view == MarketView::List {
            let r = vec![
                ("Enter", "Detail"),
                ("/", "Search"),
                ("f", "Favorite"),
                ("s", "Sort"),
                ("+", "Add ticker"),
                ("d", "Remove"),
            ];
            proof {
                assert(r@.map_values(|h: (&str, &str)| (h.0@, h.1@)) =~= seq![
                    ("Enter"@, "Detail"@),
                    ("/"@, "Search"@),
                    ("f"@, "Favorite"@),
                    ("s"@, "Sort"@),
                    ("+"@, "Add ticker"@),
                    ("d"@, "Remove"@),
                ]);
            }
            r
        } else {
            let r = vec![("Esc", "Back"), ("1-5", "Chart range"), ("f", "Favorite"), ("a", "AI Analysis")];
            proof {
                assert(r@.map_values(|h: (&str, &str)| (h.0@, h.1@)) =~= seq![
                    ("Esc"@, "Back"@),
                    ("1-5"@, "Chart range"@),
                    ("f"@, "Favorite"@),
                    ("a"@, "AI Analysis"@),
                ]);
            }
            r
        }
    }

    /// The keys listed in the help overlay.
    pub fn help_entries(&self) -> (r: Vec<(&'static str, &'static str)>)
        ensures
            r@.len() == 11,
            r@.map_values(|h: (&str, &str)| h.0@) == seq![
                "Enter"@,
                "Esc"@,
                "/"@,
                "f / F"@,
                "*"@,
                "s"@,
                "r"@,
                "+"@,
                "d"@,
                "1-5"@,
                "a"@,
            ],
    {
        let r = vec![
            ("Enter", "Open coin detail view"),
            ("Esc", "Back to list / close modal"),
            ("/", "Filter coins by name/symbol"),
            ("f / F", "Toggle favorite"),
            ("*", "Show favorites only"),
            ("s", "Cycle sort column"),
            ("r", "Reverse sort direction"),
            ("+", "Add new ticker (e.g., BTCUSDT)"),
            ("d", "Remove selected ticker from watchlist"),
            ("1-5", "Chart range (1H/4H/1D/7D/30D)"),
            ("a", "AI sentiment analysis (detail view)"),
        ];
        proof {
            assert(r@.map_values(|h: (&str, &str)| h.0@) =~= seq![
                "Enter"@,
                "Esc"@,
                "/"@,
                "f / F"@,
                "*"@,
                "s"@,
                "r"@,
                "+"@,
                "d"@,
                "1-5"@,
                "a"@,
            ]);
        }
        r
    }

    /// The commands the tab answers.
    pub fn commands(&self) -> (r: Vec<(&'static str, &'static str)>)
        ensures
            r@.map_values(|h: (&str, &str)| h.0@) == seq!["market"@, "market add <TICKER>"@, "market remove <TICKER>"@],
    {
        let r = vec![
            ("market", "Show market overview"),
            ("market add <TICKER>", "Add ticker to watchlist"),
            ("market remove <TICKER>", "Remove ticker from watchlist"),
        ];
        proof {
            assert(r@.map_values(|h: (&str, &str)| h.0@) =~= seq![
                "market"@,
                "market add <TICKER>"@,
                "market remove <TICKER>"@,
            ]);
        }
        r
    }
}

impl Plugin for MarketPlugin {
    open spec fn spec_id(&self) -> Seq<char> {
        "market"@
    }

    open spec fn spec_enabled(&self) -> bool {
        self.enabled
    }

    fn id(&self) -> (r: &str) {
        "market"
    }

    fn tab_label(&self) -> (r: &str)
        ensures
            r@ == "Market"@,
    {
        "Market"
    }

    fn is_enabled(&self) -> (r: bool) {
        self.enabled
    }

    /// The tab's background work is driven by the application, so a tick here
    /// has nothing to do.
    fn tick(&mut self) {
    }
}

} // verus!
