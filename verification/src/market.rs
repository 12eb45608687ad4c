//! Market tab: chart ranges, sort columns, symbol handling, news items and the
//! watchlist/selection state that the key handlers drive.
//!
//! Prices are floating point and stay with the application; everything here is
//! about symbols, text and positions.

use vstd::prelude::*;
use crate::clock::system_time_ms;
use crate::text::{
    byte_len, char_index_at, char_index_at_byte, lemma_byte_len_concat, chars_eq, chars_of, contains_str, eq_str,
    ends_with_str, is_boundary, lowercase_of, spec_contains, nat_to_dec, push_str, spec_ends_with, spec_starts_with, spec_trim,
    starts_with_str, str_byte_len, string_of, sub_chars, to_lowercase, to_uppercase, trim,
    u64_to_dec, uppercase_of,
};

verus! {

// ── Chart ranges ──────────────────────────────────────────────────

/// Chart time range selector.
#[derive(Debug, Clone, Copy, PartialEq, Eq, Structural)]
pub enum ChartRange {
    Hour1,
    Hour4,
    Day1,
    Week1,
    Month1,
}

/// The exchange's kline interval for each range.
pub open spec fn range_interval(r: ChartRange) -> Seq<char> {
    match r {
        ChartRange::Hour1 => "1m"@,
        ChartRange::Hour4 => "5m"@,
        ChartRange::Day1 => "1h"@,
        ChartRange::Week1 => "4h"@,
        ChartRange::Month1 => "1d"@,
    }
}

/// How many candles each range asks for.
pub open spec fn range_limit(r: ChartRange) -> u32 {
    match r {
        ChartRange::Hour1 => 60,
        ChartRange::Hour4 => 48,
        ChartRange::Day1 => 24,
        ChartRange::Week1 => 42,
        ChartRange::Month1 => 30,
    }
}

/// The label shown for each range.
pub open spec fn range_label(r: ChartRange) -> Seq<char> {
    match r {
        ChartRange::Hour1 => "1H"@,
        ChartRange::Hour4 => "4H"@,
        ChartRange::Day1 => "1D"@,
        ChartRange::Week1 => "7D"@,
        ChartRange::Month1 => "30D"@,
    }
}

/// Every range, shortest first.
pub open spec fn all_ranges() -> Seq<ChartRange> {
    seq![ChartRange::Hour1, ChartRange::Hour4, ChartRange::Day1, ChartRange::Week1, ChartRange::Month1]
}

impl ChartRange {
    /// Kline interval parameter.
    pub fn interval(&self) -> (r: &'static str)
        ensures
            r@ == range_interval(*self),
    {
        match self {
            ChartRange::Hour1 => "1m",
            ChartRange::Hour4 => "5m",
            ChartRange::Day1 => "1h",
            ChartRange::Week1 => "4h",
            ChartRange::Month1 => "1d",
        }
    }

    /// Number of data points to fetch.
    pub fn limit(&self) -> (r: u32)
        ensures
            r == range_limit(*self),
    {
        match self {
            ChartRange::Hour1 => 60,
            ChartRange::Hour4 => 48,
            ChartRange::Day1 => 24,
            ChartRange::Week1 => 42,
            ChartRange::Month1 => 30,
        }
    }

    /// Label for display.
    pub fn label(&self) -> (r: &'static str)
        ensures
            r@ == range_label(*self),
    {
        match self {
            ChartRange::Hour1 => "1H",
            ChartRange::Hour4 => "4H",
            ChartRange::Day1 => "1D",
            ChartRange::Week1 => "7D",
            ChartRange::Month1 => "30D",
        }
    }

    /// All ranges, in display order.
    pub fn all() -> (r: Vec<ChartRange>)
        ensures
            r@ == all_ranges(),
    {
        vec![ChartRange::Hour1, ChartRange::Hour4, ChartRange::Day1, ChartRange::Week1, ChartRange::Month1]
    }
}

/// Every range appears exactly once in `all`, and the ranges have distinct
/// intervals and labels.
pub proof fn lemma_ranges_distinct()
    ensures
        forall|r: ChartRange| #[trigger] all_ranges().contains(r),
        forall|i: int, j: int|
            0 <= i < j < 5 ==> all_ranges()[i] != all_ranges()[j] && range_interval(all_ranges()[i])
                != range_interval(all_ranges()[j]) && range_label(all_ranges()[i]) != range_label(
                all_ranges()[j],
            ),
{
    reveal_strlit("1m");
    reveal_strlit("5m");
    reveal_strlit("1h");
    reveal_strlit("4h");
    reveal_strlit("1d");
    reveal_strlit("1H");
    reveal_strlit("4H");
    reveal_strlit("1D");
    reveal_strlit("7D");
    reveal_strlit("30D");
    assert forall|r: ChartRange| #[trigger] all_ranges().contains(r) by {
        match r {
            ChartRange::Hour1 => assert(all_ranges()[0] == r),
            ChartRange::Hour4 => assert(all_ranges()[1] == r),
            ChartRange::Day1 => assert(all_ranges()[2] == r),
            ChartRange::Week1 => assert(all_ranges()[3] == r),
            ChartRange::Month1 => assert(all_ranges()[4] == r),
        }
    }
    assert forall|i: int, j: int| 0 <= i < j < 5 implies all_ranges()[i] != all_ranges()[j]
        && range_interval(all_ranges()[i]) != range_interval(all_ranges()[j]) && range_label(
        all_ranges()[i],
    ) != range_label(all_ranges()[j]) by {
        let a = range_interval(all_ranges()[i]);
        let b = range_interval(all_ranges()[j]);
        let c = range_label(all_ranges()[i]);
        let d = range_label(all_ranges()[j]);
        assert(a[0] != b[0] || a[1] != b[1]);
        assert(c.len() != d.len() || c[0] != d[0] || c[1] != d[1]);
    }
}

// ── List view state ───────────────────────────────────────────────

/// Which view is active in the market tab.
#[derive(Debug, Clone, Copy, PartialEq, Eq, Structural)]
pub enum MarketView {
    List,
    Detail,
}

/// Sortable columns in the market list.
#[derive(Debug, Clone, Copy, PartialEq, Eq, Structural)]
pub enum MarketSortColumn {
    Rank,
    Symbol,
    Price,
    Change24h,
    Volume,
}

/// The column after `c` in the sort cycle.
pub open spec fn sort_next(c: MarketSortColumn) -> MarketSortColumn {
    match c {
        MarketSortColumn::Rank => MarketSortColumn::Symbol,
        MarketSortColumn::Symbol => MarketSortColumn::Price,
        MarketSortColumn::Price => MarketSortColumn::Change24h,
        MarketSortColumn::Change24h => MarketSortColumn::Volume,
        MarketSortColumn::Volume => MarketSortColumn::Rank,
    }
}

/// Column header text.
pub open spec fn sort_label(c: MarketSortColumn) -> Seq<char> {
    match c {
        MarketSortColumn::Rank => "#"@,
        MarketSortColumn::Symbol => "Symbol"@,
        MarketSortColumn::Price => "Price"@,
        MarketSortColumn::Change24h => "24h %"@,
        MarketSortColumn::Volume => "Volume"@,
    }
}

/// `n` steps of the sort cycle from `c`.
pub open spec fn sort_next_n(c: MarketSortColumn, n: nat) -> MarketSortColumn
    decreases n,
{
    if n == 0 {
        c
    } else {
        sort_next(sort_next_n(c, (n - 1) as nat))
    }
}

impl MarketSortColumn {
    /// Column header text.
    pub fn label(&self) -> (r: &'static str)
        ensures
            r@ == sort_label(*self),
    {
        match self {
            MarketSortColumn::Rank => "#",
            MarketSortColumn::Symbol => "Symbol",
            MarketSortColumn::Price => "Price",
            MarketSortColumn::Change24h => "24h %",
            MarketSortColumn::Volume => "Volume",
        }
    }

    /// The next column in the cycle.
    pub fn next(&self) -> (r: MarketSortColumn)
        ensures
            r == sort_next(*self),
    {
        match self {
            MarketSortColumn::Rank => MarketSortColumn::Symbol,
            MarketSortColumn::Symbol => MarketSortColumn::Price,
            MarketSortColumn::Price => MarketSortColumn::Change24h,
            MarketSortColumn::Change24h => MarketSortColumn::Volume,
            MarketSortColumn::Volume => MarketSortColumn::Rank,
        }
    }
}

/// Cycling the sort column five times returns to the start, and the first four
/// steps all land on other columns: the cycle visits every column once.
pub proof fn lemma_sort_cycle(c: MarketSortColumn)
    ensures
        sort_next_n(c, 5) == c,
        forall|i: nat, j: nat| i < j < 5 ==> sort_next_n(c, i) != sort_next_n(c, j),
{
    reveal_with_fuel(sort_next_n, 6);
}

// ── Symbols ───────────────────────────────────────────────────────

/// Quote assets stripped from a trading pair, in the order they are tried.
pub open spec fn quote_assets() -> Seq<Seq<char>> {
    seq!["USDT"@, "USDC"@, "BUSD"@, "USD"@, "BTC"@, "ETH"@, "BNB"@]
}

/// `symbol` without the first quote asset of `qs` that it ends with and that
/// leaves something in front; `symbol` itself when there is none.
pub open spec fn strip_quote(symbol: Seq<char>, qs: Seq<Seq<char>>) -> Seq<char>
    decreases qs.len(),
{
    if qs.len() == 0 {
        symbol
    } else if spec_ends_with(symbol, qs[0]) && symbol.len() > qs[0].len() {
        symbol.take(symbol.len() - qs[0].len())
    } else {
        strip_quote(symbol, qs.drop_first())
    }
}

/// Base asset of a trading pair: "BTCUSDT" gives "BTC", "ETHBTC" gives "ETH".
pub fn extract_base_asset(symbol: &str) -> (r: String)
    ensures
        r@ == strip_quote(symbol@, quote_assets()),
{
    let quotes: Vec<&str> = vec!["USDT", "USDC", "BUSD", "USD", "BTC", "ETH", "BNB"];
    let cs = chars_of(symbol);
    let ghost qs = quote_assets();
    assert(quotes@.len() == 7);
    assert(forall|k: int| 0 <= k < 7 ==> (#[trigger] quotes@[k])@ == qs[k]);
    assert(qs.skip(0) =~= qs);
    let mut i: usize = 0;
    while i < quotes.len()
        invariant
            quotes@.len() == 7,
            qs == quote_assets(),
            forall|k: int| 0 <= k < 7 ==> (#[trigger] quotes@[k])@ == qs[k],
            cs@ == symbol@,
            i <= 7,
            strip_quote(symbol@, qs) == strip_quote(symbol@, qs.skip(i as int)),
        decreases 7 - i,
    {
        let q = quotes[i];
        let qc = chars_of(q);
        proof {
            assert(qs.skip(i as int)[0] == qs[i as int]);
            assert(qs.skip(i as int).drop_first() =~= qs.skip(i + 1));
        }
        if ends_with_str(cs.as_slice(), q) && cs.len() > qc.len() {
            let base = sub_chars(cs.as_slice(), 0, cs.len() - qc.len());
            proof {
                assert(base@ =~= symbol@.take(symbol@.len() - qs[i as int].len()));
            }
            return string_of(base.as_slice());
        }
        i = i + 1;
    }
    proof {
        assert(qs.skip(7) =~= Seq::<Seq<char>>::empty());
    }
    string_of(cs.as_slice())
}

// ── News ──────────────────────────────────────────────────────────

/// A news item for the market feed.
#[derive(Debug, Clone)]
pub struct NewsItem {
    /// Headline text.
    pub title: String,
    /// Source name.
    pub source: String,
    /// Publication time, seconds since the epoch.
    pub published_at: i64,
    /// Link to the full article.
    pub url: String,
    /// "positive", "negative" or "neutral" when the feed gave a sentiment.
    pub sentiment: Option<String>,
}

/// The sentiment label for an already lowercased feed value.
pub open spec fn spec_sentiment(lower: Seq<char>) -> Option<Seq<char>> {
    if lower == "positive"@ || lower == "bullish"@ {
        Some("positive"@)
    } else if lower == "negative"@ || lower == "bearish"@ {
        Some("negative"@)
    } else if lower == "neutral"@ {
        Some("neutral"@)
    } else {
        None
    }
}

/// The view of an optional string.
pub open spec fn opt_view(o: Option<String>) -> Option<Seq<char>> {
    match o {
        Some(s) => Some(s@),
        None => None,
    }
}

/// Maps the feed's sentiment string, in any case, to a label.
pub fn sentiment_label(sentiment: &str) -> (r: Option<String>)
    ensures
        opt_view(r) == spec_sentiment(lowercase_of(sentiment@)),
{
    let lower = to_lowercase(sentiment);
    let lc = chars_of(lower.as_str());
    if eq_str(lc.as_slice(), "positive") || eq_str(lc.as_slice(), "bullish") {
        Some(string_of(chars_of("positive").as_slice()))
    } else if eq_str(lc.as_slice(), "negative") || eq_str(lc.as_slice(), "bearish") {
        Some(string_of(chars_of("negative").as_slice()))
    } else if eq_str(lc.as_slice(), "neutral") {
        Some(string_of(chars_of("neutral").as_slice()))
    } else {
        None
    }
}

/// "X ago" text for an item `diff` seconds old.
pub open spec fn spec_time_ago(diff: int) -> Seq<char> {
    if diff < 60 {
        "just now"@
    } else if diff < 3600 {
        nat_to_dec((diff / 60) as nat) + "m ago"@
    } else if diff < 86400 {
        nat_to_dec((diff / 3600) as nat) + "h ago"@
    } else {
        nat_to_dec((diff / 86400) as nat) + "d ago"@
    }
}

/// Seconds from `epoch_secs` to `now_secs`, never negative.
pub open spec fn age_secs(now_secs: int, epoch_secs: int) -> int {
    if now_secs > epoch_secs {
        now_secs - epoch_secs
    } else {
        0
    }
}

/// Human-readable age of `epoch_secs` when the clock reads `now_secs`.
pub fn format_time_ago_at(epoch_secs: i64, now_secs: i64) -> (r: String)
    ensures
        r@ == spec_time_ago(age_secs(now_secs as int, epoch_secs as int)),
{
    let diff: u64 = if now_secs > epoch_secs {
        (now_secs as i128 - epoch_secs as i128) as u64
    } else {
        0
    };
    if diff < 60 {
        return string_of(chars_of("just now").as_slice());
    }
    let mut v: Vec<char>;
    if diff < 3600 {
        v = u64_to_dec(diff / 60);
        push_str(&mut v, "m ago");
    } else if diff < 86400 {
        v = u64_to_dec(diff / 3600);
        push_str(&mut v, "h ago");
    } else {
        v = u64_to_dec(diff / 86400);
        push_str(&mut v, "d ago");
    }
    string_of(v.as_slice())
}

/// Human-readable age of `epoch_secs` by the system clock.
pub fn format_time_ago(epoch_secs: i64) -> (r: String)
    ensures
        exists|now_secs: i64| r@ == spec_time_ago(age_secs(now_secs as int, epoch_secs as int)),
{
    let now_secs = system_time_ms() / 1000;
    format_time_ago_at(epoch_secs, now_secs)
}

/// `max - 3`, or zero.
pub open spec fn cut_point(max: int) -> int {
    if max >= 3 {
        max - 3
    } else {
        0
    }
}

/// The original text if it fits in `max` bytes, else the text before byte
/// `max - 3` followed by "...".
pub open spec fn spec_truncate(s: Seq<char>, max: int) -> Seq<char> {
    if byte_len(s) <= max {
        s
    } else {
        s.take(char_index_at(s, cut_point(max))) + "..."@
    }
}

/// Whether `truncate` can cut `s` for `max` without splitting a character.
pub open spec fn truncate_ok(s: Seq<char>, max: int) -> bool {
    byte_len(s) <= max || is_boundary(s, cut_point(max))
}

/// A text that fits in `max` bytes is kept as it is; a longer one comes out
/// exactly `max` bytes long and ending in "..." (for `max` of at least 3, the
/// width of the marker).
pub proof fn lemma_truncate_fits(s: Seq<char>, max: int)
    requires
        max >= 3,
        truncate_ok(s, max),
    ensures
        byte_len(s) <= max ==> spec_truncate(s, max) == s,
        byte_len(s) > max ==> byte_len(spec_truncate(s, max)) == max && spec_ends_with(
            spec_truncate(s, max),
            "..."@,
        ),
{
    if byte_len(s) > max {
        reveal_strlit("...");
        let k = char_index_at(s, max - 3);
        assert(0 <= k <= s.len() && byte_len(s.take(k)) == max - 3);
        assert(byte_len("..."@) == 3) by {
            reveal_with_fuel(byte_len, 4);
            assert("..."@.drop_first() =~= seq!['.', '.']);
            assert("..."@.drop_first().drop_first() =~= seq!['.']);
            assert("..."@.drop_first().drop_first().drop_first() =~= Seq::<char>::empty());
        }
        lemma_byte_len_concat(s.take(k), "..."@);
        let t = s.take(k) + "..."@;
        assert(t.skip(t.len() - 3) =~= "..."@);
    }
}

/// Shortens `s` to at most `max` bytes, marking the cut with "...".
pub fn truncate(s: &str, max: usize) -> (r: String)
    requires
        truncate_ok(s@, max as int),
    ensures
        r@ == spec_truncate(s@, max as int),
{
    let cs = chars_of(s);
    let n = str_byte_len(s);
    if n <= max {
        return string_of(cs.as_slice());
    }
    let cut: usize = if max >= 3 {
        max - 3
    } else {
        0
    };
    match char_index_at_byte(cs.as_slice(), cut) {
        Some(k) => {
            let mut v = sub_chars(cs.as_slice(), 0, k);
            push_str(&mut v, "...");
            proof {
                assert(cs@.subrange(0, k as int) =~= s@.take(k as int));
            }
            string_of(v.as_slice())
        },
        None => {
            proof {
                assert(false);
            }
            string_of(cs.as_slice())
        },
    }
}

// ── News feed articles ────────────────────────────────────────────

/// At most this many articles are kept from one fetch of the news feed.
pub const MAX_NEWS_ITEMS: usize = 20;

/// Headlines longer than this many bytes are shortened.
pub const NEWS_HEADLINE_MAX_LEN: usize = 100;

/// One article as the news feed delivers it.
#[derive(Debug, Clone)]
pub struct CryptoCompareArticle {
    pub title: String,
    pub source: String,
    pub url: String,
    pub published_on: i64,
    pub categories: String,
    pub sentiment: String,
}

/// The feed item made from one article.
pub open spec fn article_item_ok(a: CryptoCompareArticle, item: NewsItem) -> bool {
    &&& item.title@ == spec_truncate(a.title@, NEWS_HEADLINE_MAX_LEN as int)
    &&& item.source@ == a.source@
    &&& item.published_at == a.published_on
    &&& item.url@ == a.url@
    &&& opt_view(item.sentiment) == spec_sentiment(lowercase_of(a.sentiment@))
}

/// Turns an article into a feed item: long headlines are shortened and the
/// sentiment is mapped to a label.
pub fn article_to_news_item(article: CryptoCompareArticle) -> (item: NewsItem)
    requires
        truncate_ok(article.title@, NEWS_HEADLINE_MAX_LEN as int),
    ensures
        article_item_ok(article, item),
{
    let title = truncate(article.title.as_str(), NEWS_HEADLINE_MAX_LEN);
    let sentiment = sentiment_label(article.sentiment.as_str());
    NewsItem {
        title,
        source: article.source,
        published_at: article.published_on,
        url: article.url,
        sentiment,
    }
}

fn copy_article(a: &CryptoCompareArticle) -> (r: CryptoCompareArticle)
    ensures
        r == *a,
{
    CryptoCompareArticle {
        title: a.title.clone(),
        source: a.source.clone(),
        url: a.url.clone(),
        published_on: a.published_on,
        categories: a.categories.clone(),
        sentiment: a.sentiment.clone(),
    }
}

/// The feed items for the first `MAX_NEWS_ITEMS` articles, in feed order.
pub fn news_items_from_articles(articles: Vec<CryptoCompareArticle>) -> (items: Vec<NewsItem>)
    requires
        forall|i: int|
            0 <= i < articles@.len() && i < MAX_NEWS_ITEMS ==> truncate_ok(
                (#[trigger] articles@[i]).title@,
                NEWS_HEADLINE_MAX_LEN as int,
            ),
    ensures
        items@.len() == if articles@.len() < MAX_NEWS_ITEMS { articles@.len() } else { MAX_NEWS_ITEMS as nat },
        forall|i: int| 0 <= i < items@.len() ==> article_item_ok(articles@[i], #[trigger] items@[i]),
{
    let mut items: Vec<NewsItem> = Vec::new();
    let n = articles.len();
    let mut i: usize = 0;
    while i < n && i < MAX_NEWS_ITEMS
        invariant
            n == articles@.len(),
            i <= n,
            i <= MAX_NEWS_ITEMS,
            items@.len() == i,
            forall|k: int|
                0 <= k < articles@.len() && k < MAX_NEWS_ITEMS ==> truncate_ok(
                    (#[trigger] articles@[k]).title@,
                    NEWS_HEADLINE_MAX_LEN as int,
                ),
            forall|k: int| 0 <= k < items@.len() ==> article_item_ok(articles@[k], #[trigger] items@[k]),
        decreases n - i,
    {
        let a = copy_article(&articles[i]);
        let item = article_to_news_item(a);
        items.push(item);
        i = i + 1;
    }
    items
}

// ── Watchlist and selection ───────────────────────────────────────

/// Rows moved by page up and page down.
pub const PAGE_SIZE: usize = 20;

/// The text of each string in `v`.
pub open spec fn views(v: Seq<String>) -> Seq<Seq<char>> {
    v.map_values(|s: String| s@)
}

/// `p` is the first position of `x` in `s`.
pub open spec fn first_pos(s: Seq<Seq<char>>, x: Seq<char>, p: int) -> bool {
    0 <= p < s.len() && s[p] == x && forall|k: int| 0 <= k < p ==> #[trigger] s[k] != x
}

/// List-view state of the market tab: the watchlist, favorites, selection,
/// search, sort and detail-view flags. The coins themselves carry prices and
/// are kept beside it by the application, which passes in how many rows are
/// visible where that matters.
pub struct MarketState {
    /// Favorite symbols.
    pub favorites: Vec<String>,
    /// Tickers polled, in display order (e.g. "BTCUSDT").
    pub watchlist: Vec<String>,
    pub view: MarketView,
    pub selected_index: usize,
    pub scroll_offset: usize,
    pub search_mode: bool,
    pub search_text: String,
    pub search_cursor: usize,
    pub show_favorites_only: bool,
    pub sort_column: MarketSortColumn,
    pub sort_ascending: bool,
    /// Input mode for adding a ticker.
    pub add_ticker_mode: bool,
    pub add_ticker_text: String,
    pub detail_scroll: usize,
    pub chart_range: ChartRange,
    pub chart_loading: bool,
    pub ai_analysis: Option<String>,
    pub ai_loading: bool,
    pub loading: bool,
    pub error: Option<String>,
}

/// `s` in the state it has when the tab opens.
pub open spec fn fresh_market_state(s: MarketState, favorites: Seq<String>, watchlist: Seq<String>) -> bool {
    &&& s.favorites@ == favorites
    &&& s.watchlist@ == watchlist
    &&& s.view == MarketView::List
    &&& s.selected_index == 0
    &&& s.scroll_offset == 0
    &&& !s.search_mode
    &&& s.search_text@.len() == 0
    &&& s.search_cursor == 0
    &&& !s.show_favorites_only
    &&& s.sort_column == MarketSortColumn::Rank
    &&& s.sort_ascending
    &&& !s.add_ticker_mode
    &&& s.add_ticker_text@.len() == 0
    &&& s.detail_scroll == 0
    &&& s.chart_range == ChartRange::Day1
    &&& !s.chart_loading
    &&& s.ai_analysis is None
    &&& !s.ai_loading
    &&& s.loading
    &&& s.error is None
}

/// The selection after moving up one row from `sel` with the view scrolled to `scroll`.
pub open spec fn select_up(sel: int, scroll: int) -> (int, int) {
    if sel > 0 {
        let s = sel - 1;
        (s, if s < scroll { s } else { scroll })
    } else {
        (sel, scroll)
    }
}

/// The last row of a list of `len` rows (zero for an empty list).
pub open spec fn last_row(len: int) -> int {
    if len > 0 {
        len - 1
    } else {
        0
    }
}

/// The test "is not `symbol`".
pub open spec fn other_than(symbol: Seq<char>) -> spec_fn(Seq<char>) -> bool {
    |x: Seq<char>| x != symbol
}

/// Whether the coin list shows a coin: see `MarketState::lists_coin`.
pub open spec fn spec_lists_coin(
    favorites_only: bool,
    search: Seq<char>,
    name: Seq<char>,
    symbol: Seq<char>,
    is_favorite: bool,
) -> bool {
    if favorites_only {
        is_favorite
    } else if search.len() > 0 {
        spec_contains(lowercase_of(name), lowercase_of(search)) || spec_contains(
            lowercase_of(symbol),
            lowercase_of(search),
        )
    } else {
        true
    }
}

impl MarketState {
    /// The state the tab opens with.
    pub fn new(favorites: Vec<String>, watchlist: Vec<String>) -> (s: MarketState)
        ensures
            fresh_market_state(s, favorites@, watchlist@),
    {
        MarketState {
            favorites,
            watchlist,
            view: MarketView::List,
            selected_index: 0,
            scroll_offset: 0,
            search_mode: false,
            search_text: String::new(),
            search_cursor: 0,
            show_favorites_only: false,
            sort_column: MarketSortColumn::Rank,
            sort_ascending: true,
            add_ticker_mode: false,
            add_ticker_text: String::new(),
            detail_scroll: 0,
            chart_range: ChartRange::Day1,
            chart_loading: false,
            ai_analysis: None,
            ai_loading: false,
            loading: true,
            error: None,
        }
    }

    /// Moves the selection up one row, scrolling up with it.
    pub fn move_selection_up(&mut self)
        ensures
            (final(self).selected_index as int, final(self).scroll_offset as int) == select_up(
                old(self).selected_index as int,
                old(self).scroll_offset as int,
            ),
            *final(self) == (MarketState {
                selected_index: final(self).selected_index,
                scroll_offset: final(self).scroll_offset,
                ..*old(self)
            }),
    {
        if self.selected_index > 0 {
            self.selected_index = self.selected_index - 1;
            if self.selected_index < self.scroll_offset {
                self.scroll_offset = self.selected_index;
            }
        }
    }

    /// Moves the selection down one row within a list of `visible_len` rows.
    pub fn move_selection_down(&mut self, visible_len: usize)
        ensures
            final(self).selected_index == if old(self).selected_index < last_row(visible_len as int) {
                old(self).selected_index + 1
            } else {
                old(self).selected_index as int
            },
            *final(self) == (MarketState { selected_index: final(self).selected_index, ..*old(self) }),
    {
        let last: usize = if visible_len > 0 {
            visible_len - 1
        } else {
            0
        };
        if self.selected_index < last {
            self.selected_index = self.selected_index + 1;
        }
    }

    /// Moves the selection up a page, scrolling up with it.
    pub fn page_up(&mut self)
        ensures
            final(self).selected_index == if old(self).selected_index >= PAGE_SIZE {
                old(self).selected_index - PAGE_SIZE
            } else {
                0
            },
            final(self).scroll_offset == if final(self).selected_index < old(self).scroll_offset {
                final(self).selected_index
            } else {
                old(self).scroll_offset
            },
            *final(self) == (MarketState {
                selected_index: final(self).selected_index,
                scroll_offset: final(self).scroll_offset,
                ..*old(self)
            }),
    {
        self.selected_index = if self.selected_index >= PAGE_SIZE {
            self.selected_index - PAGE_SIZE
        } else {
            0
        };
        if self.selected_index < self.scroll_offset {
            self.scroll_offset = self.selected_index;
        }
    }

    /// Moves the selection down a page within a list of `visible_len` rows.
    pub fn page_down(&mut self, visible_len: usize)
        requires
            old(self).selected_index + PAGE_SIZE <= usize::MAX,
        ensures
            final(self).selected_index == if old(self).selected_index + PAGE_SIZE < last_row(visible_len as int) {
                old(self).selected_index + PAGE_SIZE
            } else {
                last_row(visible_len as int)
            },
            *final(self) == (MarketState { selected_index: final(self).selected_index, ..*old(self) }),
    {
        let last: usize = if visible_len > 0 {
            visible_len - 1
        } else {
            0
        };
        let target = self.selected_index + PAGE_SIZE;
        self.selected_index = if target < last {
            target
        } else {
            last
        };
    }

    /// Moves on to the next sort column.
    pub fn cycle_sort(&mut self)
        ensures
            *final(self) == (MarketState { sort_column: sort_next(old(self).sort_column), ..*old(self) }),
    {
        self.sort_column = self.sort_column.next();
    }

    /// Position of `symbol` in the watchlist, if it is there.
    fn watch_position(&self, symbol: &[char]) -> (r: Option<usize>)
        ensures
            match r {
                Some(p) => first_pos(views(self.watchlist@), symbol@, p as int),
                None => !views(self.watchlist@).contains(symbol@),
            },
    {
        let n = self.watchlist.len();
        let mut i: usize = 0;
        while i < n
            invariant
                n == self.watchlist@.len(),
                i <= n,
                forall|k: int| 0 <= k < i ==> #[trigger] views(self.watchlist@)[k] != symbol@,
            decreases n - i,
        {
            let w = chars_of(self.watchlist[i].as_str());
            if chars_eq(w.as_slice(), symbol) {
                return Some(i);
            }
            i = i + 1;
        }
        None
    }

    /// Whether `symbol` is one of the favorites.
    pub fn is_favorite(&self, symbol: &str) -> (r: bool)
        ensures
            r == views(self.favorites@).contains(symbol@),
    {
        let sc = chars_of(symbol);
        let mut i: usize = 0;
        while i < self.favorites.len()
            invariant
                i <= self.favorites@.len(),
                sc@ == symbol@,
                forall|k: int| 0 <= k < i ==> (#[trigger] views(self.favorites@)[k]) != symbol@,
            decreases self.favorites@.len() - i,
        {
            if chars_eq(chars_of(self.favorites[i].as_str()).as_slice(), sc.as_slice()) {
                assert(views(self.favorites@)[i as int] == symbol@);
                return true;
            }
            i = i + 1;
        }
        false
    }

    /// The rank a coin of `symbol` takes in the list: one more than its
    /// position in the watchlist, if it is watched.
    pub fn watch_rank(&self, symbol: &str) -> (r: Option<u32>)
        requires
            self.watchlist@.len() < u32::MAX,
        ensures
            match r {
                Some(k) => exists|p: int| first_pos(views(self.watchlist@), symbol@, p) && k == p + 1,
                None => !views(self.watchlist@).contains(symbol@),
            },
    {
        let sc = chars_of(symbol);
        match self.watch_position(sc.as_slice()) {
            Some(p) => Some(p as u32 + 1),
            None => None,
        }
    }

    /// Adds `ticker`, uppercased, to the end of the watchlist unless it is empty
    /// or already there; says whether it was added.
    pub fn add_ticker(&mut self, ticker: &str) -> (added: bool)
        ensures
            added == (uppercase_of(ticker@).len() > 0 && !views(old(self).watchlist@).contains(
                uppercase_of(ticker@),
            )),
            views(final(self).watchlist@) == if added {
                views(old(self).watchlist@).push(uppercase_of(ticker@))
            } else {
                views(old(self).watchlist@)
            },
            views(old(self).watchlist@).no_duplicates() ==> views(final(self).watchlist@).no_duplicates(),
            *final(self) == (MarketState { watchlist: final(self).watchlist, ..*old(self) }),
    {
        let upper = to_uppercase(ticker);
        let uc = chars_of(upper.as_str());
        if uc.len() == 0 {
            return false;
        }
        match self.watch_position(uc.as_slice()) {
            Some(_) => false,
            None => {
                self.watchlist.push(upper);
                proof {
                    assert(views(self.watchlist@) =~= views(old(self).watchlist@).push(uppercase_of(ticker@)));
                    if views(old(self).watchlist@).no_duplicates() {
                        lemma_push_new_keeps_no_duplicates(views(old(self).watchlist@), uppercase_of(ticker@));
                    }
                }
                true
            },
        }
    }

    /// Removes `ticker` from the watchlist; says whether it was there.
    pub fn remove_ticker(&mut self, ticker: &str) -> (removed: bool)
        ensures
            removed == views(old(self).watchlist@).contains(ticker@),
            removed ==> exists|p: int|
                first_pos(views(old(self).watchlist@), ticker@, p) && final(self).watchlist@ == old(
                    self,
                ).watchlist@.remove(p),
            !removed ==> *final(self) == *old(self),
            *final(self) == (MarketState { watchlist: final(self).watchlist, ..*old(self) }),
    {
        let tc = chars_of(ticker);
        match self.watch_position(tc.as_slice()) {
            Some(p) => {
                proof {
                    assert(views(old(self).watchlist@)[p as int] == ticker@);
                }
                self.watchlist.remove(p);
                true
            },
            None => false,
        }
    }

    /// Removes the selected coin's `symbol` from the watchlist and moves the
    /// selection up a row; gives back the symbol when it was watched.
    pub fn remove_selected_symbol(&mut self, symbol: &str) -> (r: Option<String>)
        ensures
            match r {
                Some(s) => {
                    &&& s@ == symbol@
                    &&& views(old(self).watchlist@).contains(symbol@)
                    &&& exists|p: int|
                        first_pos(views(old(self).watchlist@), symbol@, p) && final(self).watchlist@
                            == old(self).watchlist@.remove(p)
                    &&& final(self).selected_index == if old(self).selected_index > 0 {
                        old(self).selected_index - 1
                    } else {
                        0
                    }
                    &&& *final(self) == (MarketState {
                        watchlist: final(self).watchlist,
                        selected_index: final(self).selected_index,
                        ..*old(self)
                    })
                },
                None => {
                    &&& !views(old(self).watchlist@).contains(symbol@)
                    &&& *final(self) == *old(self)
                },
            },
    {
        if self.remove_ticker(symbol) {
            if self.selected_index > 0 {
                self.selected_index = self.selected_index - 1;
            }
            let sc = chars_of(symbol);
            Some(string_of(sc.as_slice()))
        } else {
            None
        }
    }

    /// Whether the list shows a coin named `name` with trading pair `symbol`:
    /// with the favorites filter on, favorites only; else, while a search text
    /// is typed, coins whose name or symbol contains it, ignoring case; else all.
    pub fn lists_coin(&self, name: &str, symbol: &str, is_favorite: bool) -> (r: bool)
        ensures
            r == spec_lists_coin(
                self.show_favorites_only,
                self.search_text@,
                name@,
                symbol@,
                is_favorite,
            ),
    {
        if self.show_favorites_only {
            return is_favorite;
        }
        let typed = chars_of(self.search_text.as_str());
        if typed.len() == 0 {
            return true;
        }
        let q = to_lowercase(self.search_text.as_str());
        let n = to_lowercase(name);
        let nc = chars_of(n.as_str());
        if contains_str(nc.as_slice(), q.as_str()) {
            return true;
        }
        let sy = to_lowercase(symbol);
        let sc = chars_of(sy.as_str());
        contains_str(sc.as_slice(), q.as_str())
    }

    /// Flips whether `symbol` is a favorite; says whether it is one now.
    pub fn toggle_favorite_symbol(&mut self, symbol: &str) -> (now_favorite: bool)
        ensures
            now_favorite == !views(old(self).favorites@).contains(symbol@),
            views(final(self).favorites@) == if now_favorite {
                views(old(self).favorites@).push(symbol@)
            } else {
                views(old(self).favorites@).filter(other_than(symbol@))
            },
            views(old(self).favorites@).no_duplicates() ==> views(final(self).favorites@).no_duplicates(),
            *final(self) == (MarketState { favorites: final(self).favorites, ..*old(self) }),
    {
        let sc = chars_of(symbol);
        let n = self.favorites.len();
        let mut kept: Vec<String> = Vec::new();
        let mut found = false;
        let ghost old_views = views(self.favorites@);
        let ghost pred = other_than(symbol@);
        let mut i: usize = 0;
        while i < n
            invariant
                n == self.favorites@.len(),
                old_views == views(self.favorites@),
                sc@ == symbol@,
                pred == other_than(symbol@),
                i <= n,
                views(kept@) == old_views.take(i as int).filter(pred),
                found ==> old_views.contains(symbol@),
                !found ==> forall|k: int| 0 <= k < i ==> #[trigger] old_views[k] != symbol@,
            decreases n - i,
        {
            let f = chars_of(self.favorites[i].as_str());
            proof {
                reveal(Seq::filter);
                assert(old_views.take(i + 1).drop_last() =~= old_views.take(i as int));
                assert(old_views.take(i + 1).last() == old_views[i as int]);
            }
            if chars_eq(f.as_slice(), sc.as_slice()) {
                found = true;
                proof {
                    assert(old_views[i as int] == symbol@);
                    assert(old_views.take(i + 1)[i as int] == symbol@);
                    assert(old_views.take(i + 1).filter(pred) == old_views.take(i as int).filter(pred));
                }
            } else {
                kept.push(self.favorites[i].clone());
                proof {
                    assert(old_views.take(i + 1).filter(pred) == old_views.take(i as int).filter(pred).push(old_views[i as int]));
                    assert(views(kept@) =~= old_views.take(i + 1).filter(pred));
                }
            }
            i = i + 1;
        }
        proof {
            assert(old_views.take(n as int) =~= old_views);
        }
        if found {
            self.favorites = kept;
            proof {
                if old_views.no_duplicates() {
                    lemma_filter_keeps_no_duplicates(old_views, pred);
                }
            }
            false
        } else {
            self.favorites.push(string_of(sc.as_slice()));
            proof {
                assert(views(self.favorites@) =~= old_views.push(symbol@));
                if old_views.no_duplicates() {
                    lemma_push_new_keeps_no_duplicates(old_views, symbol@);
                }
            }
            true
        }
    }
}

/// Filtering a list free of repeats leaves it free of repeats.
pub proof fn lemma_filter_keeps_no_duplicates(s: Seq<Seq<char>>, p: spec_fn(Seq<char>) -> bool)
    requires
        s.no_duplicates(),
    ensures
        s.filter(p).no_duplicates(),
    decreases s.len(),
{
    reveal(Seq::filter);
    if s.len() > 0 {
        let rest = s.drop_last();
        assert(rest.no_duplicates()) by {
            assert forall|i: int, j: int| 0 <= i < rest.len() && 0 <= j < rest.len() && i != j implies rest[i]
                != rest[j] by {
                assert(rest[i] == s[i] && rest[j] == s[j]);
            }
        }
        lemma_filter_keeps_no_duplicates(rest, p);
        let f = rest.filter(p);
        if p(s.last()) {
            if f.contains(s.last()) {
                rest.lemma_filter_contains_rev(p, s.last());
                let k = choose|k: int| 0 <= k < rest.len() && rest[k] == s.last();
                assert(s[k] == s[s.len() - 1]);
            }
            assert(s.filter(p) == f.push(s.last()));
            assert forall|i: int, j: int|
                0 <= i < f.push(s.last()).len() && 0 <= j < f.push(s.last()).len() && i != j implies f.push(
                s.last(),
            )[i] != f.push(s.last())[j] by {
                if i < f.len() && j < f.len() {
                } else if i < f.len() {
                    assert(f.contains(f[i]));
                } else {
                    assert(f.contains(f[j]));
                }
            }
        } else {
            assert(s.filter(p) == f);
        }
    }
}

/// Appending a value the list lacks keeps it free of repeats.
pub proof fn lemma_push_new_keeps_no_duplicates(s: Seq<Seq<char>>, x: Seq<char>)
    requires
        s.no_duplicates(),
        !s.contains(x),
    ensures
        s.push(x).no_duplicates(),
{
    let t = s.push(x);
    assert forall|i: int, j: int| 0 <= i < t.len() && 0 <= j < t.len() && i != j implies t[i] != t[j] by {
        if i < s.len() && j < s.len() {
            assert(t[i] == s[i] && t[j] == s[j]);
        } else if i < s.len() {
            assert(t[i] == s[i]);
        } else {
            assert(t[j] == s[j]);
        }
    }
}

/// What the "market" command was asked to do.
#[derive(Debug, Clone, PartialEq, Eq)]
pub enum MarketCommand {
    /// Add the (uppercased) ticker to the watchlist.
    Add(String),
    /// Remove the (uppercased) ticker from the watchlist.
    Remove(String),
    /// Show the overview.
    Overview,
}

/// The command that the arguments `args` of "market" ask for.
pub open spec fn spec_market_command(args: Seq<char>) -> (Option<bool>, Seq<char>) {
    let a = spec_trim(args);
    if spec_starts_with(a, "add "@) {
        (Some(true), uppercase_of(spec_trim(a.skip(4))))
    } else if spec_starts_with(a, "remove "@) {
        (Some(false), uppercase_of(spec_trim(a.skip(7))))
    } else {
        (None, Seq::empty())
    }
}

/// Reads the arguments of the "market" command: `add <TICKER>`,
/// `remove <TICKER>`, or anything else for the overview.
pub fn parse_market_command(args: &str) -> (r: MarketCommand)
    ensures
        match r {
            MarketCommand::Add(t) => spec_market_command(args@) == (Some(true), t@),
            MarketCommand::Remove(t) => spec_market_command(args@) == (Some(false), t@),
            MarketCommand::Overview => spec_market_command(args@).0 is None,
        },
{
    let ac = chars_of(args);
    let a = trim(ac.as_slice());
    if starts_with_str(a.as_slice(), "add ") {
        proof {
            reveal_strlit("add ");
        }
        let rest = sub_chars(a.as_slice(), 4, a.len());
        let t = trim(rest.as_slice());
        let ts = string_of(t.as_slice());
        proof {
            assert(rest@ =~= a@.skip(4));
        }
        MarketCommand::Add(to_uppercase(ts.as_str()))
    } else if starts_with_str(a.as_slice(), "remove ") {
        proof {
            reveal_strlit("remove ");
        }
        let rest = sub_chars(a.as_slice(), 7, a.len());
        let t = trim(rest.as_slice());
        let ts = string_of(t.as_slice());
        proof {
            assert(rest@ =~= a@.skip(7));
        }
        MarketCommand::Remove(to_uppercase(ts.as_str()))
    } else {
        MarketCommand::Overview
    }
}

} // verus!
