use sentinel::market::{
    article_to_news_item, extract_base_asset, format_time_ago, format_time_ago_at,
    news_items_from_articles, parse_market_command, sentiment_label, truncate, ChartRange,
    CryptoCompareArticle, MarketCommand, MarketSortColumn, MarketState, MarketView, NewsItem,
    MAX_NEWS_ITEMS, NEWS_HEADLINE_MAX_LEN,
};

fn now_secs() -> i64 {
    std::time::SystemTime::now()
        .duration_since(std::time::UNIX_EPOCH)
        .unwrap()
        .as_secs() as i64
}

#[test]
fn sentiment_label_mapping() {
    assert_eq!(sentiment_label("positive"), Some("positive".to_string()));
    assert_eq!(sentiment_label("bullish"), Some("positive".to_string()));
    assert_eq!(sentiment_label("negative"), Some("negative".to_string()));
    assert_eq!(sentiment_label("bearish"), Some("negative".to_string()));
    assert_eq!(sentiment_label("neutral"), Some("neutral".to_string()));
    assert_eq!(sentiment_label("unknown"), None);
    assert_eq!(sentiment_label(""), None);
}

#[test]
fn sentiment_label_case_insensitive() {
    assert_eq!(sentiment_label("POSITIVE"), Some("positive".to_string()));
    assert_eq!(sentiment_label("Negative"), Some("negative".to_string()));
    assert_eq!(sentiment_label("NEUTRAL"), Some("neutral".to_string()));
}

#[test]
fn extract_base_asset_btc() {
    assert_eq!(extract_base_asset("BTCUSDT"), "BTC");
}

#[test]
fn extract_base_asset_eth() {
    assert_eq!(extract_base_asset("ETHUSDT"), "ETH");
}

#[test]
fn extract_base_asset_sol() {
    assert_eq!(extract_base_asset("SOLUSDT"), "SOL");
}

#[test]
fn extract_base_asset_btc_pair() {
    assert_eq!(extract_base_asset("ETHBTC"), "ETH");
}

#[test]
fn extract_base_asset_bare_quote_is_kept() {
    // Nothing would be left in front of the quote asset.
    assert_eq!(extract_base_asset("USDT"), "USDT");
    assert_eq!(extract_base_asset("BNB"), "BNB");
    // The first matching quote asset wins: USDC before USD.
    assert_eq!(extract_base_asset("BTCUSDC"), "BTC");
    assert_eq!(extract_base_asset("XRPUSD"), "XRP");
    assert_eq!(extract_base_asset("DOGE"), "DOGE");
}

#[test]
fn chart_range_interval() {
    assert_eq!(ChartRange::Day1.interval(), "1h");
    assert_eq!(ChartRange::Week1.interval(), "4h");
}

#[test]
fn chart_range_all_has_five() {
    assert_eq!(ChartRange::all().len(), 5);
}

#[test]
fn chart_range_limits_and_labels() {
    let ranges = ChartRange::all();
    let limits: Vec<u32> = ranges.iter().map(|r| r.limit()).collect();
    assert_eq!(limits, vec![60, 48, 24, 42, 30]);
    let labels: Vec<&str> = ranges.iter().map(|r| r.label()).collect();
    assert_eq!(labels, vec!["1H", "4H", "1D", "7D", "30D"]);
    assert_eq!(ChartRange::Hour1.interval(), "1m");
    assert_eq!(ChartRange::Hour4.interval(), "5m");
    assert_eq!(ChartRange::Month1.interval(), "1d");
}

#[test]
fn news_item_creation() {
    let item = NewsItem {
        title: "Bitcoin hits new high".to_string(),
        source: "CoinDesk".to_string(),
        published_at: 1700000000,
        url: "https://example.com/news".to_string(),
        sentiment: Some("positive".to_string()),
    };
    assert_eq!(item.title, "Bitcoin hits new high");
    assert_eq!(item.source, "CoinDesk");
    assert_eq!(item.sentiment, Some("positive".to_string()));
}

#[test]
fn news_item_no_sentiment() {
    let item = NewsItem {
        title: "Market update".to_string(),
        source: "CryptoSlate".to_string(),
        published_at: 1700000000,
        url: "https://example.com".to_string(),
        sentiment: None,
    };
    assert!(item.sentiment.is_none());
}

#[test]
fn format_time_ago_recent() {
    let now = now_secs();
    assert_eq!(format_time_ago(now), "just now");
}

#[test]
fn format_time_ago_minutes() {
    let now = now_secs();
    assert_eq!(format_time_ago(now - 300), "5m ago");
}

#[test]
fn format_time_ago_hours() {
    let now = now_secs();
    assert_eq!(format_time_ago(now - 7200), "2h ago");
}

#[test]
fn format_time_ago_days() {
    let now = now_secs();
    assert_eq!(format_time_ago(now - 172800), "2d ago");
}

#[test]
fn format_time_ago_at_boundaries() {
    assert_eq!(format_time_ago_at(1000, 1059), "just now");
    assert_eq!(format_time_ago_at(1000, 1060), "1m ago");
    assert_eq!(format_time_ago_at(0, 3599), "59m ago");
    assert_eq!(format_time_ago_at(0, 3600), "1h ago");
    assert_eq!(format_time_ago_at(0, 86399), "23h ago");
    assert_eq!(format_time_ago_at(0, 86400), "1d ago");
    // A publication time in the future counts as now.
    assert_eq!(format_time_ago_at(5000, 1000), "just now");
    // The widest difference the types allow.
    assert_eq!(format_time_ago_at(i64::MIN, i64::MAX), "213503982334601d ago");
}

#[test]
fn truncate_short_string() {
    assert_eq!(truncate("hello", 10), "hello");
}

#[test]
fn truncate_long_string() {
    let result = truncate("this is a very long headline", 15);
    assert!(result.len() <= 15);
    assert!(result.ends_with("..."));
}

#[test]
fn truncate_exact_values() {
    assert_eq!(truncate("this is a very long headline", 15), "this is a ve...");
    assert_eq!(truncate("abcdef", 6), "abcdef");
    assert_eq!(truncate("abcdefg", 6), "abc...");
    // Below three bytes the cut is at the start.
    assert_eq!(truncate("abcdef", 2), "...");
    // Multi-byte characters: "é" takes two bytes.
    assert_eq!(truncate("ééééé", 7), "éé...");
}

#[test]
fn cycle_sort_goes_through_all() {
    let mut col = MarketSortColumn::Rank;
    let mut visited = vec![col];
    for _ in 0..5 {
        col = col.next();
        visited.push(col);
    }
    assert_eq!(visited.len(), 6);
    assert_eq!(visited.last(), Some(&MarketSortColumn::Rank));
}

#[test]
fn sort_column_labels() {
    assert_eq!(MarketSortColumn::Rank.label(), "#");
    assert_eq!(MarketSortColumn::Symbol.label(), "Symbol");
    assert_eq!(MarketSortColumn::Price.label(), "Price");
    assert_eq!(MarketSortColumn::Change24h.label(), "24h %");
    assert_eq!(MarketSortColumn::Volume.label(), "Volume");
}

#[test]
fn add_ticker_works() {
    let mut state = MarketState::new(Vec::new(), vec!["BTCUSDT".to_string()]);
    assert!(state.add_ticker("ethusdt"));
    assert_eq!(state.watchlist.len(), 2);
    assert_eq!(state.watchlist[1], "ETHUSDT");
    // Duplicate shouldn't add
    assert!(!state.add_ticker("ETHUSDT"));
    assert_eq!(state.watchlist.len(), 2);
}

#[test]
fn add_ticker_rejects_empty() {
    let mut state = MarketState::new(Vec::new(), Vec::new());
    assert!(!state.add_ticker(""));
    assert!(state.watchlist.is_empty());
}

#[test]
fn market_state_starts_in_list_view() {
    let state = MarketState::new(vec!["BTCUSDT".to_string()], vec!["BTCUSDT".to_string()]);
    assert_eq!(state.view, MarketView::List);
    assert_eq!(state.sort_column, MarketSortColumn::Rank);
    assert!(state.sort_ascending);
    assert_eq!(state.chart_range, ChartRange::Day1);
    assert!(state.loading);
    assert_eq!(state.selected_index, 0);
}

#[test]
fn market_selection_moves_and_pages() {
    let mut state = MarketState::new(Vec::new(), Vec::new());
    state.move_selection_down(3);
    state.move_selection_down(3);
    state.move_selection_down(3);
    assert_eq!(state.selected_index, 2);
    state.move_selection_up();
    assert_eq!(state.selected_index, 1);
    state.page_down(100);
    assert_eq!(state.selected_index, 21);
    state.page_down(10);
    assert_eq!(state.selected_index, 9);
    state.scroll_offset = 8;
    state.page_up();
    assert_eq!(state.selected_index, 0);
    assert_eq!(state.scroll_offset, 0);
    state.move_selection_up();
    assert_eq!(state.selected_index, 0);
    state.move_selection_down(0);
    assert_eq!(state.selected_index, 0);
}

#[test]
fn market_cycle_sort_and_remove() {
    let mut state = MarketState::new(Vec::new(), vec!["BTCUSDT".to_string(), "ETHUSDT".to_string()]);
    state.cycle_sort();
    assert_eq!(state.sort_column, MarketSortColumn::Symbol);
    state.selected_index = 1;
    assert_eq!(state.remove_selected_symbol("ETHUSDT"), Some("ETHUSDT".to_string()));
    assert_eq!(state.watchlist, vec!["BTCUSDT".to_string()]);
    assert_eq!(state.selected_index, 0);
    assert_eq!(state.remove_selected_symbol("SOLUSDT"), None);
    assert!(!state.remove_ticker("SOLUSDT"));
    assert!(state.remove_ticker("BTCUSDT"));
    assert!(state.watchlist.is_empty());
}

#[test]
fn market_toggle_favorite() {
    let mut state = MarketState::new(vec!["BTCUSDT".to_string()], Vec::new());
    assert!(state.toggle_favorite_symbol("ETHUSDT"));
    assert_eq!(state.favorites, vec!["BTCUSDT".to_string(), "ETHUSDT".to_string()]);
    assert!(!state.toggle_favorite_symbol("BTCUSDT"));
    assert_eq!(state.favorites, vec!["ETHUSDT".to_string()]);
}

#[test]
fn market_command_parsing() {
    assert_eq!(parse_market_command("add btcusdt"), MarketCommand::Add("BTCUSDT".to_string()));
    assert_eq!(parse_market_command("  remove  ethusdt "), MarketCommand::Remove("ETHUSDT".to_string()));
    assert_eq!(parse_market_command(""), MarketCommand::Overview);
    assert_eq!(parse_market_command("list"), MarketCommand::Overview);
    assert_eq!(parse_market_command("add"), MarketCommand::Overview);
}

fn article(title: &str, sentiment: &str) -> CryptoCompareArticle {
    CryptoCompareArticle {
        title: title.to_string(),
        source: "CoinDesk".to_string(),
        url: "https://example.com".to_string(),
        published_on: 1700000000,
        categories: "BTC".to_string(),
        sentiment: sentiment.to_string(),
    }
}

#[test]
fn news_articles_become_items() {
    let item = article_to_news_item(article("Bitcoin Surges to New High", "Bullish"));
    assert_eq!(item.title, "Bitcoin Surges to New High");
    assert_eq!(item.source, "CoinDesk");
    assert_eq!(item.published_at, 1700000000);
    assert_eq!(item.sentiment, Some("positive".to_string()));

    let long = "x".repeat(NEWS_HEADLINE_MAX_LEN + 5);
    let item = article_to_news_item(article(&long, ""));
    assert_eq!(item.title.len(), NEWS_HEADLINE_MAX_LEN);
    assert!(item.title.ends_with("..."));
    assert_eq!(item.sentiment, None);

    let many: Vec<CryptoCompareArticle> = (0..MAX_NEWS_ITEMS + 3).map(|i| article(&format!("n{}", i), "neutral")).collect();
    let items = news_items_from_articles(many);
    assert_eq!(items.len(), MAX_NEWS_ITEMS);
    assert_eq!(items[0].title, "n0");
    assert_eq!(items[MAX_NEWS_ITEMS - 1].title, format!("n{}", MAX_NEWS_ITEMS - 1));
}

/// (symbol, name, is_favorite) of a coin, the name being the first three letters of the symbol.
fn coin(symbol: &str, is_favorite: bool) -> (String, String, bool) {
    (symbol.to_string(), symbol[..symbol.len().min(3)].to_string(), is_favorite)
}

fn listed(state: &MarketState, coins: &[(String, String, bool)]) -> Vec<String> {
    coins
        .iter()
        .filter(|(symbol, name, fav)| state.lists_coin(name, symbol, *fav))
        .map(|(symbol, _, _)| symbol.clone())
        .collect()
}

#[test]
fn favorites_filter_works() {
    let mut state = MarketState::new(vec!["ETHUSDT".to_string()], vec![]);
    let coins = vec![coin("BTCUSDT", false), coin("ETHUSDT", true)];
    state.show_favorites_only = true;
    let visible = listed(&state, &coins);
    assert_eq!(visible.len(), 1);
    assert_eq!(visible[0], "ETHUSDT");
}

#[test]
fn search_filter_works() {
    let mut state = MarketState::new(vec![], vec![]);
    let coins = vec![coin("BTCUSDT", false), coin("ETHUSDT", false)];
    state.search_text = "eth".to_string();
    let visible = listed(&state, &coins);
    assert_eq!(visible.len(), 1);
    assert_eq!(visible[0], "ETHUSDT");
}

#[test]
fn search_matches_symbol_ignoring_case_and_empty_search_lists_all() {
    let mut state = MarketState::new(vec![], vec![]);
    let coins = vec![coin("BTCUSDT", false), coin("SOLUSDC", false)];
    assert_eq!(listed(&state, &coins).len(), 2);
    state.search_text = "UsdC".to_string();
    assert_eq!(listed(&state, &coins), vec!["SOLUSDC".to_string()]);
}

#[test]
fn favorite_and_rank_lookups() {
    let state = MarketState::new(
        vec!["ETHUSDT".to_string()],
        vec!["BTCUSDT".to_string(), "ETHUSDT".to_string()],
    );
    assert!(state.is_favorite("ETHUSDT"));
    assert!(!state.is_favorite("BTCUSDT"));
    assert_eq!(state.watch_rank("ETHUSDT"), Some(2));
    assert_eq!(state.watch_rank("BTCUSDT"), Some(1));
    assert_eq!(state.watch_rank("SOLUSDT"), None);
}
