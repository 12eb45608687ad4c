use sentinel::market::{ChartRange, MarketSortColumn, MarketView};
use sentinel::market_tab::{CommandReply, MarketPlugin, MarketRequest};
use sentinel::registry::{Key, Plugin, PluginAction};

fn plugin() -> MarketPlugin {
    MarketPlugin::new(
        true,
        60,
        vec!["BTCUSDT".to_string(), "ETHUSDT".to_string(), "SOLUSDT".to_string()],
        vec![],
    )
}

/// A key in the list view with the three watched coins listed.
fn list_press(p: &mut MarketPlugin, key: Key) -> (PluginAction, MarketRequest) {
    let selected = ["BTCUSDT", "ETHUSDT", "SOLUSDT"].get(p.state.selected_index).copied();
    p.handle_key(key, 3, selected, None, None)
}

#[test]
fn market_plugin_id_and_label() {
    let p = plugin();
    assert_eq!(p.id(), "market");
    assert_eq!(p.tab_label(), "Market");
    assert!(p.is_enabled());
    assert!(!MarketPlugin::new(false, 60, vec![], vec![]).is_enabled());
}

#[test]
fn list_navigation_stays_in_range() {
    let mut p = plugin();
    list_press(&mut p, Key::Down);
    list_press(&mut p, Key::Char('j'));
    list_press(&mut p, Key::Down);
    assert_eq!(p.state.selected_index, 2);
    list_press(&mut p, Key::Up);
    assert_eq!(p.state.selected_index, 1);
    list_press(&mut p, Key::Home);
    assert_eq!(p.state.selected_index, 0);
    list_press(&mut p, Key::End);
    assert_eq!(p.state.selected_index, 2);
    list_press(&mut p, Key::PageUp);
    assert_eq!(p.state.selected_index, 0);
    list_press(&mut p, Key::PageDown);
    assert_eq!(p.state.selected_index, 2);
    assert!(matches!(list_press(&mut p, Key::Char('z')).0, PluginAction::Ignored));
}

#[test]
fn enter_opens_detail_of_selected_coin() {
    let mut p = plugin();
    list_press(&mut p, Key::Down);
    let (action, request) = list_press(&mut p, Key::Enter);
    assert!(matches!(action, PluginAction::Consumed));
    assert!(matches!(request, MarketRequest::OpenDetail(ref s) if s == "ETHUSDT"));
    assert_eq!(p.state.view, MarketView::Detail);
    assert!(p.state.chart_loading);
    // With nothing listed, Enter does nothing.
    let mut q = plugin();
    let (_, request) = q.handle_key(Key::Enter, 0, None, None, None);
    assert!(matches!(request, MarketRequest::Nothing));
    assert_eq!(q.state.view, MarketView::List);
}

#[test]
fn list_keys_toggle_favorites_filters_and_sorting() {
    let mut p = plugin();
    let (_, request) = list_press(&mut p, Key::Char('f'));
    assert!(matches!(request, MarketRequest::FavoriteToggled(ref s) if s == "BTCUSDT"));
    assert_eq!(p.state.favorites, vec!["BTCUSDT".to_string()]);
    list_press(&mut p, Key::Char('F'));
    assert!(p.state.favorites.is_empty());
    list_press(&mut p, Key::Char('*'));
    assert!(p.state.show_favorites_only);
    list_press(&mut p, Key::Char('s'));
    assert_eq!(p.state.sort_column, MarketSortColumn::Symbol);
    list_press(&mut p, Key::Char('r'));
    assert!(!p.state.sort_ascending);
}

#[test]
fn d_removes_selected_ticker() {
    let mut p = plugin();
    list_press(&mut p, Key::Down);
    let (_, request) = list_press(&mut p, Key::Char('d'));
    assert!(matches!(request, MarketRequest::TickerRemoved(ref s) if s == "ETHUSDT"));
    assert_eq!(p.state.watchlist, vec!["BTCUSDT".to_string(), "SOLUSDT".to_string()]);
    assert_eq!(p.state.selected_index, 0);
    assert_eq!(p.state.error.as_deref(), Some("Removed ETHUSDT"));
}

#[test]
fn search_box_edits_at_cursor() {
    let mut p = plugin();
    list_press(&mut p, Key::Char('/'));
    assert!(p.state.search_mode);
    for c in ['e', 't', 'h'] {
        list_press(&mut p, Key::Char(c));
    }
    assert_eq!(p.state.search_text, "eth");
    assert_eq!(p.state.search_cursor, 3);
    list_press(&mut p, Key::Left);
    list_press(&mut p, Key::Left);
    list_press(&mut p, Key::Char('x'));
    assert_eq!(p.state.search_text, "exth");
    assert_eq!(p.state.search_cursor, 2);
    list_press(&mut p, Key::Backspace);
    assert_eq!(p.state.search_text, "eth");
    assert_eq!(p.state.search_cursor, 1);
    list_press(&mut p, Key::Right);
    list_press(&mut p, Key::Right);
    list_press(&mut p, Key::Right);
    assert_eq!(p.state.search_cursor, 3);
    list_press(&mut p, Key::Enter);
    assert!(!p.state.search_mode);
    assert_eq!(p.state.search_text, "eth");
    list_press(&mut p, Key::Char('/'));
    list_press(&mut p, Key::Char('b'));
    list_press(&mut p, Key::Esc);
    assert!(!p.state.search_mode);
    assert!(p.state.search_text.is_empty());
}

#[test]
fn add_ticker_box_takes_alphanumerics_uppercased() {
    let mut p = plugin();
    list_press(&mut p, Key::Char('+'));
    assert!(p.state.add_ticker_mode);
    for c in ['a', 'd', 'a', '-', 'u', 's', 'd', 't', 'x'] {
        list_press(&mut p, Key::Char(c));
    }
    list_press(&mut p, Key::Backspace);
    assert_eq!(p.state.add_ticker_text, "ADAUSDT");
    let (_, request) = list_press(&mut p, Key::Enter);
    assert!(matches!(request, MarketRequest::TickerAdded(ref s) if s == "ADAUSDT"));
    assert!(!p.state.add_ticker_mode);
    assert_eq!(p.state.watchlist.last().map(String::as_str), Some("ADAUSDT"));
    assert!(p.state.error.is_none());
    // A ticker already watched is refused with a message.
    list_press(&mut p, Key::Char('+'));
    for c in "btcusdt".chars() {
        list_press(&mut p, Key::Char(c));
    }
    let (_, request) = list_press(&mut p, Key::Enter);
    assert!(matches!(request, MarketRequest::Nothing));
    assert_eq!(p.state.error.as_deref(), Some("BTCUSDT already in watchlist"));
    assert_eq!(p.state.watchlist.len(), 4);
}

#[test]
fn detail_keys_switch_range_scroll_and_close() {
    let mut p = plugin();
    list_press(&mut p, Key::Enter);
    let detail = Some("BTCUSDT");
    let (_, request) = p.handle_key(Key::Char('2'), 3, None, detail, None);
    assert!(matches!(request, MarketRequest::ReloadChart));
    assert_eq!(p.state.chart_range, ChartRange::Hour4);
    p.handle_key(Key::Down, 3, None, detail, None);
    p.handle_key(Key::Char('j'), 3, None, detail, None);
    p.handle_key(Key::Up, 3, None, detail, None);
    assert_eq!(p.state.detail_scroll, 1);
    let (_, request) = p.handle_key(Key::Char('f'), 3, None, detail, None);
    assert!(matches!(request, MarketRequest::FavoriteToggled(ref s) if s == "BTCUSDT"));
    let (action, _) = p.handle_key(Key::Char('a'), 3, None, detail, Some("Analyze BTC".to_string()));
    assert!(matches!(action, PluginAction::RequestAiAnalysis(ref c) if c == "Analyze BTC"));
    assert!(p.state.ai_loading);
    let (_, request) = p.handle_key(Key::Esc, 3, None, detail, None);
    assert!(matches!(request, MarketRequest::CloseDetail));
    assert_eq!(p.state.view, MarketView::List);
}

#[test]
fn market_command_adds_removes_and_shows_overview() {
    let mut p = plugin();
    match p.execute_command("market", "add dogeusdt") {
        CommandReply::Reply(msg, MarketRequest::TickerAdded(t)) => {
            assert_eq!(msg, "Added DOGEUSDT to watchlist");
            assert_eq!(t, "DOGEUSDT");
        }
        other => panic!("unexpected reply {:?}", other),
    }
    match p.execute_command("market", "add BTCUSDT") {
        CommandReply::Reply(msg, MarketRequest::Nothing) => assert_eq!(msg, "BTCUSDT is already in watchlist"),
        other => panic!("unexpected reply {:?}", other),
    }
    match p.execute_command("market", " remove ethusdt ") {
        CommandReply::Reply(msg, MarketRequest::TickerRemoved(t)) => {
            assert_eq!(msg, "Removed ETHUSDT from watchlist");
            assert_eq!(t, "ETHUSDT");
        }
        other => panic!("unexpected reply {:?}", other),
    }
    match p.execute_command("market", "remove XRPUSDT") {
        CommandReply::Reply(msg, MarketRequest::Nothing) => assert_eq!(msg, "XRPUSDT not in watchlist"),
        other => panic!("unexpected reply {:?}", other),
    }
    assert!(matches!(p.execute_command("market", ""), CommandReply::Overview));
    assert!(matches!(p.execute_command("windows", ""), CommandReply::NotMine));
    assert_eq!(
        p.state.watchlist,
        vec!["BTCUSDT".to_string(), "SOLUSDT".to_string(), "DOGEUSDT".to_string()]
    );
}

#[test]
fn market_ai_stream_and_hints() {
    let mut p = plugin();
    p.receive_ai_chunk("Bull");
    p.receive_ai_chunk("ish");
    assert_eq!(p.state.ai_analysis.as_deref(), Some("Bullish"));
    p.state.ai_loading = true;
    p.ai_analysis_error("timeout");
    assert!(!p.state.ai_loading);
    assert_eq!(p.state.ai_analysis.as_deref(), Some("Error: timeout"));
    assert_eq!(p.status_bar_hints().len(), 6);
    p.state.view = MarketView::Detail;
    assert_eq!(p.status_bar_hints()[1], ("1-5", "Chart range"));
    assert_eq!(p.help_entries().len(), 11);
    assert_eq!(p.commands()[0].0, "market");
}

#[test]
fn watchlist_and_favorites_getters() {
    let p = MarketPlugin::new(true, 60, vec!["BTCUSDT".to_string()], vec!["ETHUSDT".to_string()]);
    assert_eq!(p.watchlist(), &["BTCUSDT".to_string()][..]);
    assert_eq!(p.favorites(), Some(&["ETHUSDT".to_string()][..]));
}
