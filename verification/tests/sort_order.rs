use sentinel::market::MarketSortColumn;
use sentinel::sort_order::{coin_sort_key, lowercase_key, process_sort_key, stable_order, SortKey};
use sentinel::windows::WindowsSortField;

#[test]
fn numbers_sort_stably_both_ways() {
    let keys = vec![SortKey::Number(3), SortKey::Number(1), SortKey::Number(3), SortKey::Number(2)];
    assert_eq!(stable_order(&keys, true), vec![1, 3, 0, 2]);
    assert_eq!(stable_order(&keys, false), vec![0, 2, 3, 1]);
    assert_eq!(stable_order(&[], true), Vec::<usize>::new());
}

#[test]
fn texts_sort_lowercased_with_prefix_first() {
    let keys: Vec<SortKey> = ["Explorer.exe", "chrome.exe", "chrome", "Code.exe"].iter().map(|s| lowercase_key(s)).collect();
    assert_eq!(stable_order(&keys, true), vec![2, 1, 3, 0]);
    assert_eq!(stable_order(&keys, false), vec![0, 3, 1, 2]);
}

#[test]
fn sort_keys_by_field() {
    assert!(process_sort_key(WindowsSortField::Cpu, 1, 2, "a").is_none());
    assert!(matches!(process_sort_key(WindowsSortField::Memory, 1, 2, "a"), Some(SortKey::Number(2))));
    assert!(matches!(process_sort_key(WindowsSortField::Pid, 7, 2, "a"), Some(SortKey::Number(7))));
    match process_sort_key(WindowsSortField::Name, 7, 2, "CoDe") {
        Some(SortKey::Text(t)) => assert_eq!(t.iter().collect::<String>(), "code"),
        other => panic!("{:?}", other),
    }
    assert!(matches!(coin_sort_key(MarketSortColumn::Rank, 4, "BTC"), Some(SortKey::Number(4))));
    assert!(coin_sort_key(MarketSortColumn::Price, 4, "BTC").is_none());
    assert!(coin_sort_key(MarketSortColumn::Volume, 4, "BTC").is_none());
}
