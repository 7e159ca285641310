use spiral_tiles::pages::{App, Counter, HomePage, Page, SsrPage, SsrPerformanceShowdown};
use spiral_tiles::spiral::Tile;

#[test]
fn route_table_has_three_routes_in_order() {
    let routes = App();
    assert_eq!(routes.len(), 3);
    assert_eq!(routes[0].path, "");
    assert!(matches!(routes[0].page, Page::Home));
    assert_eq!(routes[1].path, "ssr");
    assert!(matches!(routes[1].page, Page::Ssr));
    assert_eq!(routes[2].path, "ssr-performance-showdown");
    assert!(matches!(routes[2].page, Page::SsrShowdown));
}

#[test]
fn home_page_counter_starts_at_zero() {
    let counter = HomePage();
    assert_eq!(counter.count, 0);
}

#[test]
fn counter_counts_clicks() {
    let mut counter: Counter = HomePage();
    counter.click();
    assert_eq!(counter.count, 1);
    counter.click();
    counter.click();
    assert_eq!(counter.count, 3);
}

#[test]
fn ssr_page_has_fifty_rows_of_ones() {
    let items = SsrPage();
    assert_eq!(items.len(), 50);
    for v in items {
        assert_eq!(v, 1);
    }
}

#[test]
fn showdown_page_matches_generator_output() {
    let tiles = SsrPerformanceShowdown();
    assert!(!tiles.is_empty());
    assert_eq!(tiles[0], Tile { x: 480_000_000, y: 360_000_000 });
    let again = SsrPerformanceShowdown();
    assert_eq!(tiles, again);
}
