//! Models of the application's pages and routes.
//!
//! Each page is reduced to the data it renders: the route table maps path
//! segments to pages, the home page owns a click counter, the stress page
//! shows a fixed list of rows, and the showdown page lays out tiles along a
//! spiral through [`crate::spiral::generate`].

use crate::spiral;
use crate::spiral::{spec_layout, Params, Tile};
use vstd::prelude::*;

verus! {

/// Number of rows on the server-side-rendering stress page.
pub const SSR_ROW_COUNT: usize = 50;

/// The value shown in every row of the stress page.
pub const SSR_ROW_VALUE: u32 = 1;

/// The pages of the application.  `NotFound` is what the router falls back
/// to when no path matches.
#[derive(Clone, Copy, Debug, PartialEq, Eq, Structural)]
pub enum Page {
    /// The landing page with the click counter.
    Home,
    /// The server-side-rendering stress page.
    Ssr,
    /// The spiral tile layout page.
    SsrShowdown,
    /// Fallback for unknown paths.
    NotFound,
}

/// One entry of the route table: a path segment and the page it shows.
#[derive(Clone, Copy, Debug)]
pub struct Route {
    /// The path segment under which the page is served.
    pub path: &'static str,
    /// The page served under that segment.
    pub page: Page,
}

/// The route table: the three registered routes, in registration order.
/// Unknown paths fall back to [`Page::NotFound`].
#[allow(non_snake_case)]
pub fn App() -> (routes: Vec<Route>)
    ensures
        routes@.len() == 3,
        routes@[0].path@ == ""@ && routes@[0].page == Page::Home,
        routes@[1].path@ == "ssr"@ && routes@[1].page == Page::Ssr,
        routes@[2].path@ == "ssr-performance-showdown"@ && routes@[2].page == Page::SsrShowdown,
{
    let mut routes: Vec<Route> = Vec::new();
    routes.push(Route { path: "", page: Page::Home });
    routes.push(Route { path: "ssr", page: Page::Ssr });
    routes.push(Route { path: "ssr-performance-showdown", page: Page::SsrShowdown });
    routes
}

/// The click counter behind the home page.
#[derive(Clone, Copy, Debug, PartialEq, Eq, Structural)]
pub struct Counter {
    /// Number of clicks so far.
    pub count: u64,
}

impl Counter {
    /// A fresh counter, starting at zero.
    pub fn new() -> (c: Counter)
        ensures
            c.count == 0,
    {
        Counter { count: 0 }
    }

    /// One click: the count grows by exactly one.
    pub fn click(&mut self)
        requires
            old(self).count < u64::MAX,
        ensures
            final(self).count == old(self).count + 1,
    {
        self.count = self.count + 1;
    }
}

/// The home page model: a fresh counter at zero, incremented once per click.
#[allow(non_snake_case)]
pub fn HomePage() -> (counter: Counter)
    ensures
        counter.count == 0,
{
    Counter::new()
}

/// Rows of the stress page: a fixed number of identical entries, one per
/// rendered row.
#[allow(non_snake_case)]
pub fn SsrPage() -> (items: Vec<u32>)
    ensures
        items@.len() == SSR_ROW_COUNT,
        forall|k: int| 0 <= k < items@.len() ==> items@[k] == SSR_ROW_VALUE,
{
    let mut items: Vec<u32> = Vec::new();
    let mut i: usize = 0;
    while i < SSR_ROW_COUNT
        invariant
            i <= SSR_ROW_COUNT,
            items@.len() == i,
            forall|k: int| 0 <= k < items@.len() ==> #[trigger] items@[k] == SSR_ROW_VALUE,
        decreases SSR_ROW_COUNT - i,
    {
        items.push(SSR_ROW_VALUE);
        i = i + 1;
    }
    items
}

/// The layout parameters of the showdown page: a 960 by 720 rectangle and
/// tiles of edge 10, in micro-units.
pub open spec fn showdown_params() -> Params {
    Params { width: 960_000_000, height: 720_000_000, tile_size: 10_000_000 }
}

/// The showdown page model: the spiral tile layout of [`showdown_params`],
/// one entry per rendered tile, in generation order.
#[allow(non_snake_case)]
pub fn SsrPerformanceShowdown() -> (tiles: Vec<Tile>)
    ensures
        tiles@ == spec_layout(showdown_params()),
        spiral::all_tiles_in_bounds(showdown_params(), tiles@),
{
    let p = Params { width: 960_000_000, height: 720_000_000, tile_size: 10_000_000 };
    spiral::generate(p)
}

} // verus!
