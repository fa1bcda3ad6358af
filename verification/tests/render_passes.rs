use topsters_x::chart::{Album, Chart, ChartPreset};
use topsters_x::render::{placeholder_color, redraw_plan, should_paint, DrawCmd, RenderGen};

fn album(id: &str, url: &str) -> Album {
    Album {
        id: id.to_string(),
        title: String::new(),
        artist: String::new(),
        cover_url: url.to_string(),
    }
}

#[test]
fn placeholder_color_is_fixed() {
    assert_eq!(placeholder_color(), "#333333");
    assert_eq!(placeholder_color(), placeholder_color());
}

#[test]
fn redraw_twice_gives_the_same_plan() {
    let mut chart = Chart::from_preset(ChartPreset::Nine);
    chart.set_cell(0, 0, Some(album("a", "http://example.test/a.png"))).unwrap();
    chart.set_cell(2, 1, Some(album("b", "http://example.test/b.png"))).unwrap();
    let first = redraw_plan(&chart, 500, 20, 10);
    let second = redraw_plan(&chart, 500, 20, 10);
    assert_eq!(first, second);
}

#[test]
fn begin_pass_increments_the_generation() {
    let mut gen = RenderGen::new();
    assert_eq!(gen.current, 0);
    let g1 = gen.begin_pass();
    let g2 = gen.begin_pass();
    assert_eq!(g1, 1);
    assert_eq!(g2, 2);
    assert_eq!(gen.current, 2);
}

#[test]
fn stale_load_is_discarded_fresh_load_paints() {
    let mut gen = RenderGen::new();
    let g1 = gen.begin_pass();
    let g2 = gen.begin_pass();
    assert!(!should_paint(g1, gen.current));
    assert!(should_paint(g2, gen.current));
}

/// A chart change between a pass and the resolution of that pass's image
/// loads: the superseded load is discarded, so the cell's final image is the
/// replacement item's, painted into the same (unchanged) square.
#[test]
fn race_replaced_cell_shows_the_new_item() {
    let mut chart = Chart::from_preset(ChartPreset::Nine);
    chart.set_cell(0, 0, Some(album("old", "http://example.test/old.png"))).unwrap();
    let mut gen = RenderGen::new();
    let g1 = gen.begin_pass();
    let plan1 = redraw_plan(&chart, 500, 20, 10);

    // the chart changes before the load issued by plan1 resolves
    chart.set_cell(0, 0, Some(album("new", "http://example.test/new.png"))).unwrap();
    let g2 = gen.begin_pass();
    let plan2 = redraw_plan(&chart, 500, 20, 10);

    let DrawCmd::LoadImage { url: stale_url, rect: stale_rect } = &plan1[0] else {
        unreachable!()
    };
    let DrawCmd::LoadImage { url: fresh_url, rect: fresh_rect } = &plan2[0] else {
        unreachable!()
    };
    // geometry is a function of the shape alone, so both loads target the
    // same square; only the fresh one may paint
    assert_eq!(stale_rect, fresh_rect);
    assert_eq!(stale_url, "http://example.test/old.png");
    assert_eq!(fresh_url, "http://example.test/new.png");
    assert!(!should_paint(g1, gen.current));
    assert!(should_paint(g2, gen.current));
    // everything else of the two passes is unchanged
    assert_eq!(&plan1[1..], &plan2[1..]);
}
