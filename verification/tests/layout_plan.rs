use topsters_x::chart::{Album, Chart, ChartPreset};
use topsters_x::layout::{cell_size, layout_fits, Frac, Rect, MAX_DIM};
use topsters_x::render::{redraw_plan, try_redraw_plan, DrawCmd};

const EPS: f64 = 1e-9;

fn approx(fr: &Frac) -> f64 {
    fr.num as f64 / fr.den as f64
}

fn rect_of(cmd: &DrawCmd) -> &Rect {
    match cmd {
        DrawCmd::Fill { rect } => rect,
        DrawCmd::LoadImage { rect, .. } => rect,
    }
}

fn album(url: &str) -> Album {
    Album {
        id: "1".to_string(),
        title: String::new(),
        artist: String::new(),
        cover_url: url.to_string(),
    }
}

#[test]
fn cell_size_is_exact_and_deterministic() {
    let a = cell_size(500, 20, 10, 3);
    let b = cell_size(500, 20, 10, 3);
    assert_eq!(a, b);
    assert_eq!(a.num, 440);
    assert_eq!(a.den, 3);
    let expected = (500.0 - 2.0 * 20.0 - 2.0 * 10.0) / 3.0;
    assert!((approx(&a) - expected).abs() < EPS);
    assert!((approx(&a) - 146.6666666666).abs() < 1e-6);
}

#[test]
fn cell_size_differs_per_row_length() {
    let three = cell_size(500, 20, 10, 3);
    let five = cell_size(500, 20, 10, 5);
    assert!(approx(&five) < approx(&three));
    assert_eq!(five.num, 500 - 40 - 4 * 10);
    assert_eq!(five.den, 5);
}

#[test]
fn scenario_three_by_three_geometry() {
    let chart = Chart::from_preset(ChartPreset::Nine);
    let plan = redraw_plan(&chart, 500, 20, 10);
    assert_eq!(plan.len(), 9);
    let r00 = rect_of(&plan[0]);
    assert!((approx(&r00.side) - 146.66666666666666).abs() < EPS);
    assert!((approx(&r00.x) - 20.0).abs() < EPS);
    assert!((approx(&r00.y) - 20.0).abs() < EPS);
    let r01 = rect_of(&plan[1]);
    assert!((approx(&r01.x) - (20.0 + 10.0 + 146.66666666666666)).abs() < EPS);
    assert!((approx(&r01.x) - 176.66666666666666).abs() < EPS);
    assert!((approx(&r01.y) - 20.0).abs() < EPS);
    // row 1 starts one cell side plus the inner margin further down
    let r10 = rect_of(&plan[3]);
    assert!((approx(&r10.x) - 20.0).abs() < EPS);
    assert!((approx(&r10.y) - 176.66666666666666).abs() < EPS);
}

#[test]
fn all_empty_cells_give_only_fills() {
    let chart = Chart::from_preset(ChartPreset::Nine);
    let plan = redraw_plan(&chart, 500, 20, 10);
    assert_eq!(plan.len(), 9);
    let fills = plan.iter().filter(|c| matches!(c, DrawCmd::Fill { .. })).count();
    let loads = plan.iter().filter(|c| matches!(c, DrawCmd::LoadImage { .. })).count();
    assert_eq!(fills, 9);
    assert_eq!(loads, 0);
}

#[test]
fn one_occupied_cell_gives_one_load_at_its_rect() {
    let mut chart = Chart::from_preset(ChartPreset::Nine);
    chart.set_cell(1, 1, Some(album("http://example.test/cover.png"))).unwrap();
    let plan = redraw_plan(&chart, 500, 20, 10);
    assert_eq!(plan.len(), 9);
    let loads: Vec<&DrawCmd> =
        plan.iter().filter(|c| matches!(c, DrawCmd::LoadImage { .. })).collect();
    assert_eq!(loads.len(), 1);
    let DrawCmd::LoadImage { url, rect } = loads[0] else { unreachable!() };
    assert_eq!(url, "http://example.test/cover.png");
    // the load is the row-major command of cell (1, 1)
    assert!(matches!(plan[4], DrawCmd::LoadImage { .. }));
    // x = om + im + side, y = om + im + side, exactly as for the empty grid
    assert!((approx(&rect.x) - 176.66666666666666).abs() < EPS);
    assert!((approx(&rect.y) - 176.66666666666666).abs() < EPS);
    assert!((approx(&rect.side) - 146.66666666666666).abs() < EPS);
    // no fill targets the same square
    for cmd in plan.iter() {
        if let DrawCmd::Fill { rect: r } = cmd {
            assert_ne!(r, rect);
        }
    }
}

#[test]
fn rows_of_different_lengths_fill_the_usable_width() {
    let chart = Chart::from_row_sizes(vec![2, 3]);
    let plan = redraw_plan(&chart, 100, 10, 10);
    assert_eq!(plan.len(), 5);
    // row 0: side (100 - 20 - 10) / 2 = 35; row 1: side (100 - 20 - 20) / 3 = 20
    let r0 = rect_of(&plan[0]);
    let r1 = rect_of(&plan[1]);
    assert!((approx(&r0.side) - 35.0).abs() < EPS);
    assert!((approx(&r1.x) - (10.0 + 10.0 + 35.0)).abs() < EPS);
    // last cell of row 0 ends at the right outer margin
    assert!((approx(&r1.x) + 35.0 - 90.0).abs() < EPS);
    let r10 = rect_of(&plan[2]);
    let r12 = rect_of(&plan[4]);
    assert!((approx(&r10.side) - 20.0).abs() < EPS);
    assert!((approx(&r10.y) - (10.0 + 10.0 + 35.0)).abs() < EPS);
    // last cell of row 1 ends at the right outer margin as well
    assert!((approx(&r12.x) + 20.0 - 90.0).abs() < EPS);
}

#[test]
fn zero_length_row_is_visually_absent() {
    let with_gap = Chart::from_row_sizes(vec![2, 0, 2]);
    let without_gap = Chart::from_row_sizes(vec![2, 2]);
    let plan_gap = redraw_plan(&with_gap, 100, 10, 10);
    let plan_plain = redraw_plan(&without_gap, 100, 10, 10);
    assert_eq!(plan_gap.len(), 4);
    assert_eq!(plan_gap, plan_plain);
}

#[test]
fn layout_fits_accepts_the_presets() {
    for preset in [ChartPreset::Nine, ChartPreset::TwentyFive, ChartPreset::Hundred] {
        let chart = Chart::from_preset(preset);
        assert!(layout_fits(&chart.row_sizes, 500, 20, 10));
    }
}

#[test]
fn layout_fits_rejects_unrepresentable_inputs() {
    // margins wider than the surface leave a negative usable width
    assert!(!layout_fits(&vec![100], 50, 20, 10));
    // pixel quantities beyond the accepted range
    assert!(!layout_fits(&vec![3, 3, 3], MAX_DIM + 1, 20, 10));
    // the product of the row lengths overflows the exact denominator
    assert!(!layout_fits(&vec![65536; 5], 100, 0, 0));
}

#[test]
fn try_redraw_plan_succeeds_exactly_on_accepted_charts() {
    let chart = Chart::from_preset(ChartPreset::Nine);
    let plan = try_redraw_plan(&chart, 500, 20, 10).unwrap();
    assert_eq!(plan, redraw_plan(&chart, 500, 20, 10));
    assert!(try_redraw_plan(&chart, 49, 20, 10).is_none());

    // a chart whose rows do not match its declared shape is rejected
    let mut broken = Chart::from_preset(ChartPreset::Nine);
    broken.rows[1].push(None);
    assert!(!broken.check_shape());
    assert!(try_redraw_plan(&broken, 500, 20, 10).is_none());
}

#[test]
fn check_shape_accepts_constructed_charts() {
    assert!(Chart::from_preset(ChartPreset::Hundred).check_shape());
    assert!(Chart::from_row_sizes(vec![2, 0, 7]).check_shape());
}

#[test]
fn hundred_preset_plan_covers_every_cell() {
    let chart = Chart::from_preset(ChartPreset::Hundred);
    let plan = redraw_plan(&chart, 500, 20, 10);
    assert_eq!(plan.len(), 5 + 5 + 6 + 6 + 6 + 10 + 10 + 10 + 14 + 14 + 14);
    // first row of fourteen: side (500 - 40 - 13*10) / 14
    let first_of_fourteen = rect_of(&plan[5 + 5 + 6 + 6 + 6 + 10 + 10 + 10]);
    assert!((approx(&first_of_fourteen.side) - 330.0 / 14.0).abs() < EPS);
    assert!((approx(&first_of_fourteen.x) - 20.0).abs() < EPS);
}
