//! The redraw pass and its semantics.
//!
//! [`redraw_plan`] walks a chart snapshot in row-major order and produces one
//! draw operation per cell: a synchronous placeholder fill for an empty cell,
//! an asynchronous image load (painting the loaded image into the cell's
//! square once it resolves) for an occupied one. The surrounding application
//! executes the plan against the real drawing surface; a plan never mutates
//! the chart.
//!
//! The effect of executing draw operations is modelled by [`apply_plan`]: a
//! surface state maps each painted square to what was painted there last,
//! taking every image load as eventually successful. On that model the
//! redraw pass is proved idempotent ([`lemma_redraw_idempotent`]).
//!
//! Because pending image loads of a superseded pass are never cancelled, a
//! pass is stamped with a generation number ([`RenderGen`]); a completion is
//! painted only when [`should_paint`] accepts its stamp, so a stale load
//! changes nothing ([`lemma_stale_completion_ignored`]).

use vstd::prelude::*;

use crate::chart::Chart;
use crate::layout::{
    cell_size, fits, layout_fits, lemma_cell_at_index, lemma_pos_prod_pos, lemma_row_step,
    lemma_total_cells_mono, lemma_x_step, lemma_y_num_bound, pos_prod, spec_rect, total_cells,
    y_num, Frac, Rect,
};

verus! {

/// One draw operation of a redraw pass.
#[derive(Clone, Debug, PartialEq, Eq)]
pub enum DrawCmd {
    /// Paint an opaque placeholder square.
    Fill { rect: Rect },
    /// Start loading `url`; paint the image into `rect` when it resolves.
    LoadImage { url: String, rect: Rect },
}

/// The draw operation owed to the cell at row `i`, column `j`.
pub open spec fn spec_cmd(chart: Chart, w: int, om: int, im: int, i: int, j: int) -> DrawCmd {
    let rect = spec_rect(chart.row_sizes@, w, om, im, i, j);
    match chart.spec_cell(i, j) {
        None => DrawCmd::Fill { rect },
        Some(album) => DrawCmd::LoadImage { url: album.cover_url, rect },
    }
}

/// A plan is exactly the row-major sequence of the draw operations owed to
/// the chart's cells: one per cell, at the cell's row-major index.
pub open spec fn plan_matches(chart: Chart, w: int, om: int, im: int, plan: Seq<DrawCmd>) -> bool {
    &&& plan.len() == total_cells(chart.row_sizes@, chart.row_sizes@.len() as int)
    &&& forall|i: int, j: int|
        0 <= i < chart.row_sizes@.len() && 0 <= j < chart.row_sizes@[i] as int ==> plan[total_cells(
            chart.row_sizes@,
            i,
        ) + j] == #[trigger] spec_cmd(chart, w, om, im, i, j)
}

/// Computes the full redraw pass over a chart snapshot: the exact square of
/// every cell and the draw operation owed to it, in row-major order.
#[verifier::loop_isolation(false)]
pub fn redraw_plan(chart: &Chart, w: u64, om: u64, im: u64) -> (plan: Vec<DrawCmd>)
    requires
        chart.wf(),
        fits(chart.row_sizes@, w as int, om as int, im as int),
    ensures
        plan_matches(*chart, w as int, om as int, im as int, plan@),
{
    let ghost sizes = chart.row_sizes@;
    let mut plan: Vec<DrawCmd> = Vec::new();
    let mut ynum: u128 = om as u128;
    let mut yden: u128 = 1;
    let mut i: usize = 0;
    while i < chart.row_sizes.len()
        invariant
            i <= sizes.len(),
            ynum as int == y_num(sizes, w as int, om as int, im as int, i as int),
            yden as int == pos_prod(sizes, i as int),
            plan@.len() == total_cells(sizes, i as int),
            forall|i2: int, j2: int|
                0 <= i2 < i && 0 <= j2 < sizes[i2] as int ==> plan@[total_cells(sizes, i2) + j2]
                    == #[trigger] spec_cmd(*chart, w as int, om as int, im as int, i2, j2),
        decreases sizes.len() - i,
    {
        let n = chart.row_sizes[i];
        if n >= 1 {
            proof {
                lemma_row_step(sizes, w as int, om as int, im as int, i as int);
                lemma_y_num_bound(sizes, w as int, om as int, im as int, i as int);
                lemma_pos_prod_pos(sizes, i as int);
            }
            let n128: u128 = n as u128;
            let side = cell_size(w, om, im, n);
            let un: u128 = side.num;
            let mut j: usize = 0;
            while j < n
                invariant
                    j <= n,
                    plan@.len() == total_cells(sizes, i as int) + j,
                    forall|i2: int, j2: int|
                        0 <= i2 < i && 0 <= j2 < sizes[i2] as int ==> plan@[total_cells(sizes, i2)
                            + j2] == #[trigger] spec_cmd(
                            *chart,
                            w as int,
                            om as int,
                            im as int,
                            i2,
                            j2,
                        ),
                    forall|j2: int|
                        0 <= j2 < j ==> plan@[total_cells(sizes, i as int) + j2] == #[trigger] spec_cmd(
                            *chart,
                            w as int,
                            om as int,
                            im as int,
                            i as int,
                            j2,
                        ),
                decreases n - j,
            {
                proof {
                    lemma_x_step(w as int, om as int, im as int, n as int, j as int);
                }
                let xnum: u128 = ((om as u128) + (j as u128) * (im as u128)) * n128 + (j as u128)
                    * un;
                let rect = Rect { x: Frac { num: xnum, den: n128 }, y: Frac { num: ynum, den: yden }, side };
                proof {
                    assert(rect == spec_rect(sizes, w as int, om as int, im as int, i as int, j as int));
                }
                let cmd = match &chart.rows[i][j] {
                    None => DrawCmd::Fill { rect },
                    Some(album) => DrawCmd::LoadImage { url: album.cover_url.clone(), rect },
                };
                plan.push(cmd);
                proof {
                    assert forall|i2: int, j2: int|
                        0 <= i2 < i && 0 <= j2 < sizes[i2] as int implies plan@[total_cells(
                        sizes,
                        i2,
                    ) + j2] == #[trigger] spec_cmd(
                        *chart,
                        w as int,
                        om as int,
                        im as int,
                        i2,
                        j2,
                    ) by {
                        assert(total_cells(sizes, i2 + 1) == total_cells(sizes, i2) + sizes[i2]);
                        lemma_total_cells_mono(sizes, 0, i2);
                        lemma_total_cells_mono(sizes, i2 + 1, i as int);
                    }
                }
                j += 1;
            }
            let newynum: u128 = ynum * n128 + ((im as u128) * n128 + un) * yden;
            let newyden: u128 = yden * n128;
            ynum = newynum;
            yden = newyden;
        } else {
            proof {
                assert(total_cells(sizes, i as int + 1) == total_cells(sizes, i as int));
                assert(y_num(sizes, w as int, om as int, im as int, i as int + 1) == y_num(
                    sizes,
                    w as int,
                    om as int,
                    im as int,
                    i as int,
                ));
                assert(pos_prod(sizes, i as int + 1) == pos_prod(sizes, i as int) * 1);
            }
        }
        i += 1;
    }
    plan
}

/// Computes the redraw pass when the chart is well shaped and its layout is
/// representable, and rejects it otherwise: `Some` exactly on charts whose
/// shape invariant holds and whose dimensions satisfy [`fits`].
pub fn try_redraw_plan(chart: &Chart, w: u64, om: u64, im: u64) -> (r: Option<Vec<DrawCmd>>)
    ensures
        r is Some <==> chart.wf() && fits(chart.row_sizes@, w as int, om as int, im as int),
        r matches Some(plan) ==> plan_matches(*chart, w as int, om as int, im as int, plan@),
{
    if chart.check_shape() && layout_fits(&chart.row_sizes, w, om, im) {
        Some(redraw_plan(chart, w, om, im))
    } else {
        None
    }
}

/// Law: the layout is deterministic. A chart and its surface dimensions
/// admit exactly one draw plan: any two sequences of draw operations that
/// match them are equal, operation for operation.
pub proof fn lemma_plan_unique(
    chart: Chart,
    w: int,
    om: int,
    im: int,
    p1: Seq<DrawCmd>,
    p2: Seq<DrawCmd>,
)
    requires
        plan_matches(chart, w, om, im, p1),
        plan_matches(chart, w, om, im, p2),
    ensures
        p1 == p2,
{
    let sizes = chart.row_sizes@;
    assert forall|k: int| 0 <= k < p1.len() implies p1[k] == p2[k] by {
        let (i, j) = lemma_cell_at_index(sizes, sizes.len() as int, k);
        assert(p1[k] == spec_cmd(chart, w, om, im, i, j));
        assert(p2[k] == spec_cmd(chart, w, om, im, i, j));
    }
    assert(p1 =~= p2);
}

/// The colour of the placeholder square painted into empty cells.
pub fn placeholder_color() -> (s: String)
    ensures
        s@ == "#333333"@,
{
    "#333333".to_string()
}

/// What a draw operation leaves in its square.
pub enum Paint {
    /// The opaque placeholder colour.
    Solid,
    /// The image loaded from `url`, scaled to fill the square.
    Picture { url: Seq<char> },
}

/// The square a draw operation targets.
pub open spec fn cmd_rect(cmd: DrawCmd) -> Rect {
    match cmd {
        DrawCmd::Fill { rect } => rect,
        DrawCmd::LoadImage { url, rect } => rect,
    }
}

/// What a draw operation paints, taking its image load (if any) as
/// eventually successful.
pub open spec fn cmd_paint(cmd: DrawCmd) -> Paint {
    match cmd {
        DrawCmd::Fill { rect } => Paint::Solid,
        DrawCmd::LoadImage { url, rect } => Paint::Picture { url: url@ },
    }
}

/// Surface state after one draw operation: its square now shows its paint.
/// Squares are never cleared, only overpainted.
pub open spec fn apply_cmd(vis: Map<Rect, Paint>, cmd: DrawCmd) -> Map<Rect, Paint> {
    vis.insert(cmd_rect(cmd), cmd_paint(cmd))
}

/// Surface state after a whole plan, applied in order.
pub open spec fn apply_plan(vis: Map<Rect, Paint>, plan: Seq<DrawCmd>) -> Map<Rect, Paint>
    decreases plan.len(),
{
    if plan.len() == 0 {
        vis
    } else {
        apply_cmd(apply_plan(vis, plan.drop_last()), plan.last())
    }
}

/// The paint of the last operation of `plan` that targets `r`, if any.
pub open spec fn last_paint(plan: Seq<DrawCmd>, r: Rect) -> Option<Paint>
    decreases plan.len(),
{
    if plan.len() == 0 {
        None
    } else if cmd_rect(plan.last()) == r {
        Some(cmd_paint(plan.last()))
    } else {
        last_paint(plan.drop_last(), r)
    }
}

/// After a plan runs, each square shows the last paint the plan put there;
/// squares the plan never touches keep their prior state.
pub proof fn lemma_apply_plan_lookup(vis: Map<Rect, Paint>, plan: Seq<DrawCmd>, r: Rect)
    ensures
        last_paint(plan, r) matches Some(p) ==> apply_plan(vis, plan).dom().contains(r)
            && apply_plan(vis, plan)[r] == p,
        last_paint(plan, r) is None ==> (apply_plan(vis, plan).dom().contains(r) <==> vis.dom().contains(r)),
        last_paint(plan, r) is None && vis.dom().contains(r) ==> apply_plan(vis, plan)[r] == vis[r],
    decreases plan.len(),
{
    if plan.len() > 0 {
        lemma_apply_plan_lookup(vis, plan.drop_last(), r);
    }
}

/// Law: a redraw pass is idempotent. Running the same plan twice in
/// succession leaves the surface exactly as running it once does, whatever
/// state the surface started in.
pub proof fn lemma_redraw_idempotent(vis: Map<Rect, Paint>, plan: Seq<DrawCmd>)
    ensures
        apply_plan(apply_plan(vis, plan), plan) == apply_plan(vis, plan),
{
    let once = apply_plan(vis, plan);
    let twice = apply_plan(once, plan);
    assert forall|r: Rect| #[trigger] twice.dom().contains(r) <==> once.dom().contains(r) by {
        lemma_apply_plan_lookup(vis, plan, r);
        lemma_apply_plan_lookup(once, plan, r);
    }
    assert forall|r: Rect| once.dom().contains(r) implies #[trigger] twice[r] == once[r] by {
        lemma_apply_plan_lookup(vis, plan, r);
        lemma_apply_plan_lookup(once, plan, r);
    }
    assert(twice =~= once);
}

/// Monotonic counter naming redraw passes. Pending image loads carry the
/// generation of the pass that issued them; completions from superseded
/// passes are discarded rather than painted.
pub struct RenderGen {
    pub current: u64,
}

impl RenderGen {
    /// A fresh counter; no pass has run yet.
    pub fn new() -> (g: RenderGen)
        ensures
            g.current == 0,
    {
        RenderGen { current: 0 }
    }

    /// Stamps the start of a new redraw pass and returns its generation;
    /// every earlier pass's pending loads are stale from here on.
    pub fn begin_pass(&mut self) -> (g: u64)
        requires
            old(self).current < u64::MAX,
        ensures
            final(self).current == old(self).current + 1,
            g == final(self).current,
    {
        self.current = self.current + 1;
        self.current
    }
}

/// Decides whether a completed image load may paint: only when the pass that
/// issued it is still the current one.
pub fn should_paint(load_gen: u64, current: u64) -> (b: bool)
    ensures
        b <==> load_gen == current,
{
    load_gen == current
}

/// Surface state after an image-load completion is processed under the
/// generation rule: it paints only when its stamp is current.
pub open spec fn apply_completion(
    vis: Map<Rect, Paint>,
    current: u64,
    load_gen: u64,
    rect: Rect,
    url: Seq<char>,
) -> Map<Rect, Paint> {
    if load_gen == current {
        vis.insert(rect, Paint::Picture { url })
    } else {
        vis
    }
}

/// Law: a stale image-load completion — one whose pass has been superseded,
/// as after a chart change that started a newer pass — leaves the surface
/// untouched; the final state is decided by the newest pass alone.
pub proof fn lemma_stale_completion_ignored(
    vis: Map<Rect, Paint>,
    current: u64,
    load_gen: u64,
    rect: Rect,
    url: Seq<char>,
)
    requires
        load_gen != current,
    ensures
        apply_completion(vis, current, load_gen, rect, url) == vis,
{
}

} // verus!
