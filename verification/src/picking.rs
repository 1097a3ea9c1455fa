//! The per-frame picking pipeline: each pointer's screen position is matched
//! to the first active camera serving its viewport, unprojected into world
//! space, and tested against every visible surface in declared order until a
//! blocking cell stops the scan.
//!
//! Every failure along the way (no matching camera, an unresolvable world
//! position, a singular surface transform, an out-of-bounds or invisible
//! cell) is a soft "no hit", never an error.
use vstd::prelude::*;

use crate::MAX_COORD;
use crate::SCALE;
use crate::grid::Point2;
use crate::grid::SurfaceGrid;
use crate::iso::local_to_grid_spec;
use crate::iso::round_div;
use crate::iso::world_to_local_spec;

verus! {

/// Largest magnitude, in micro-units, of an unprojected pointer world
/// coordinate; a pointer resolving further out is treated as unresolved.
pub const MAX_WORLD: i64 = 100_000_000_000_000;

/// The reference tuning drops the cursor this far in world y (half a
/// reference tile height down) before mapping it into the surfaces, so that
/// a hit lands on the cell the pointer visually covers.
pub const POINTER_NUDGE_Y: i64 = -4_000_000;

/// One pointer's state for the frame: its identity, the viewport it points
/// into, and its screen position in micro-pixels, absent when the pointer
/// has left every viewport.
#[derive(Clone, Copy, Debug)]
pub struct PointerState {
    pub id: u64,
    pub target: u64,
    pub position: Option<Point2>,
}

impl PointerState {
    /// A known position stays within the coordinate range.
    pub open spec fn wf(self) -> bool {
        match self.position {
            Some(p) => -MAX_COORD <= p.x <= MAX_COORD && -MAX_COORD <= p.y <= MAX_COORD,
            None => true,
        }
    }
}

/// One camera's state for the frame: identity, whether it is active, the
/// viewport it serves, its draw order, its world translation, orthographic
/// scale, near plane, and viewport size in micro-pixels.
#[derive(Clone, Copy, Debug, PartialEq, Eq, Structural)]
pub struct CameraState {
    pub id: u64,
    pub active: bool,
    pub target: u64,
    pub order: i64,
    pub position: Point2,
    pub scale: i64,
    pub near: i64,
    pub viewport: Point2,
}

impl CameraState {
    /// Bounds under which the unprojection arithmetic cannot overflow.
    pub open spec fn wf(self) -> bool {
        &&& -MAX_COORD <= self.position.x <= MAX_COORD
        &&& -MAX_COORD <= self.position.y <= MAX_COORD
        &&& -crate::MAX_LINEAR <= self.scale <= crate::MAX_LINEAR
        &&& -MAX_COORD <= self.near <= MAX_COORD
        &&& 0 <= self.viewport.x <= MAX_COORD
        &&& 0 <= self.viewport.y <= MAX_COORD
    }
}

/// One resolved hit: the cell's identifier, the camera and pointer that
/// produced it, and its depth, smaller meaning nearer.
#[derive(Clone, Copy, Debug, PartialEq, Eq, Structural)]
pub struct HitRecord {
    pub cell: u64,
    pub camera: u64,
    pub pointer: u64,
    pub depth: i64,
}

/// The frame's output for one pointer: the ordered hits it produced and the
/// draw order of the camera that served it, for downstream merging.
pub struct PointerHits {
    pub pointer: u64,
    pub order: i64,
    pub hits: Vec<HitRecord>,
}

/// The mathematical image of a [`PointerHits`] value.
pub struct PointerHitsView {
    pub pointer: u64,
    pub order: i64,
    pub hits: Seq<HitRecord>,
}

impl View for PointerHits {
    type V = PointerHitsView;

    open spec fn view(&self) -> PointerHitsView {
        PointerHitsView { pointer: self.pointer, order: self.order, hits: self.hits@ }
    }
}

/// The views of a whole output vector.
pub open spec fn views_of(s: Seq<PointerHits>) -> Seq<PointerHitsView> {
    s.map_values(|ph: PointerHits| ph@)
}

/// The first active camera, in declared order from position `i` on, that
/// serves viewport `target`.
pub open spec fn find_camera_from(cams: Seq<CameraState>, target: u64, i: int) -> Option<CameraState>
    decreases cams.len() - i,
{
    if i < 0 || i >= cams.len() {
        None
    } else if cams[i].active && cams[i].target == target {
        Some(cams[i])
    } else {
        find_camera_from(cams, target, i + 1)
    }
}

/// The first active camera in declared order that serves viewport `target`.
pub open spec fn find_camera_spec(cams: Seq<CameraState>, target: u64) -> Option<CameraState> {
    find_camera_from(cams, target, 0)
}

/// A pointer's screen position unprojected through an orthographic camera:
/// offset from the viewport center, scaled, y flipped from screen-down to
/// world-up, and translated by the camera. `None` when the world point falls
/// outside the pointer coordinate range.
pub open spec fn unproject_spec(cam: CameraState, pos: Point2) -> Option<(int, int)> {
    let dx = pos.x - cam.viewport.x / 2;
    let dy = cam.viewport.y / 2 - pos.y;
    let wx = cam.position.x + round_div(dx * cam.scale, SCALE as int);
    let wy = cam.position.y + round_div(dy * cam.scale, SCALE as int);
    if -MAX_WORLD <= wx <= MAX_WORLD && -MAX_WORLD <= wy <= MAX_WORLD {
        Some((wx, wy))
    } else {
        None
    }
}

/// Unprojects a pointer's screen position into world space through `cam`.
pub fn unproject(cam: &CameraState, pos: Point2) -> (r: Option<Point2>)
    requires
        cam.wf(),
        -MAX_COORD <= pos.x <= MAX_COORD,
        -MAX_COORD <= pos.y <= MAX_COORD,
    ensures
        r is Some <==> unproject_spec(*cam, pos) is Some,
        r is Some ==> (r->0.x as int, r->0.y as int) == unproject_spec(*cam, pos)->0,
{
    let hx: i64 = (cam.viewport.x as u64 / 2) as i64;
    let hy: i64 = (cam.viewport.y as u64 / 2) as i64;
    let dx: i128 = (pos.x as i128) - (hx as i128);
    let dy: i128 = (hy as i128) - (pos.y as i128);
    proof {
        crate::iso::lemma_mul_bound(dx as int, cam.scale as int, 2_000_000_000_000_000, 1_000_000_000_000);
        crate::iso::lemma_mul_bound(dy as int, cam.scale as int, 2_000_000_000_000_000, 1_000_000_000_000);
    }
    let nx: i128 = dx * (cam.scale as i128);
    let ny: i128 = dy * (cam.scale as i128);
    let wx: i128 = (cam.position.x as i128) + crate::iso::round_div_exec(nx, SCALE as i128);
    let wy: i128 = (cam.position.y as i128) + crate::iso::round_div_exec(ny, SCALE as i128);
    if -MAX_WORLD as i128 <= wx && wx <= MAX_WORLD as i128 && -MAX_WORLD as i128 <= wy && wy
        <= MAX_WORLD as i128 {
        Some(Point2 { x: wx as i64, y: wy as i64 })
    } else {
        None
    }
}

/// What one surface contributes for a pointer resolved at world position
/// `(wx, wy)`: `None` for an invisible surface, an unresolvable position, an
/// unoccupied or invisible cell; otherwise the hit record and whether the
/// cell blocks surfaces further away. The depth is `-near - tz`, smaller
/// meaning nearer.
pub open spec fn surface_hit(g: SurfaceGrid, wx: int, wy: int, cam: CameraState, pointer: u64) -> Option<(HitRecord, bool)> {
    if !g.visible {
        None
    } else {
        match world_to_local_spec(g, wx, wy) {
            None => None,
            Some(l) => match local_to_grid_spec(g, l.0, l.1) {
                None => None,
                Some(c) => match g.cell_at(c) {
                    None => None,
                    Some(cell) => if !cell.visible {
                        None
                    } else {
                        let depth = -(cam.near as int) - g.transform.tz as int;
                        Some(
                            (HitRecord { cell: cell.id, camera: cam.id, pointer, depth: depth as i64 },
                            cell.blocking),
                        )
                    },
                },
            },
        }
    }
}

/// The hits that the surfaces from position `i` on contribute, in declared
/// order, stopping after the first blocking hit.
pub open spec fn scan_surfaces(surfaces: Seq<SurfaceGrid>, i: int, wx: int, wy: int, cam: CameraState, pointer: u64) -> Seq<HitRecord>
    decreases surfaces.len() - i,
{
    if i < 0 || i >= surfaces.len() {
        Seq::empty()
    } else {
        match surface_hit(surfaces[i], wx, wy, cam, pointer) {
            None => scan_surfaces(surfaces, i + 1, wx, wy, cam, pointer),
            Some(hb) => if hb.1 {
                seq![hb.0]
            } else {
                seq![hb.0] + scan_surfaces(surfaces, i + 1, wx, wy, cam, pointer)
            },
        }
    }
}

/// What the frame emits for one pointer: nothing when the pointer has no
/// position, no active camera serves its viewport, or its position does not
/// unproject; otherwise the scan of all surfaces at the nudged world
/// position, under the serving camera's draw order.
pub open spec fn pointer_hits_spec(p: PointerState, cams: Seq<CameraState>, surfaces: Seq<SurfaceGrid>) -> Option<PointerHitsView> {
    match p.position {
        None => None,
        Some(pos) => match find_camera_spec(cams, p.target) {
            None => None,
            Some(cam) => match unproject_spec(cam, pos) {
                None => None,
                Some(w) => Some(
                    PointerHitsView {
                        pointer: p.id,
                        order: cam.order,
                        hits: scan_surfaces(surfaces, 0, w.0, w.1 + POINTER_NUDGE_Y, cam, p.id),
                    },
                ),
            },
        },
    }
}

/// The whole frame's output, one entry per pointer that resolved, in pointer
/// order, for the pointers from position `i` on.
pub open spec fn pick_from(pointers: Seq<PointerState>, i: int, cams: Seq<CameraState>, surfaces: Seq<SurfaceGrid>) -> Seq<PointerHitsView>
    decreases pointers.len() - i,
{
    if i < 0 || i >= pointers.len() {
        Seq::empty()
    } else {
        match pointer_hits_spec(pointers[i], cams, surfaces) {
            None => pick_from(pointers, i + 1, cams, surfaces),
            Some(v) => seq![v] + pick_from(pointers, i + 1, cams, surfaces),
        }
    }
}

/// The whole frame's output, one entry per pointer that resolved, in pointer
/// order.
pub open spec fn pick_spec(pointers: Seq<PointerState>, cams: Seq<CameraState>, surfaces: Seq<SurfaceGrid>) -> Seq<PointerHitsView> {
    pick_from(pointers, 0, cams, surfaces)
}

/// Tests one visible surface at the nudged world position and returns its
/// contribution for this pointer.
fn test_surface(g: &SurfaceGrid, w: Point2, cam: &CameraState, pointer: u64) -> (r: Option<(HitRecord, bool)>)
    requires
        g.wf(),
        cam.wf(),
        -MAX_WORLD <= w.x <= MAX_WORLD,
        -MAX_WORLD + POINTER_NUDGE_Y <= w.y <= MAX_WORLD,
    ensures
        r == surface_hit(*g, w.x as int, w.y as int, *cam, pointer),
{
    if !g.visible {
        return None;
    }
    let l = match g.world_to_local(w) {
        None => { return None; },
        Some(l) => l,
    };
    let c = match g.local_to_grid(l) {
        None => { return None; },
        Some(c) => c,
    };
    let cell = match g.get_cell(c) {
        None => { return None; },
        Some(cell) => cell,
    };
    if !cell.visible {
        return None;
    }
    let depth: i64 = -cam.near - g.transform.tz;
    Some((HitRecord { cell: cell.id, camera: cam.id, pointer, depth }, cell.blocking))
}

/// Finds the first active camera in declared order that serves `target`.
pub fn find_camera(cameras: &Vec<CameraState>, target: u64) -> (r: Option<CameraState>)
    ensures
        r == find_camera_spec(cameras@, target),
        r matches Some(c) ==> exists|k: int| 0 <= k < cameras@.len() && cameras@[k] == c,
{
    let n: usize = cameras.len();
    let mut i: usize = 0;
    while i < n
        invariant
            0 <= i <= n,
            n == cameras@.len(),
            find_camera_spec(cameras@, target) == find_camera_from(cameras@, target, i as int),
        decreases n - i,
    {
        let cam = cameras[i];
        if cam.active && cam.target == target {
            proof {
                assert(cameras@[i as int] == cam);
            }
            return Some(cam);
        }
        i = i + 1;
    }
    None
}

/// Runs one picking pass: for every pointer with a known position, resolves
/// the serving camera, unprojects, and scans the surfaces in declared order
/// until a blocking cell stops the scan. Emits one entry per pointer that
/// resolved, in pointer order.
pub fn pick(pointers: &Vec<PointerState>, cameras: &Vec<CameraState>, surfaces: &Vec<SurfaceGrid>) -> (out: Vec<PointerHits>)
    requires
        forall|i: int| 0 <= i < pointers@.len() ==> (#[trigger] pointers@[i]).wf(),
        forall|i: int| 0 <= i < cameras@.len() ==> (#[trigger] cameras@[i]).wf(),
        forall|i: int| 0 <= i < surfaces@.len() ==> (#[trigger] surfaces@[i]).wf(),
    ensures
        views_of(out@) == pick_spec(pointers@, cameras@, surfaces@),
{
    let np: usize = pointers.len();
    let mut out: Vec<PointerHits> = Vec::new();
    proof {
        assert(views_of(out@) + pick_from(pointers@, 0, cameras@, surfaces@) =~= pick_from(
            pointers@,
            0,
            cameras@,
            surfaces@,
        ));
    }
    let mut i: usize = 0;
    while i < np
        invariant
            0 <= i <= np,
            np == pointers@.len(),
            forall|k: int| 0 <= k < pointers@.len() ==> (#[trigger] pointers@[k]).wf(),
            forall|k: int| 0 <= k < cameras@.len() ==> (#[trigger] cameras@[k]).wf(),
            forall|k: int| 0 <= k < surfaces@.len() ==> (#[trigger] surfaces@[k]).wf(),
            views_of(out@) + pick_from(pointers@, i as int, cameras@, surfaces@) == pick_spec(pointers@, cameras@, surfaces@),
        decreases np - i,
    {
        let ghost out_before = out@;
        let p = pointers[i];
        if let Some(pos) = p.position {
            if let Some(cam) = find_camera(cameras, p.target) {
                proof {
                    let k = choose|k: int| 0 <= k < cameras@.len() && cameras@[k] == cam;
                    assert(cameras@[k].wf());
                }
                if let Some(w) = unproject(&cam, pos) {
                    let ghost cam_g = cam;
                    let wn = Point2 { x: w.x, y: w.y + POINTER_NUDGE_Y };
                    let ns: usize = surfaces.len();
                    let mut hits: Vec<HitRecord> = Vec::new();
                    let mut blocked = false;
                    let mut j: usize = 0;
                    while j < ns && !blocked
                        invariant
                            0 <= j <= ns,
                            ns == surfaces@.len(),
                            forall|k: int| 0 <= k < surfaces@.len() ==> (#[trigger] surfaces@[k]).wf(),
                            cam_g.wf(),
                            cam_g == cam,
                            -MAX_WORLD <= wn.x <= MAX_WORLD,
                            -MAX_WORLD + POINTER_NUDGE_Y <= wn.y <= MAX_WORLD,
                            hits@ + (if blocked {
                                Seq::<HitRecord>::empty()
                            } else {
                                scan_surfaces(surfaces@, j as int, wn.x as int, wn.y as int, cam_g, p.id)
                            }) == scan_surfaces(surfaces@, 0, wn.x as int, wn.y as int, cam_g, p.id),
                        decreases ns - j,
                    {
                        match test_surface(&surfaces[j], wn, &cam, p.id) {
                            None => {},
                            Some((h, b)) => {
                                proof {
                                    assert(hits@.push(h) =~= hits@ + seq![h]);
                                    if b {
                                        assert(hits@.push(h) + Seq::<HitRecord>::empty() =~= hits@.push(h));
                                    } else {
                                        assert(hits@.push(h) + scan_surfaces(
                                            surfaces@,
                                            j + 1,
                                            wn.x as int,
                                            wn.y as int,
                                            cam_g,
                                            p.id,
                                        ) =~= hits@ + (seq![h] + scan_surfaces(
                                            surfaces@,
                                            j + 1,
                                            wn.x as int,
                                            wn.y as int,
                                            cam_g,
                                            p.id,
                                        )));
                                    }
                                }
                                hits.push(h);
                                blocked = b;
                            },
                        }
                        j = j + 1;
                    }
                    proof {
                        assert(hits@ + Seq::<HitRecord>::empty() =~= hits@);
                    }
                    let ph = PointerHits { pointer: p.id, order: cam.order, hits };
                    proof {
                        let v = pointer_hits_spec(pointers@[i as int], cameras@, surfaces@)->0;
                        assert(ph@ == v);
                        assert(views_of(out_before.push(ph)) =~= views_of(out_before).push(ph@));
                        assert(views_of(out_before).push(v) + pick_from(
                            pointers@,
                            i + 1,
                            cameras@,
                            surfaces@,
                        ) =~= views_of(out_before) + (seq![v] + pick_from(
                            pointers@,
                            i + 1,
                            cameras@,
                            surfaces@,
                        )));
                    }
                    out.push(ph);
                }
            }
        }
        i = i + 1;
    }
    proof {
        assert(views_of(out@) + Seq::<PointerHitsView>::empty() =~= views_of(out@));
    }
    out
}

/// Occlusion blocking: with two stacked surfaces that both resolve the same
/// pointer position, a blocking hit on the first (nearer) surface leaves
/// exactly that one record, and a non-blocking first hit leaves both, the
/// nearer first.
pub proof fn lemma_occlusion_blocking(surfaces: Seq<SurfaceGrid>, wx: int, wy: int, cam: CameraState, pointer: u64, h0: HitRecord, b0: bool, h1: HitRecord, b1: bool)
    requires
        surfaces.len() == 2,
        surface_hit(surfaces[0], wx, wy, cam, pointer) == Some((h0, b0)),
        surface_hit(surfaces[1], wx, wy, cam, pointer) == Some((h1, b1)),
    ensures
        b0 ==> scan_surfaces(surfaces, 0, wx, wy, cam, pointer) == seq![h0],
        !b0 ==> scan_surfaces(surfaces, 0, wx, wy, cam, pointer) == seq![h0, h1],
{
    assert(scan_surfaces(surfaces, 2, wx, wy, cam, pointer) == Seq::<HitRecord>::empty());
    if !b0 {
        if b1 {
            assert(scan_surfaces(surfaces, 1, wx, wy, cam, pointer) == seq![h1]);
        } else {
            assert(seq![h1] + Seq::<HitRecord>::empty() =~= seq![h1]);
            assert(scan_surfaces(surfaces, 1, wx, wy, cam, pointer) == seq![h1]);
        }
        assert(seq![h0] + seq![h1] =~= seq![h0, h1]);
    }
}

/// A pointer whose target viewport no active camera serves contributes no
/// hits to the frame, and raises no error: a frame with only that pointer
/// emits nothing.
pub proof fn lemma_no_camera_no_hits(p: PointerState, cams: Seq<CameraState>, surfaces: Seq<SurfaceGrid>)
    requires
        forall|i: int| 0 <= i < cams.len() ==> !((#[trigger] cams[i]).active && cams[i].target == p.target),
    ensures
        pointer_hits_spec(p, cams, surfaces) is None,
        pick_spec(seq![p], cams, surfaces) == Seq::<PointerHitsView>::empty(),
{
    lemma_find_camera_none(cams, p.target, 0);
    assert(seq![p][0] == p);
    assert(pick_from(seq![p], 1, cams, surfaces) == Seq::<PointerHitsView>::empty());
    assert(pick_from(seq![p], 0, cams, surfaces) == pick_from(seq![p], 1, cams, surfaces));
}

proof fn lemma_find_camera_none(cams: Seq<CameraState>, target: u64, i: int)
    requires
        forall|k: int| 0 <= k < cams.len() ==> !((#[trigger] cams[k]).active && cams[k].target == target),
        0 <= i,
    ensures
        find_camera_from(cams, target, i) is None,
    decreases cams.len() - i,
{
    if i < cams.len() {
        lemma_find_camera_none(cams, target, i + 1);
    }
}

} // verus!
