//! Strokes, eraser trails, and how an eraser cuts a stroke into fragments.

use vstd::prelude::*;
use crate::geometry::{is_hit, point_is_hit, Color, Point};

verus! {

/// Width of every stroke the pen draws, in logical pixels.
pub const STROKE_WIDTH: u32 = 3;

/// Radius of the eraser, in logical pixels.
pub const ERASER_RADIUS: u32 = 20;

/// What a stroke is: its colour, its width, and its points in drawing order.
pub struct PathModel {
    pub color: Color,
    pub stroke: u32,
    pub points: Seq<Point>,
}

/// What an eraser trail is: its radius and the sampled pointer positions.
pub struct EraserModel {
    pub radius: u32,
    pub points: Seq<Point>,
}

/// A run of unhit points survives only if it can still be drawn as a line.
pub open spec fn kept(run: Seq<Point>) -> Seq<Seq<Point>> {
    if run.len() >= 2 {
        seq![run]
    } else {
        Seq::empty()
    }
}

/// The surviving runs of `rest`, read front to back, when `pending` is the
/// unhit run already open in front of it. A hit point closes the open run.
pub open spec fn runs_from(
    pending: Seq<Point>,
    rest: Seq<Point>,
    trail: Seq<Point>,
    radius: u32,
) -> Seq<Seq<Point>>
    decreases rest.len(),
{
    if rest.len() == 0 {
        kept(pending)
    } else if is_hit(rest[0], trail, radius) {
        kept(pending) + runs_from(Seq::empty(), rest.skip(1), trail, radius)
    } else {
        runs_from(pending.push(rest[0]), rest.skip(1), trail, radius)
    }
}

/// The runs of `points` that survive an eraser, front to back: a run ends
/// where a point is hit, and a run of fewer than two points is dropped.
pub open spec fn surviving_runs(points: Seq<Point>, trail: Seq<Point>, radius: u32) -> Seq<
    Seq<Point>,
> {
    runs_from(Seq::empty(), points, trail, radius)
}

/// Whether the eraser touches any point of `points`.
pub open spec fn any_hit(points: Seq<Point>, trail: Seq<Point>, radius: u32) -> bool {
    exists|i: int| 0 <= i < points.len() && is_hit(#[trigger] points[i], trail, radius)
}

/// The stroke that carries `run` with the colour and width of `path`.
pub open spec fn fragment(path: PathModel, run: Seq<Point>) -> PathModel {
    PathModel { color: path.color, stroke: path.stroke, points: run }
}

/// The strokes that `runs` become when cut out of `path`.
pub open spec fn fragments(path: PathModel, runs: Seq<Seq<Point>>) -> Seq<PathModel> {
    Seq::new(runs.len(), |k: int| fragment(path, runs[k]))
}

/// What is left of `path` once the eraser has passed: the path itself when
/// no point was touched, else its surviving fragments.
pub open spec fn erase_path(path: PathModel, trail: Seq<Point>, radius: u32) -> Seq<PathModel> {
    if any_hit(path.points, trail, radius) {
        fragments(path, surviving_runs(path.points, trail, radius))
    } else {
        seq![path]
    }
}

/// What is left of every stroke of `paths`, in order, once the eraser has
/// passed over each of them.
pub open spec fn erase_all(paths: Seq<PathModel>, trail: Seq<Point>, radius: u32) -> Seq<PathModel>
    decreases paths.len(),
{
    if paths.len() == 0 {
        Seq::empty()
    } else {
        erase_all(paths.drop_last(), trail, radius) + erase_path(paths.last(), trail, radius)
    }
}

/// The models of a sequence of strokes.
pub open spec fn path_views(paths: Seq<CanvasPath>) -> Seq<PathModel> {
    Seq::new(paths.len(), |k: int| paths[k]@)
}

/// One eraser gesture: a radius and the pointer samples it passed through.
#[derive(Debug)]
pub struct CanvasEraser {
    radius: u32,
    trail: Vec<Point>,
}

impl View for CanvasEraser {
    type V = EraserModel;

    closed spec fn view(&self) -> EraserModel {
        EraserModel { radius: self.radius, points: self.trail@ }
    }
}

impl CanvasEraser {
    /// An eraser of the given radius that has not touched anything yet.
    pub fn new(radius: u32) -> (eraser: Self)
        ensures
            eraser@ == (EraserModel { radius, points: Seq::empty() }),
    {
        Self { radius, trail: Vec::new() }
    }

    /// Adds one pointer sample to the trail.
    pub fn draw(&mut self, pos: Point)
        ensures
            final(self)@ == (EraserModel {
                radius: old(self)@.radius,
                points: old(self)@.points.push(pos),
            }),
    {
        self.trail.push(pos);
    }

    pub fn radius(&self) -> (radius: u32)
        ensures
            radius == self@.radius,
    {
        self.radius
    }

    pub fn trail(&self) -> (trail: &Vec<Point>)
        ensures
            trail@ == self@.points,
    {
        &self.trail
    }
}

/// One pen stroke.
#[derive(Debug)]
pub struct CanvasPath {
    color: Color,
    stroke: u32,
    trail: Vec<Point>,
}

impl View for CanvasPath {
    type V = PathModel;

    closed spec fn view(&self) -> PathModel {
        PathModel { color: self.color, stroke: self.stroke, points: self.trail@ }
    }
}

fn copy_points(points: &Vec<Point>) -> (copy: Vec<Point>)
    ensures
        copy@ == points@,
{
    let mut copy: Vec<Point> = Vec::new();
    let mut i: usize = 0;
    while i < points.len()
        invariant
            i <= points.len(),
            copy@ == points@.take(i as int),
        decreases points.len() - i,
    {
        copy.push(points[i]);
        assert(points@.take(i + 1) =~= points@.take(i as int).push(points@[i as int]));
        i += 1;
    }
    assert(points@.take(points.len() as int) =~= points@);
    copy
}

impl Clone for CanvasEraser {
    fn clone(&self) -> (copy: Self)
        ensures
            copy@ == self@,
    {
        Self { radius: self.radius, trail: copy_points(&self.trail) }
    }
}

impl Clone for CanvasPath {
    fn clone(&self) -> (copy: Self)
        ensures
            copy@ == self@,
    {
        Self { color: self.color, stroke: self.stroke, trail: copy_points(&self.trail) }
    }
}

/// Appending one fragment to both sides keeps cut-out strokes and runs in step.
proof fn lemma_push_fragment(
    path: PathModel,
    paths: Seq<CanvasPath>,
    done: Seq<Seq<Point>>,
    piece: CanvasPath,
    run: Seq<Point>,
)
    requires
        path_views(paths) == fragments(path, done),
        piece@ == fragment(path, run),
    ensures
        path_views(paths.push(piece)) == fragments(path, done.push(run)),
{
    assert(path_views(paths).len() == paths.len());
    assert(fragments(path, done).len() == done.len());
    assert(paths.len() == done.len());
    assert forall|k: int| 0 <= k < paths.len() + 1 implies path_views(paths.push(piece))[k]
        == fragments(path, done.push(run))[k] by {
        assert(path_views(paths.push(piece))[k] == paths.push(piece)[k]@);
        assert(fragments(path, done.push(run))[k] == fragment(path, done.push(run)[k]));
        if k < paths.len() {
            assert(path_views(paths)[k] == paths[k]@);
            assert(fragments(path, done)[k] == fragment(path, done[k]));
        }
    }
    assert(path_views(paths.push(piece)) =~= fragments(path, done.push(run)));
}

impl CanvasPath {
    /// A stroke of the standard width in `color`, with no point yet.
    pub fn new(color: Color) -> (path: Self)
        ensures
            path@ == (PathModel { color, stroke: STROKE_WIDTH, points: Seq::empty() }),
    {
        Self { color, stroke: STROKE_WIDTH, trail: Vec::new() }
    }

    /// Extends the stroke by one point.
    pub fn draw(&mut self, pos: Point)
        ensures
            final(self)@ == (PathModel {
                color: old(self)@.color,
                stroke: old(self)@.stroke,
                points: old(self)@.points.push(pos),
            }),
    {
        self.trail.push(pos);
    }

    pub fn color(&self) -> (color: Color)
        ensures
            color == self@.color,
    {
        self.color
    }

    pub fn stroke(&self) -> (stroke: u32)
        ensures
            stroke == self@.stroke,
    {
        self.stroke
    }

    pub fn trail(&self) -> (trail: &Vec<Point>)
        ensures
            trail@ == self@.points,
    {
        &self.trail
    }

    /// Cuts the stroke along an eraser trail. `None` means that no point was
    /// touched and the stroke stands as it is; otherwise the result holds the
    /// surviving fragments in order, each with this stroke's colour and
    /// width, and may be empty.
    pub fn erase(&self, eraser_trail: &[Point], radius: u32) -> (res: Option<Vec<CanvasPath>>)
        ensures
            res is None <==> !any_hit(self@.points, eraser_trail@, radius),
            res matches Some(pieces) ==> path_views(pieces@) == fragments(
                self@,
                surviving_runs(self@.points, eraser_trail@, radius),
            ),
            res matches Some(pieces) ==> pieces@.len() == surviving_runs(
                self@.points,
                eraser_trail@,
                radius,
            ).len(),
    {
        let ghost points = self.trail@;
        let ghost trail = eraser_trail@;
        let ghost done: Seq<Seq<Point>> = Seq::empty();
        let mut new_paths: Vec<CanvasPath> = Vec::new();
        let mut current: Vec<Point> = Vec::new();
        let mut modified = false;
        let mut i: usize = 0;
        assert(points.skip(0) =~= points);
        assert(path_views(new_paths@) =~= fragments(self@, done));
        while i < self.trail.len()
            invariant
                points == self.trail@,
                trail == eraser_trail@,
                i <= points.len(),
                modified <==> any_hit(points.take(i as int), trail, radius),
                path_views(new_paths@) == fragments(self@, done),
                done + runs_from(current@, points.skip(i as int), trail, radius) == surviving_runs(
                    points,
                    trail,
                    radius,
                ),
            decreases points.len() - i,
        {
            let point = self.trail[i];
            let hit = point_is_hit(point, eraser_trail, radius);
            proof {
                let rest = points.skip(i as int);
                assert(rest[0] == point);
                assert(rest.skip(1) =~= points.skip(i + 1));
                let before = points.take(i as int);
                let after = points.take(i + 1);
                assert(after =~= before.push(point));
                if hit {
                    assert(after[i as int] == point);
                } else {
                    assert(any_hit(after, trail, radius) ==> any_hit(before, trail, radius)) by {
                        if any_hit(after, trail, radius) {
                            let k = choose|k: int|
                                0 <= k < after.len() && is_hit(#[trigger] after[k], trail, radius);
                            assert(k < i);
                            assert(before[k] == after[k]);
                        }
                    }
                    assert(any_hit(before, trail, radius) ==> any_hit(after, trail, radius)) by {
                        if any_hit(before, trail, radius) {
                            let k = choose|k: int|
                                0 <= k < before.len() && is_hit(
                                    #[trigger] before[k],
                                    trail,
                                    radius,
                                );
                            assert(after[k] == before[k]);
                        }
                    }
                }
            }
            if hit {
                modified = true;
                let ghost closed = current@;
                if current.len() >= 2 {
                    let piece = CanvasPath { color: self.color, stroke: self.stroke, trail: current };
                    proof {
                        lemma_push_fragment(self@, new_paths@, done, piece, closed);
                    }
                    new_paths.push(piece);
                    proof {
                        assert(done + kept(closed) =~= done.push(closed));
                    }
                } else {
                    assert(done + kept(closed) =~= done);
                }
                proof {
                    let tail = runs_from(Seq::empty(), points.skip(i + 1), trail, radius);
                    assert(done + (kept(closed) + tail) =~= (done + kept(closed)) + tail);
                    done = done + kept(closed);
                }
                current = Vec::new();
            } else {
                current.push(point);
            }
            i += 1;
        }
        assert(points.take(i as int) =~= points);
        if !modified {
            return None;
        }
        let ghost closed = current@;
        if current.len() >= 2 {
            let piece = CanvasPath { color: self.color, stroke: self.stroke, trail: current };
            proof {
                lemma_push_fragment(self@, new_paths@, done, piece, closed);
            }
            new_paths.push(piece);
            proof {
                assert(done + kept(closed) =~= done.push(closed));
            }
        } else {
            assert(done + kept(closed) =~= done);
        }
        Some(new_paths)
    }
}

/// The models of two joined sequences are the joined models.
proof fn lemma_path_views_add(a: Seq<CanvasPath>, b: Seq<CanvasPath>)
    ensures
        path_views(a + b) == path_views(a) + path_views(b),
{
    assert forall|k: int| 0 <= k < a.len() + b.len() implies path_views(a + b)[k] == (path_views(a)
        + path_views(b))[k] by {
        if k < a.len() {
            assert((a + b)[k] == a[k]);
        } else {
            assert((a + b)[k] == b[k - a.len()]);
        }
    }
    assert(path_views(a + b) =~= path_views(a) + path_views(b));
}

/// Passes an eraser over every stroke of `paths`: a stroke that it does not
/// touch stays as it is, a touched one gives way to its surviving fragments.
pub fn erase_paths(paths: &Vec<CanvasPath>, eraser_trail: &[Point], radius: u32) -> (next: Vec<
    CanvasPath,
>)
    ensures
        path_views(next@) == erase_all(path_views(paths@), eraser_trail@, radius),
        next@.len() == erase_all(path_views(paths@), eraser_trail@, radius).len(),
{
    let ghost models = path_views(paths@);
    let mut next: Vec<CanvasPath> = Vec::new();
    let mut j: usize = 0;
    assert(path_views(next@) =~= Seq::empty());
    while j < paths.len()
        invariant
            j <= paths.len(),
            models == path_views(paths@),
            path_views(next@) == erase_all(models.take(j as int), eraser_trail@, radius),
        decreases paths.len() - j,
    {
        let ghost before = next@;
        proof {
            assert(models.take(j + 1).drop_last() =~= models.take(j as int));
            assert(models.take(j + 1).last() == paths@[j as int]@);
        }
        match paths[j].erase(eraser_trail, radius) {
            Some(mut pieces) => {
                proof {
                    lemma_path_views_add(before, pieces@);
                }
                next.append(&mut pieces);
            },
            None => {
                let copy = paths[j].clone();
                proof {
                    lemma_path_views_add(before, seq![copy]);
                    assert(before + seq![copy] =~= before.push(copy));
                    assert(path_views(seq![copy]) =~= seq![paths@[j as int]@]);
                }
                next.push(copy);
            },
        }
        j += 1;
    }
    assert(models.take(paths.len() as int) =~= models);
    next
}

/// Whether the points from `a` up to, not including, `b` are a maximal run
/// of unhit points: none of them is hit, and the run cannot be extended at
/// either end.
pub open spec fn is_clear_run(
    points: Seq<Point>,
    trail: Seq<Point>,
    radius: u32,
    a: int,
    b: int,
) -> bool {
    &&& 0 <= a < b <= points.len()
    &&& forall|i: int| a <= i < b ==> !is_hit(#[trigger] points[i], trail, radius)
    &&& a == 0 || is_hit(points[a - 1], trail, radius)
    &&& b == points.len() || is_hit(points[b], trail, radius)
}

/// Whether `run` is cut out of `points` as a maximal run of at least two
/// unhit points that starts at `from` or later.
pub open spec fn is_long_run_from(
    points: Seq<Point>,
    trail: Seq<Point>,
    radius: u32,
    from: int,
    run: Seq<Point>,
) -> bool {
    exists|a: int, b: int|
        from <= a && a + 2 <= b && #[trigger] is_clear_run(points, trail, radius, a, b) && run
            == points.subrange(a, b)
}

/// The open run and what follows it are the tail of `points`, the open run
/// holds no hit point, and it starts where a maximal run starts.
spec fn splits(
    points: Seq<Point>,
    trail: Seq<Point>,
    radius: u32,
    pending: Seq<Point>,
    rest: Seq<Point>,
) -> bool {
    let start = points.len() - rest.len() - pending.len();
    &&& 0 <= start
    &&& pending == points.subrange(start, start + pending.len())
    &&& rest == points.skip(points.len() - rest.len())
    &&& forall|i: int| 0 <= i < pending.len() ==> !is_hit(#[trigger] pending[i], trail, radius)
    &&& start == 0 || is_hit(points[start - 1], trail, radius)
}

proof fn lemma_splits_step(
    points: Seq<Point>,
    trail: Seq<Point>,
    radius: u32,
    pending: Seq<Point>,
    rest: Seq<Point>,
)
    requires
        splits(points, trail, radius, pending, rest),
        rest.len() > 0,
    ensures
        rest[0] == points[points.len() - rest.len()],
        is_hit(rest[0], trail, radius) ==> splits(
            points,
            trail,
            radius,
            Seq::empty(),
            rest.skip(1),
        ),
        !is_hit(rest[0], trail, radius) ==> splits(
            points,
            trail,
            radius,
            pending.push(rest[0]),
            rest.skip(1),
        ),
{
    let here = points.len() - rest.len();
    let start = here - pending.len();
    assert(rest.skip(1) =~= points.skip(here + 1));
    if is_hit(rest[0], trail, radius) {
        assert(Seq::<Point>::empty() =~= points.subrange(here + 1, here + 1));
    } else {
        assert(pending.push(rest[0]) =~= points.subrange(start, here + 1));
        assert forall|i: int| 0 <= i < pending.len() + 1 implies !is_hit(
            #[trigger] pending.push(rest[0])[i],
            trail,
            radius,
        ) by {
            if i < pending.len() {
                assert(pending.push(rest[0])[i] == pending[i]);
            }
        }
    }
}

proof fn lemma_runs_sound(
    points: Seq<Point>,
    trail: Seq<Point>,
    radius: u32,
    pending: Seq<Point>,
    rest: Seq<Point>,
    k: int,
)
    requires
        splits(points, trail, radius, pending, rest),
        0 <= k < runs_from(pending, rest, trail, radius).len(),
    ensures
        is_long_run_from(
            points,
            trail,
            radius,
            points.len() - rest.len() - pending.len(),
            runs_from(pending, rest, trail, radius)[k],
        ),
    decreases rest.len(),
{
    let here = points.len() - rest.len();
    let start = here - pending.len();
    let open_run_closes = rest.len() == 0 || is_hit(rest[0], trail, radius);
    if rest.len() > 0 {
        lemma_splits_step(points, trail, radius, pending, rest);
    }
    if open_run_closes && k < kept(pending).len() {
        assert forall|i: int| start <= i < here implies !is_hit(
            #[trigger] points[i],
            trail,
            radius,
        ) by {
            assert(points[i] == pending[i - start]);
        }
        assert(is_clear_run(points, trail, radius, start, here));
    } else if rest.len() > 0 && is_hit(rest[0], trail, radius) {
        let j = k - kept(pending).len();
        lemma_runs_sound(points, trail, radius, Seq::empty(), rest.skip(1), j);
        let run = runs_from(Seq::empty(), rest.skip(1), trail, radius)[j];
        let (a, b) = choose|a: int, b: int|
            here + 1 <= a && a + 2 <= b && #[trigger] is_clear_run(points, trail, radius, a, b)
                && run == points.subrange(a, b);
        assert(start <= a && a + 2 <= b && is_clear_run(points, trail, radius, a, b));
    } else if rest.len() > 0 {
        lemma_runs_sound(points, trail, radius, pending.push(rest[0]), rest.skip(1), k);
    }
}

proof fn lemma_runs_complete(
    points: Seq<Point>,
    trail: Seq<Point>,
    radius: u32,
    pending: Seq<Point>,
    rest: Seq<Point>,
    a: int,
    b: int,
)
    requires
        splits(points, trail, radius, pending, rest),
        points.len() - rest.len() - pending.len() <= a,
        a + 2 <= b,
        is_clear_run(points, trail, radius, a, b),
    ensures
        runs_from(pending, rest, trail, radius).contains(points.subrange(a, b)),
    decreases rest.len(),
{
    let here = points.len() - rest.len();
    let start = here - pending.len();
    let runs = runs_from(pending, rest, trail, radius);
    let open_run_closes = rest.len() == 0 || is_hit(rest[0], trail, radius);
    if rest.len() > 0 {
        lemma_splits_step(points, trail, radius, pending, rest);
    }
    if a < here {
        assert(!is_hit(points[a], trail, radius));
        if a > start {
            assert(points[a - 1] == pending[a - 1 - start]);
        }
        assert(a == start);
    }
    if open_run_closes && a < here {
        if b < here {
            assert(points[b] == pending[b - start]);
        }
        if b > here {
            assert(!is_hit(points[here], trail, radius));
        }
        assert(b == here);
        assert(pending =~= points.subrange(a, b));
        assert(runs[0] == pending);
    } else if rest.len() > 0 && is_hit(rest[0], trail, radius) {
        if a == here {
            assert(!is_hit(points[a], trail, radius));
        }
        let tail = runs_from(Seq::empty(), rest.skip(1), trail, radius);
        lemma_runs_complete(points, trail, radius, Seq::empty(), rest.skip(1), a, b);
        let j = tail.index_of(points.subrange(a, b));
        assert(runs[kept(pending).len() + j] == tail[j]);
    } else if rest.len() > 0 {
        lemma_runs_complete(points, trail, radius, pending.push(rest[0]), rest.skip(1), a, b);
    }
}

/// Whether `first` and `second` are cut out of `points` as maximal runs of
/// at least two unhit points each, `first` starting at `from` or later and
/// ending before `second` starts.
pub open spec fn are_runs_in_order(
    points: Seq<Point>,
    trail: Seq<Point>,
    radius: u32,
    from: int,
    first: Seq<Point>,
    second: Seq<Point>,
) -> bool {
    exists|a: int, b: int|
        from <= a && a + 2 <= b && #[trigger] is_clear_run(points, trail, radius, a, b) && first
            == points.subrange(a, b) && is_long_run_from(points, trail, radius, b + 1, second)
}

proof fn lemma_runs_ordered(
    points: Seq<Point>,
    trail: Seq<Point>,
    radius: u32,
    pending: Seq<Point>,
    rest: Seq<Point>,
    k: int,
    l: int,
)
    requires
        splits(points, trail, radius, pending, rest),
        0 <= k < l < runs_from(pending, rest, trail, radius).len(),
    ensures
        are_runs_in_order(
            points,
            trail,
            radius,
            points.len() - rest.len() - pending.len(),
            runs_from(pending, rest, trail, radius)[k],
            runs_from(pending, rest, trail, radius)[l],
        ),
    decreases rest.len(),
{
    let here = points.len() - rest.len();
    let start = here - pending.len();
    let runs = runs_from(pending, rest, trail, radius);
    if rest.len() > 0 {
        lemma_splits_step(points, trail, radius, pending, rest);
        if is_hit(rest[0], trail, radius) {
            let tail = runs_from(Seq::empty(), rest.skip(1), trail, radius);
            let shift = kept(pending).len();
            if k < shift {
                lemma_runs_sound(points, trail, radius, pending, rest, k);
                lemma_runs_sound(points, trail, radius, Seq::empty(), rest.skip(1), l - shift);
                assert forall|i: int| start <= i < here implies !is_hit(
                    #[trigger] points[i],
                    trail,
                    radius,
                ) by {
                    assert(points[i] == pending[i - start]);
                }
                assert(is_clear_run(points, trail, radius, start, here));
                assert(runs[l] == tail[l - shift]);
            } else {
                lemma_runs_ordered(
                    points,
                    trail,
                    radius,
                    Seq::empty(),
                    rest.skip(1),
                    k - shift,
                    l - shift,
                );
                let first = tail[k - shift];
                let second = tail[l - shift];
                let (a, b) = choose|a: int, b: int|
                    here + 1 <= a && a + 2 <= b && #[trigger] is_clear_run(
                        points,
                        trail,
                        radius,
                        a,
                        b,
                    ) && first == points.subrange(a, b) && is_long_run_from(
                        points,
                        trail,
                        radius,
                        b + 1,
                        second,
                    );
                assert(start <= a && is_clear_run(points, trail, radius, a, b));
            }
        } else {
            lemma_runs_ordered(points, trail, radius, pending.push(rest[0]), rest.skip(1), k, l);
        }
    }
}

/// Every fragment that survives an eraser is a maximal run of at least two
/// consecutive points of the stroke, none of which the eraser has hit.
pub proof fn lemma_surviving_runs_are_clear(
    points: Seq<Point>,
    trail: Seq<Point>,
    radius: u32,
    k: int,
)
    requires
        0 <= k < surviving_runs(points, trail, radius).len(),
    ensures
        is_long_run_from(points, trail, radius, 0, surviving_runs(points, trail, radius)[k]),
{
    assert(Seq::<Point>::empty() =~= points.subrange(0, 0));
    assert(points =~= points.skip(0));
    lemma_runs_sound(points, trail, radius, Seq::empty(), points, k);
}

/// The fragments come in the order in which their runs stand in the stroke:
/// an earlier fragment ends before a later one starts.
pub proof fn lemma_surviving_runs_in_order(
    points: Seq<Point>,
    trail: Seq<Point>,
    radius: u32,
    k: int,
    l: int,
)
    requires
        0 <= k < l < surviving_runs(points, trail, radius).len(),
    ensures
        are_runs_in_order(
            points,
            trail,
            radius,
            0,
            surviving_runs(points, trail, radius)[k],
            surviving_runs(points, trail, radius)[l],
        ),
{
    assert(Seq::<Point>::empty() =~= points.subrange(0, 0));
    assert(points =~= points.skip(0));
    lemma_runs_ordered(points, trail, radius, Seq::empty(), points, k, l);
}

/// Every maximal run of at least two consecutive unhit points of the
/// stroke survives as a fragment.
pub proof fn lemma_clear_runs_survive(
    points: Seq<Point>,
    trail: Seq<Point>,
    radius: u32,
    a: int,
    b: int,
)
    requires
        a + 2 <= b,
        is_clear_run(points, trail, radius, a, b),
    ensures
        surviving_runs(points, trail, radius).contains(points.subrange(a, b)),
{
    assert(Seq::<Point>::empty() =~= points.subrange(0, 0));
    assert(points =~= points.skip(0));
    lemma_runs_complete(points, trail, radius, Seq::empty(), points, a, b);
}

/// An eraser leaves no stroke without points behind, if there was none.
pub proof fn lemma_erase_all_has_points(paths: Seq<PathModel>, trail: Seq<Point>, radius: u32)
    requires
        forall|k: int| 0 <= k < paths.len() ==> (#[trigger] paths[k]).points.len() > 0,
    ensures
        forall|k: int|
            0 <= k < erase_all(paths, trail, radius).len() ==> (#[trigger] erase_all(
                paths,
                trail,
                radius,
            )[k]).points.len() > 0,
    decreases paths.len(),
{
    if paths.len() > 0 {
        let before = erase_all(paths.drop_last(), trail, radius);
        let last = erase_path(paths.last(), trail, radius);
        assert forall|k: int| 0 <= k < paths.drop_last().len() implies (
        #[trigger] paths.drop_last()[k]).points.len() > 0 by {
            assert(paths.drop_last()[k] == paths[k]);
        }
        lemma_erase_all_has_points(paths.drop_last(), trail, radius);
        assert forall|k: int| 0 <= k < last.len() implies (#[trigger] last[k]).points.len()
            > 0 by {
            if any_hit(paths.last().points, trail, radius) {
                lemma_surviving_runs_are_clear(paths.last().points, trail, radius, k);
            } else {
                assert(last[k] == paths[paths.len() - 1]);
            }
        }
        assert forall|k: int| 0 <= k < (before + last).len() implies (#[trigger] (before
            + last)[k]).points.len() > 0 by {
            if k < before.len() {
                assert((before + last)[k] == before[k]);
            } else {
                assert((before + last)[k] == last[k - before.len()]);
            }
        }
    }
}

} // verus!
