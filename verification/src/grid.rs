use crate::state::{Cell, Coordinate, FireError, VegetationState};
use vstd::prelude::*;

verus! {

/// Does (x, y) lie inside a w-by-h extent?
pub open spec fn in_extent(x: int, y: int, w: int, h: int) -> bool {
    0 <= x < w && 0 <= y < h
}

/// Row-major index of (x, y) on a grid of width w.
pub open spec fn index_of(x: int, y: int, w: int) -> int {
    y * w + x
}

/// One clipped candidate of the Moore neighborhood: the singleton (x, y) when
/// it lies inside the extent, else the empty sequence.
pub open spec fn clipped(x: int, y: int, w: int, h: int) -> Seq<Coordinate> {
    if in_extent(x, y, w, h) {
        seq![Coordinate { x: x as i32, y: y as i32 }]
    } else {
        Seq::<Coordinate>::empty()
    }
}

/// The Moore neighborhood of (x, y) clipped at the boundary, in the fixed
/// order N, NE, E, SE, S, SW, W, NW (north is towards larger y). Coordinates
/// outside the extent are omitted; there is no wraparound.
pub open spec fn neighbors_spec(x: int, y: int, w: int, h: int) -> Seq<Coordinate> {
    clipped(x, y + 1, w, h) + clipped(x + 1, y + 1, w, h) + clipped(x + 1, y, w, h) + clipped(
        x + 1,
        y - 1,
        w,
        h,
    ) + clipped(x, y - 1, w, h) + clipped(x - 1, y - 1, w, h) + clipped(x - 1, y, w, h) + clipped(
        x - 1,
        y + 1,
        w,
        h,
    )
}

/// A rectangular grid of cells holding two generations: the committed one,
/// which readers and neighbor lookups see, and a staging one, written during
/// a tick and invisible until the generations are swapped.
pub struct Grid {
    width: i32,
    height: i32,
    committed: Vec<VegetationState>,
    staging: Vec<VegetationState>,
}

impl Grid {
    pub closed spec fn spec_width(self) -> int {
        self.width as int
    }

    pub closed spec fn spec_height(self) -> int {
        self.height as int
    }

    /// The number of cells in the extent.
    pub open spec fn area(self) -> int {
        self.spec_width() * self.spec_height()
    }

    /// The committed generation, row major: index `y * width + x` holds the
    /// state of coordinate (x, y).
    pub closed spec fn committed_gen(self) -> Seq<VegetationState> {
        self.committed@
    }

    /// The staging generation being filled for the next swap.
    pub closed spec fn staging_gen(self) -> Seq<VegetationState> {
        self.staging@
    }

    /// Both dimensions are positive machine integers and both generations
    /// cover the extent exactly once.
    pub open spec fn wf(self) -> bool {
        1 <= self.spec_width() <= i32::MAX && 1 <= self.spec_height() <= i32::MAX
            && self.committed_gen().len() == self.area() && self.staging_gen().len() == self.area()
    }

    pub open spec fn spec_in_bounds(self, c: Coordinate) -> bool {
        in_extent(c.x as int, c.y as int, self.spec_width(), self.spec_height())
    }

    /// The committed state at coordinate c.
    pub open spec fn spec_state_at(self, c: Coordinate) -> VegetationState {
        self.committed_gen()[index_of(c.x as int, c.y as int, self.spec_width())]
    }

    pub fn width(&self) -> (w: i32)
        ensures
            w == self.spec_width(),
    {
        self.width
    }

    pub fn height(&self) -> (h: i32)
        ensures
            h == self.spec_height(),
    {
        self.height
    }

    /// Builds a grid whose committed generation is `init`, read row major.
    /// Fails with `InvalidConfiguration` exactly when a dimension is not
    /// positive or `init` does not cover the extent exactly once.
    pub fn new(width: i32, height: i32, init: Vec<VegetationState>) -> (r: Result<Grid, FireError>)
        ensures
            r is Ok <==> (1 <= width && 1 <= height && init@.len() == width * height),
            r is Ok ==> r->Ok_0.wf() && r->Ok_0.spec_width() == width && r->Ok_0.spec_height()
                == height && r->Ok_0.committed_gen() == init@,
            r is Err ==> r->Err_0 == FireError::InvalidConfiguration,
    {
        if width < 1 || height < 1 {
            return Err(FireError::InvalidConfiguration);
        }
        let w = width as usize;
        let h = height as usize;
        let given: usize = init.len();
        match w.checked_mul(h) {
            None => {
                proof {
                    assert(given < w * h);
                }
                Err(FireError::InvalidConfiguration)
            },
            Some(cells) => {
                if init.len() != cells {
                    Err(FireError::InvalidConfiguration)
                } else {
                    let mut staging: Vec<VegetationState> = Vec::new();
                    let mut i: usize = 0;
                    while i < cells
                        invariant
                            i <= cells,
                            staging@.len() == i,
                        decreases cells - i,
                    {
                        staging.push(VegetationState::Empty);
                        i = i + 1;
                    }
                    Ok(Grid { width, height, committed: init, staging })
                }
            },
        }
    }

    /// The committed state at `c`; fails with `OutOfBounds` exactly when `c`
    /// lies outside the extent.
    pub fn get(&self, c: Coordinate) -> (r: Result<VegetationState, FireError>)
        requires
            self.wf(),
        ensures
            r is Ok <==> self.spec_in_bounds(c),
            r is Ok ==> r->Ok_0 == self.spec_state_at(c),
            r is Err ==> r->Err_0 == FireError::OutOfBounds,
    {
        if 0 <= c.x && c.x < self.width && 0 <= c.y && c.y < self.height {
            let cells: usize = self.committed.len();
            proof {
                lemma_index_in_area(c.x as int, c.y as int, self.spec_width(), self.spec_height());
                assert(self.area() == cells);
            }
            let idx: usize = (c.y as usize) * (self.width as usize) + (c.x as usize);
            Ok(self.committed[idx])
        } else {
            Err(FireError::OutOfBounds)
        }
    }

    /// The cell at `c`: its committed state together with its coordinate.
    /// Fails with `OutOfBounds` exactly when `c` lies outside the extent.
    pub fn cell_at(&self, c: Coordinate) -> (r: Result<Cell, FireError>)
        requires
            self.wf(),
        ensures
            r is Ok <==> self.spec_in_bounds(c),
            r is Ok ==> r->Ok_0 == (Cell { state: self.spec_state_at(c), coordinate: c }),
            r is Err ==> r->Err_0 == FireError::OutOfBounds,
    {
        match self.get(c) {
            Ok(state) => Ok(Cell { state, coordinate: c }),
            Err(e) => Err(e),
        }
    }

    /// The committed state at a coordinate known to be in bounds.
    pub(crate) fn state_at(&self, c: Coordinate) -> (s: VegetationState)
        requires
            self.wf(),
            self.spec_in_bounds(c),
        ensures
            s == self.spec_state_at(c),
    {
        let cells: usize = self.committed.len();
        proof {
            lemma_index_in_area(c.x as int, c.y as int, self.spec_width(), self.spec_height());
            assert(self.area() == cells);
        }
        let idx: usize = (c.y as usize) * (self.width as usize) + (c.x as usize);
        self.committed[idx]
    }

    /// Appends the candidate (x, y) when it lies inside the extent.
    fn maybe_push(&self, v: &mut Vec<Coordinate>, x: i64, y: i64)
        ensures
            final(v)@ == old(v)@ + clipped(x as int, y as int, self.spec_width(), self.spec_height()),
    {
        if 0 <= x && x < self.width as i64 && 0 <= y && y < self.height as i64 {
            v.push(Coordinate { x: x as i32, y: y as i32 });
            proof {
                assert(v@ =~= old(v)@ + clipped(
                    x as int,
                    y as int,
                    self.spec_width(),
                    self.spec_height(),
                ));
            }
        } else {
            proof {
                assert(v@ =~= old(v)@ + clipped(
                    x as int,
                    y as int,
                    self.spec_width(),
                    self.spec_height(),
                ));
            }
        }
    }

    /// The up-to-8 Moore neighbors of `c`, clipped at the boundary, in the
    /// fixed order N, NE, E, SE, S, SW, W, NW.
    pub fn neighbors(&self, c: Coordinate) -> (r: Vec<Coordinate>)
        ensures
            r@ == neighbors_spec(c.x as int, c.y as int, self.spec_width(), self.spec_height()),
            forall|i: int| 0 <= i < r@.len() ==> self.spec_in_bounds(#[trigger] r@[i]),
    {
        let cx = c.x as i64;
        let cy = c.y as i64;
        let mut v: Vec<Coordinate> = Vec::new();
        self.maybe_push(&mut v, cx, cy + 1);
        self.maybe_push(&mut v, cx + 1, cy + 1);
        self.maybe_push(&mut v, cx + 1, cy);
        self.maybe_push(&mut v, cx + 1, cy - 1);
        self.maybe_push(&mut v, cx, cy - 1);
        self.maybe_push(&mut v, cx - 1, cy - 1);
        self.maybe_push(&mut v, cx - 1, cy);
        self.maybe_push(&mut v, cx - 1, cy + 1);
        proof {
            assert(v@ =~= neighbors_spec(
                c.x as int,
                c.y as int,
                self.spec_width(),
                self.spec_height(),
            ));
            lemma_neighbors_in_extent(c.x as int, c.y as int, self.spec_width(), self.spec_height());
        }
        v
    }

    /// Stages `s` for coordinate `c` in the not-yet-visible generation. The
    /// committed generation — and with it every `get` and neighbor read of
    /// this tick — is untouched; a second write to the same coordinate within
    /// one tick simply overwrites the staged value.
    pub fn commit_next(&mut self, c: Coordinate, s: VegetationState)
        requires
            old(self).wf(),
            old(self).spec_in_bounds(c),
        ensures
            final(self).wf(),
            final(self).spec_width() == old(self).spec_width(),
            final(self).spec_height() == old(self).spec_height(),
            final(self).committed_gen() == old(self).committed_gen(),
            final(self).staging_gen() == old(self).staging_gen().update(
                index_of(c.x as int, c.y as int, old(self).spec_width()),
                s,
            ),
    {
        let cells: usize = self.staging.len();
        proof {
            lemma_index_in_area(c.x as int, c.y as int, self.spec_width(), self.spec_height());
            assert(old(self).area() == cells);
        }
        let idx: usize = (c.y as usize) * (self.width as usize) + (c.x as usize);
        self.staging.set(idx, s);
    }

    /// Atomically makes the staged generation the committed one; the prior
    /// committed generation becomes the staging buffer for the next tick
    /// (a buffer-role swap, no copy).
    pub fn swap_generations(&mut self)
        requires
            old(self).wf(),
        ensures
            final(self).wf(),
            final(self).spec_width() == old(self).spec_width(),
            final(self).spec_height() == old(self).spec_height(),
            final(self).committed_gen() == old(self).staging_gen(),
            final(self).staging_gen() == old(self).committed_gen(),
    {
        core::mem::swap(&mut self.committed, &mut self.staging);
    }
}

/// An in-extent coordinate's row-major index lies inside the area.
pub proof fn lemma_index_in_area(x: int, y: int, w: int, h: int)
    requires
        in_extent(x, y, w, h),
    ensures
        0 <= index_of(x, y, w) < w * h,
{
    assert(0 <= y * w + x < w * h) by (nonlinear_arith)
        requires
            0 <= x < w,
            0 <= y < h,
    ;
}

/// Every coordinate of the clipped Moore neighborhood lies inside the extent.
pub proof fn lemma_neighbors_in_extent(x: int, y: int, w: int, h: int)
    requires
        w <= i32::MAX,
        h <= i32::MAX,
    ensures
        forall|i: int|
            0 <= i < neighbors_spec(x, y, w, h).len() ==> in_extent(
                (#[trigger] neighbors_spec(x, y, w, h)[i]).x as int,
                neighbors_spec(x, y, w, h)[i].y as int,
                w,
                h,
            ),
{
    assert forall|i: int| 0 <= i < neighbors_spec(x, y, w, h).len() implies in_extent(
        (#[trigger] neighbors_spec(x, y, w, h)[i]).x as int,
        neighbors_spec(x, y, w, h)[i].y as int,
        w,
        h,
    ) by {
        lemma_clipped_in_extent(x, y + 1, w, h);
        lemma_clipped_in_extent(x + 1, y + 1, w, h);
        lemma_clipped_in_extent(x + 1, y, w, h);
        lemma_clipped_in_extent(x + 1, y - 1, w, h);
        lemma_clipped_in_extent(x, y - 1, w, h);
        lemma_clipped_in_extent(x - 1, y - 1, w, h);
        lemma_clipped_in_extent(x - 1, y, w, h);
        lemma_clipped_in_extent(x - 1, y + 1, w, h);
    }
}

/// A clipped candidate, when present, lies inside the extent.
proof fn lemma_clipped_in_extent(x: int, y: int, w: int, h: int)
    requires
        w <= i32::MAX,
        h <= i32::MAX,
    ensures
        forall|i: int|
            0 <= i < clipped(x, y, w, h).len() ==> in_extent(
                (#[trigger] clipped(x, y, w, h)[i]).x as int,
                clipped(x, y, w, h)[i].y as int,
                w,
                h,
            ),
{
}

/// Boundary clipping at the origin corner: on a grid of at least 2 x 2, the
/// corner (0, 0) has exactly the three neighbors (0, 1), (1, 1), (1, 0), all
/// inside the extent.
pub proof fn lemma_corner_clipping(w: int, h: int)
    requires
        2 <= w <= i32::MAX,
        2 <= h <= i32::MAX,
    ensures
        neighbors_spec(0, 0, w, h).len() == 3,
        neighbors_spec(0, 0, w, h) == seq![
            (Coordinate { x: 0, y: 1 }),
            (Coordinate { x: 1, y: 1 }),
            (Coordinate { x: 1, y: 0 }),
        ],
        forall|i: int|
            0 <= i < neighbors_spec(0, 0, w, h).len() ==> in_extent(
                (#[trigger] neighbors_spec(0, 0, w, h)[i]).x as int,
                neighbors_spec(0, 0, w, h)[i].y as int,
                w,
                h,
            ),
{
    assert(neighbors_spec(0, 0, w, h) =~= seq![
        Coordinate { x: 0, y: 1 },
        Coordinate { x: 1, y: 1 },
        Coordinate { x: 1, y: 0 },
    ]);
    lemma_neighbors_in_extent(0, 0, w, h);
}

/// Generation isolation: two staged writes of one tick land at distinct
/// indices of the staging buffer and read nothing, so the order in which two
/// cells are processed cannot change the staged generation.
pub proof fn lemma_staging_order_immaterial(
    s: Seq<VegetationState>,
    i: int,
    j: int,
    a: VegetationState,
    b: VegetationState,
)
    requires
        0 <= i < s.len(),
        0 <= j < s.len(),
        i != j,
    ensures
        s.update(i, a).update(j, b) == s.update(j, b).update(i, a),
{
    assert(s.update(i, a).update(j, b) =~= s.update(j, b).update(i, a));
}

} // verus!
