//! The grid of plot windows and the order in which readings fill it.
use vstd::prelude::*;

verus! {

/// Sensors in one physical span; readings come in runs of this length.
pub const RUN_LEN: usize = 5;

/// Rows of the window grid.
pub const ROWS: usize = 3;

/// Readings in one block: one run for each row of the grid.
pub const BLOCK_LEN: usize = 15;

/// The window that reading `i` of a frame is drawn into, as the running
/// cursor computes it: start at 0; before reading `i > 0`, go back by
/// `10 * span_count` when `i` starts a block of 15, else forward by
/// `5 * (span_count - 1)` when `i` starts a run of 5; after each reading,
/// step forward by one.
pub open spec fn window_at(span_count: int, i: int) -> int
    decreases i,
{
    if i <= 0 {
        0
    } else {
        let prev = window_at(span_count, i - 1) + 1;
        if i % 15 == 0 {
            prev - 10 * span_count
        } else if i % 5 == 0 {
            prev + 5 * (span_count - 1)
        } else {
            prev
        }
    }
}

/// The same window in closed form: run `(i % 15) / 5` picks the grid row,
/// block `i / 15` picks a group of five columns, and `i % 5` the column in it.
pub open spec fn tile_of(span_count: int, i: int) -> int {
    let j = i % 15;
    (j / 5) * (5 * span_count) + 5 * (i / 15) + j % 5
}

proof fn lemma_tile_step(s: int, i: int)
    requires
        i > 0,
    ensures
        tile_of(s, i) == if i % 15 == 0 {
            tile_of(s, i - 1) + 1 - 10 * s
        } else if i % 5 == 0 {
            tile_of(s, i - 1) + 1 + 5 * (s - 1)
        } else {
            tile_of(s, i - 1) + 1
        },
{
    let q = i / 15;
    let j = i % 15;
    let k = (i - 1) % 15;
    assert(i == 15 * q + j);
    if j == 0 {
        assert((i - 1) / 15 == q - 1);
        assert(k == 14);
    } else {
        assert((i - 1) / 15 == q);
        assert(k == j - 1);
    }
    lemma_row_offset(s, j / 5);
    lemma_row_offset(s, k / 5);
}

proof fn lemma_row_offset(s: int, r: int)
    requires
        0 <= r < 3,
    ensures
        r * (5 * s) == if r == 0 {
            0
        } else if r == 1 {
            5 * s
        } else {
            10 * s
        },
{
}

/// The cursor recurrence and the closed form agree on every reading index.
pub proof fn lemma_window_closed_form(s: int, i: int)
    requires
        i >= 0,
    ensures
        window_at(s, i) == tile_of(s, i),
    decreases i,
{
    if i > 0 {
        lemma_window_closed_form(s, i - 1);
        lemma_tile_step(s, i);
    } else {
        lemma_row_offset(s, 0);
    }
}

/// Over one frame of `15 * s` readings every window lies in `[0, 15 * s)`.
pub proof fn lemma_window_in_range(s: int, i: int)
    requires
        s >= 1,
        0 <= i < 15 * s,
    ensures
        0 <= window_at(s, i) < 15 * s,
{
    lemma_window_closed_form(s, i);
    let q = i / 15;
    let j = i % 15;
    let r = j / 5;
    let p = j % 5;
    assert(q < s) by (nonlinear_arith)
        requires
            q == i / 15,
            i < 15 * s,
            i >= 0,
    ;
    assert(0 <= r < 3);
    assert(0 <= r * (5 * s) <= 2 * (5 * s)) by (nonlinear_arith)
        requires
            0 <= r < 3,
            s >= 1,
    ;
}

/// Over one frame of `15 * s` readings no two readings share a window.
pub proof fn lemma_window_injective(s: int, i: int, k: int)
    requires
        s >= 1,
        0 <= i < 15 * s,
        0 <= k < 15 * s,
        window_at(s, i) == window_at(s, k),
    ensures
        i == k,
{
    lemma_window_closed_form(s, i);
    lemma_window_closed_form(s, k);
    let (qi, ri, pi) = (i / 15, (i % 15) / 5, (i % 15) % 5);
    let (qk, rk, pk) = (k / 15, (k % 15) / 5, (k % 15) % 5);
    assert(qi < s && qk < s) by (nonlinear_arith)
        requires
            qi == i / 15,
            qk == k / 15,
            i < 15 * s,
            k < 15 * s,
            i >= 0,
            k >= 0,
    ;
    let mi = 5 * qi + pi;
    let mk = 5 * qk + pk;
    assert(0 <= mi < 5 * s && 0 <= mk < 5 * s);
    assert(ri * (5 * s) + mi == rk * (5 * s) + mk);
    if ri < rk {
        assert(ri * (5 * s) + 5 * s <= rk * (5 * s)) by (nonlinear_arith)
            requires
                ri < rk,
                s >= 1,
        ;
    } else if rk < ri {
        assert(rk * (5 * s) + 5 * s <= ri * (5 * s)) by (nonlinear_arith)
            requires
                rk < ri,
                s >= 1,
        ;
    }
    assert(ri == rk);
    assert(mi == mk);
    assert(qi == qk && pi == pk);
}

/// Why a grid cannot be laid out for a given number of sensors.
#[derive(Clone, Copy, Debug, PartialEq, Eq, Structural)]
pub enum LayoutError {
    /// There are no sensors at all.
    NoSensors,
    /// The sensor count is not a whole number of blocks of 15.
    PartialSpan,
}

/// A grid of `ROWS` rows and `point_count / ROWS` columns of equal windows,
/// one window for each sensor.
pub struct GridLayout {
    point_count: usize,
    span_count: usize,
}

impl GridLayout {
    /// Number of sensors, and of windows.
    pub closed spec fn spec_point_count(&self) -> nat {
        self.point_count as nat
    }

    /// Number of blocks of 15 sensors.
    pub closed spec fn spec_span_count(&self) -> nat {
        self.span_count as nat
    }

    pub open spec fn wf(&self) -> bool {
        &&& self.spec_span_count() >= 1
        &&& self.spec_point_count() == 15 * self.spec_span_count()
    }

    /// Lays out a grid for `point_count` sensors. Only whole blocks of 15
    /// sensors can be placed by the window recurrence, so any other count
    /// is refused.
    pub fn new(point_count: usize) -> (r: Result<GridLayout, LayoutError>)
        ensures
            point_count == 0 <==> r == Err::<GridLayout, LayoutError>(LayoutError::NoSensors),
            (point_count > 0 && point_count % 15 != 0) <==> r == Err::<GridLayout, LayoutError>(
                LayoutError::PartialSpan,
            ),
            (point_count > 0 && point_count % 15 == 0) <==> r is Ok,
            r is Ok ==> {
                &&& r->Ok_0.wf()
                &&& r->Ok_0.spec_point_count() == point_count
                &&& r->Ok_0.spec_span_count() == point_count / 15
            },
    {
        if point_count == 0 {
            Err(LayoutError::NoSensors)
        } else if point_count % BLOCK_LEN != 0 {
            Err(LayoutError::PartialSpan)
        } else {
            Ok(GridLayout { point_count, span_count: point_count / BLOCK_LEN })
        }
    }

    /// Number of sensors, and of windows.
    pub fn point_count(&self) -> (r: usize)
        ensures
            r == self.spec_point_count(),
    {
        self.point_count
    }

    /// Number of blocks of 15 sensors.
    pub fn span_count(&self) -> (r: usize)
        ensures
            r == self.spec_span_count(),
    {
        self.span_count
    }

    /// Rows of the grid.
    pub fn rows(&self) -> (r: usize)
        ensures
            r == 3,
    {
        ROWS
    }

    /// Columns of the grid.
    pub fn columns(&self) -> (r: usize)
        requires
            self.wf(),
        ensures
            r == self.spec_point_count() / 3,
            r == 5 * self.spec_span_count(),
    {
        self.point_count / ROWS
    }

    /// The window of every reading of one frame, in reading order.
    pub fn window_sequence(&self) -> (r: Vec<usize>)
        requires
            self.wf(),
        ensures
            r@.len() == self.spec_point_count(),
            forall|i: int|
                0 <= i < r@.len() ==> r@[i] == window_at(self.spec_span_count() as int, i),
            forall|i: int| 0 <= i < r@.len() ==> r@[i] < self.spec_point_count(),
            forall|i: int, k: int| 0 <= i < r@.len() && 0 <= k < r@.len() && i != k ==> r@[i] != r@[k],
    {
        let mut cursor = WindowCursor::new(self);
        let mut r: Vec<usize> = Vec::with_capacity(self.point_count);
        let mut i: usize = 0;
        while i < self.point_count
            invariant
                self.wf(),
                cursor.wf(),
                cursor.spec_span_count() == self.spec_span_count(),
                cursor.spec_done() == i,
                i <= self.spec_point_count(),
                r@.len() == i,
                forall|k: int| 0 <= k < i ==> r@[k] == window_at(self.spec_span_count() as int, k),
            decreases self.point_count - i,
        {
            let w = cursor.next_window();
            r.push(w);
            i = i + 1;
        }
        proof {
            let s = self.spec_span_count() as int;
            assert forall|i: int, k: int|
                0 <= i < r@.len() && 0 <= k < r@.len() && i != k implies r@[i] != r@[k] by {
                if r@[i] == r@[k] {
                    lemma_window_injective(s, i, k);
                }
            }
            assert forall|i: int| 0 <= i < r@.len() implies r@[i] < self.spec_point_count() by {
                lemma_window_in_range(s, i);
            }
        }
        r
    }
}

/// The running window cursor of one frame: how many readings were placed,
/// and where the next one goes before the block and run adjustments.
pub struct WindowCursor {
    span_count: usize,
    done: usize,
    next: usize,
}

impl WindowCursor {
    pub closed spec fn spec_span_count(&self) -> nat {
        self.span_count as nat
    }

    /// Readings placed so far in this frame.
    pub closed spec fn spec_done(&self) -> nat {
        self.done as nat
    }

    pub closed spec fn wf(&self) -> bool {
        &&& self.span_count >= 1
        &&& 15 * self.span_count <= usize::MAX
        &&& self.done <= 15 * self.span_count
        &&& self.next == if self.done == 0 {
            0
        } else {
            window_at(self.span_count as int, self.done - 1) + 1
        }
    }

    /// A cursor at the start of a frame laid out by `layout`.
    pub fn new(layout: &GridLayout) -> (r: WindowCursor)
        requires
            layout.wf(),
        ensures
            r.wf(),
            r.spec_span_count() == layout.spec_span_count(),
            r.spec_done() == 0,
    {
        WindowCursor { span_count: layout.span_count, done: 0, next: 0 }
    }

    /// Number of readings placed so far in this frame.
    pub fn done(&self) -> (r: usize)
        ensures
            r == self.spec_done(),
    {
        self.done
    }

    /// The window of the next reading of the frame; the cursor moves past it.
    pub fn next_window(&mut self) -> (r: usize)
        requires
            old(self).wf(),
            old(self).spec_done() < 15 * old(self).spec_span_count(),
        ensures
            final(self).wf(),
            final(self).spec_span_count() == old(self).spec_span_count(),
            final(self).spec_done() == old(self).spec_done() + 1,
            r == window_at(old(self).spec_span_count() as int, old(self).spec_done() as int),
            r < 15 * old(self).spec_span_count(),
    {
        let ghost s = self.span_count as int;
        let i = self.done;
        proof {
            lemma_window_in_range(s, i as int);
            if i > 0 {
                lemma_window_in_range(s, i - 1);
            }
            lemma_window_closed_form(s, i as int);
            if i > 0 {
                lemma_window_closed_form(s, i - 1);
                lemma_tile_step(s, i as int);
            }
        }
        let w = if i > 0 && i % BLOCK_LEN == 0 {
            self.next - 2 * RUN_LEN * self.span_count
        } else if i > 0 && i % RUN_LEN == 0 {
            self.next + RUN_LEN * (self.span_count - 1)
        } else {
            self.next
        };
        self.done = i + 1;
        self.next = w + 1;
        w
    }
}

} // verus!
