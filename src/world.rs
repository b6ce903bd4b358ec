//! The simulated world: its bodies, the speed of simulated time, and the
//! part of the universe that is on view.
use vstd::prelude::*;

use crate::pixels::{buffer_height, buffer_pixels, buffer_width, PixelBuffer};
use crate::raster::ScaledBuffer;

verus! {

/// The smallest half width of the view, in kilometres.
pub const MIN_HALF_WIDTH: u64 = 1000;

/// Half width of the view when the world is made: about one astronomical unit.
pub const INITIAL_HALF_WIDTH: u64 = 150_000_000;

/// Simulated seconds per real second when the world is made: 100 days.
pub const INITIAL_TIME_SCALE: u64 = 8_640_000;

/// How much one speed-up or slow-down changes the time scale: 10 days per second.
pub const TIME_SCALE_STEP: u64 = 864_000;

/// Something that can draw itself onto a scaled buffer.
pub trait Renderable {
    /// The pixels of a `width x height` buffer, viewing a universe of half
    /// width `half`, once `self` is drawn onto `pixels`. A type states here
    /// how it draws itself. Types checked by Verus must define it, since
    /// nothing can be proved of the placeholder; verified callers rely only
    /// on `render` meeting it.
    closed spec fn rendered(
        &self,
        pixels: Map<(u32, u32), [u8; 4]>,
        half: u64,
        width: u32,
        height: u32,
    ) -> Map<(u32, u32), [u8; 4]> {
        arbitrary()
    }

    /// Draws `self`; it leaves the view and the buffer's dimensions alone.
    fn render(&self, image: &mut ScaledBuffer)
        requires
            old(image).wf(),
        ensures
            buffer_pixels(final(image).buffer()) == self.rendered(
                buffer_pixels(old(image).buffer()),
                old(image).half_width(),
                old(image).width_px(),
                old(image).height_px(),
            ),
            final(image).wf(),
            final(image).half_width() == old(image).half_width(),
            final(image).width_px() == old(image).width_px(),
            final(image).height_px() == old(image).height_px(),
    ;
}

/// The pixels of a `width x height` buffer viewing a universe of half width
/// `half`, after each of `bodies` is drawn onto `pixels`, first to last, so
/// that later bodies lie on top.
pub open spec fn rendered_all<E: Renderable>(
    bodies: Seq<E>,
    pixels: Map<(u32, u32), [u8; 4]>,
    half: u64,
    width: u32,
    height: u32,
) -> Map<(u32, u32), [u8; 4]>
    decreases bodies.len(),
{
    if bodies.len() == 0 {
        pixels
    } else {
        bodies.last().rendered(rendered_all(bodies.drop_last(), pixels, half, width, height), half, width, height)
    }
}

/// A body that moves under the pull of the others.
pub trait PhysicsBody: Sized {
    /// What changes from one step to the next: position and velocity.
    type State;

    /// The state that a step of `dt` simulated microseconds leads to, given
    /// the other bodies as they stand at the start of the step. A body type
    /// states its rule here. Types checked by Verus must define it, since
    /// nothing can be proved of the placeholder; verified callers rely only
    /// on `tick` meeting it.
    closed spec fn next_state(&self, dt: u64, others: Seq<Self>) -> Self::State {
        arbitrary()
    }

    /// The body once it has taken on state `to`; defined by each body type,
    /// as `next_state` is.
    closed spec fn with_state(&self, to: Self::State) -> Self {
        arbitrary()
    }

    /// Computes the state after a step of `dt` simulated microseconds from
    /// `self` and the other bodies as they stand at the start of the step.
    fn tick(&self, dt: u64, others: &[&Self]) -> (r: Self::State)
        ensures
            r == self.next_state(dt, others@.map_values(|o: &Self| *o)),
    ;

    /// Takes on the state computed by `tick`.
    fn update(&mut self, to: Self::State)
        ensures
            *final(self) == old(self).with_state(to),
    ;
}

/// A body of the world: it moves and it is drawn.
pub trait Entity: PhysicsBody + Renderable {
}

impl<T: PhysicsBody + Renderable> Entity for T {
}

/// Half width after zooming out by 5%: `half * 1.05`, truncated, saturated at `u64::MAX`.
pub open spec fn zoomed_out(half: u64) -> u64 {
    if half + half / 20 > u64::MAX {
        u64::MAX
    } else {
        (half + half / 20) as u64
    }
}

/// Half width after zooming in by 5%: `half * 0.95`, truncated, but never
/// below `MIN_HALF_WIDTH`.
pub open spec fn zoomed_in(half: u64) -> u64 {
    if half * 19 / 20 < MIN_HALF_WIDTH {
        MIN_HALF_WIDTH
    } else {
        (half * 19 / 20) as u64
    }
}

/// Time scale after speeding up, saturated at `u64::MAX`.
pub open spec fn sped_up(scale: u64) -> u64 {
    if scale + TIME_SCALE_STEP > u64::MAX {
        u64::MAX
    } else {
        (scale + TIME_SCALE_STEP) as u64
    }
}

/// Time scale after slowing down: simulated time may stop, never run backward.
pub open spec fn slowed_down(scale: u64) -> u64 {
    if scale <= TIME_SCALE_STEP {
        0
    } else {
        (scale - TIME_SCALE_STEP) as u64
    }
}

/// Simulated microseconds in `dt` real microseconds, saturated at `u64::MAX`.
pub open spec fn scaled_step(dt: u64, scale: u64) -> u64 {
    if dt * scale > u64::MAX {
        u64::MAX
    } else {
        (dt * scale) as u64
    }
}

/// The bodies after one step of `dt` simulated microseconds: each one takes
/// on the state computed from all bodies as they stood before the step.
pub open spec fn stepped<E: PhysicsBody>(bodies: Seq<E>, dt: u64) -> Seq<E> {
    Seq::new(bodies.len(), |i: int| bodies[i].with_state(bodies[i].next_state(dt, bodies.remove(i))))
}

/// The bodies of a world in order (later ones are drawn on top), with the
/// speed of simulated time and the extent of the view.
pub struct World<E> {
    pub entities: Vec<E>,
    /// Simulated seconds per real second.
    time_scale: u64,
    /// Half the visible universe width, in kilometres.
    width: u64,
}

impl<E> World<E> {
    /// The bodies, in order.
    pub closed spec fn bodies(&self) -> Seq<E> {
        self.entities@
    }

    /// Simulated seconds per real second.
    pub closed spec fn spec_time_scale(&self) -> u64 {
        self.time_scale
    }

    /// Half the visible universe width, in kilometres.
    pub closed spec fn half_width(&self) -> u64 {
        self.width
    }

    pub open spec fn wf(&self) -> bool {
        self.half_width() >= MIN_HALF_WIDTH
    }

    /// An empty world viewed at its initial zoom and speed.
    pub fn new() -> (r: Self)
        ensures
            r.wf(),
            r.bodies().len() == 0,
            r.spec_time_scale() == INITIAL_TIME_SCALE,
            r.half_width() == INITIAL_HALF_WIDTH,
    {
        World { entities: Vec::new(), time_scale: INITIAL_TIME_SCALE, width: INITIAL_HALF_WIDTH }
    }

    /// Simulated seconds per real second.
    pub fn time_scale(&self) -> (r: u64)
        ensures
            r == self.spec_time_scale(),
    {
        self.time_scale
    }

    /// Half the visible universe width, in kilometres.
    pub fn view_half_width(&self) -> (r: u64)
        ensures
            r == self.half_width(),
    {
        self.width
    }

    /// Widens the view by 5%.
    pub fn zoom_out(&mut self)
        requires
            old(self).wf(),
        ensures
            final(self).wf(),
            final(self).half_width() == zoomed_out(old(self).half_width()),
            final(self).spec_time_scale() == old(self).spec_time_scale(),
            final(self).bodies() == old(self).bodies(),
    {
        let grown = self.width / 20;
        if self.width > u64::MAX - grown {
            self.width = u64::MAX;
        } else {
            self.width = self.width + grown;
        }
    }

    /// Narrows the view by 5%, down to `MIN_HALF_WIDTH`.
    pub fn zoom_in(&mut self)
        ensures
            final(self).wf(),
            final(self).half_width() == zoomed_in(old(self).half_width()),
            final(self).spec_time_scale() == old(self).spec_time_scale(),
            final(self).bodies() == old(self).bodies(),
    {
        let shrunk = (self.width as u128 * 19 / 20) as u64;
        if shrunk < MIN_HALF_WIDTH {
            self.width = MIN_HALF_WIDTH;
        } else {
            self.width = shrunk;
        }
    }

    /// Makes simulated time run 10 days per second faster.
    pub fn speed_up(&mut self)
        ensures
            final(self).spec_time_scale() == sped_up(old(self).spec_time_scale()),
            final(self).half_width() == old(self).half_width(),
            final(self).bodies() == old(self).bodies(),
    {
        if self.time_scale > u64::MAX - TIME_SCALE_STEP {
            self.time_scale = u64::MAX;
        } else {
            self.time_scale = self.time_scale + TIME_SCALE_STEP;
        }
    }

    /// Makes simulated time run 10 days per second slower, down to a standstill.
    pub fn slow_down(&mut self)
        ensures
            final(self).spec_time_scale() == slowed_down(old(self).spec_time_scale()),
            final(self).half_width() == old(self).half_width(),
            final(self).bodies() == old(self).bodies(),
    {
        if self.time_scale <= TIME_SCALE_STEP {
            self.time_scale = 0;
        } else {
            self.time_scale = self.time_scale - TIME_SCALE_STEP;
        }
    }
}

/// Every body but the one at `i`, in order.
pub fn others_of<E>(entities: &Vec<E>, i: usize) -> (r: Vec<&E>)
    requires
        i < entities@.len(),
    ensures
        r@.len() == entities@.len() - 1,
        forall|j: int| 0 <= j < i ==> *r@[j] == entities@[j],
        forall|j: int| i <= j < r@.len() ==> *r@[j] == entities@[j + 1],
{
    let mut r: Vec<&E> = Vec::new();
    let mut j: usize = 0;
    while j < entities.len()
        invariant
            i < entities@.len(),
            j <= entities@.len(),
            r@.len() == if j <= i { j as int } else { j - 1 },
            forall|a: int| 0 <= a < r@.len() && a < i ==> *r@[a] == entities@[a],
            forall|a: int| i <= a < r@.len() ==> *r@[a] == entities@[a + 1],
        decreases entities@.len() - j,
    {
        if j != i {
            r.push(&entities[j]);
        }
        j = j + 1;
    }
    r
}

impl<E: Entity> World<E> {
    /// Advances every body by `dt` real microseconds, scaled by the time
    /// scale. All next states are computed from the bodies as they stand at
    /// the start of the step; only then is each body given its own, in order.
    pub fn tick(&mut self, dt: u64)
        ensures
            final(self).bodies() == stepped(old(self).bodies(), scaled_step(dt, old(self).spec_time_scale())),
            final(self).spec_time_scale() == old(self).spec_time_scale(),
            final(self).half_width() == old(self).half_width(),
    {
        proof {
            assert(dt as int * self.time_scale as int <= u64::MAX as int * u64::MAX as int) by (nonlinear_arith)
                requires
                    dt <= u64::MAX,
                    self.time_scale <= u64::MAX,
            ;
        }
        let product = dt as u128 * self.time_scale as u128;
        let step: u64 = if product > u64::MAX as u128 {
            u64::MAX
        } else {
            product as u64
        };
        let ghost start = self.entities@;
        let n = self.entities.len();
        let mut next: Vec<E::State> = Vec::new();
        let mut i: usize = 0;
        while i < n
            invariant
                self.entities@ == start,
                n == start.len(),
                i <= n,
                next@.len() == i,
                forall|j: int| 0 <= j < i ==> next@[j] == start[j].next_state(step, start.remove(j)),
            decreases n - i,
        {
            let others = others_of(&self.entities, i);
            proof {
                assert(others@.map_values(|o: &E| *o) =~= start.remove(i as int));
            }
            next.push(self.entities[i].tick(step, others.as_slice()));
            i = i + 1;
        }
        let mut pending: Vec<E> = Vec::new();
        core::mem::swap(&mut pending, &mut self.entities);
        let mut k: usize = 0;
        while k < n
            invariant
                n == start.len(),
                k <= n,
                pending@ == start.subrange(k as int, n as int),
                next@.len() == n - k,
                forall|j: int| 0 <= j < n - k ==> next@[j] == start[j + k].next_state(step, start.remove(j + k)),
                self.entities@ =~= stepped(start, step).subrange(0, k as int),
                self.time_scale == old(self).time_scale,
                self.width == old(self).width,
            decreases n - k,
        {
            let mut body = pending.remove(0);
            let state = next.remove(0);
            body.update(state);
            self.entities.push(body);
            k = k + 1;
        }
        proof {
            assert(self.entities@ =~= stepped(start, step));
        }
    }

    /// Draws every body onto `canvas` at the current view, in order, so that
    /// later bodies lie on top, and hands the canvas back.
    pub fn render(&self, canvas: PixelBuffer) -> (r: PixelBuffer)
        requires
            self.wf(),
        ensures
            buffer_pixels(r) == rendered_all(
                self.bodies(),
                buffer_pixels(canvas),
                self.half_width(),
                buffer_width(canvas),
                buffer_height(canvas),
            ),
            buffer_width(r) == buffer_width(canvas),
            buffer_height(r) == buffer_height(canvas),
    {
        let mut buf = ScaledBuffer::new(canvas, self.width);
        let mut i: usize = 0;
        while i < self.entities.len()
            invariant
                i <= self.entities@.len(),
                buffer_pixels(buf.buffer()) == rendered_all(
                    self.entities@.subrange(0, i as int),
                    buffer_pixels(canvas),
                    self.width,
                    buffer_width(canvas),
                    buffer_height(canvas),
                ),
                buf.half_width() == self.width,
                buf.wf(),
                buf.width_px() == buffer_width(canvas),
                buf.height_px() == buffer_height(canvas),
            decreases self.entities@.len() - i,
        {
            proof {
                assert(self.entities@.subrange(0, i + 1).drop_last() =~= self.entities@.subrange(0, i as int));
            }
            self.entities[i].render(&mut buf);
            i = i + 1;
        }
        proof {
            assert(self.entities@.subrange(0, i as int) =~= self.entities@);
        }
        buf.into_buffer()
    }
}

/// Storing the bodies in another order does not change the state any body
/// reaches in a step: where `b` holds the bodies of `a` reordered, a body
/// ends the step the same in both, provided each body's rule does not depend
/// on the order in which it is handed the others.
pub proof fn lemma_step_order_independent<E: PhysicsBody>(a: Seq<E>, b: Seq<E>, dt: u64)
    requires
        a.to_multiset() == b.to_multiset(),
        forall|x: E, o1: Seq<E>, o2: Seq<E>|
            a.contains(x) && o1.to_multiset() == o2.to_multiset() ==> #[trigger] x.next_state(dt, o1)
                == #[trigger] x.next_state(dt, o2),
    ensures
        forall|i: int, j: int|
            0 <= i < a.len() && 0 <= j < b.len() && a[i] == b[j] ==> #[trigger] stepped(a, dt)[i]
                == #[trigger] stepped(b, dt)[j],
{
    assert forall|i: int, j: int|
        0 <= i < a.len() && 0 <= j < b.len() && a[i] == b[j] implies #[trigger] stepped(a, dt)[i]
            == #[trigger] stepped(b, dt)[j] by {
        vstd::seq_lib::to_multiset_remove(a, i);
        vstd::seq_lib::to_multiset_remove(b, j);
        assert(a.contains(a[i]));
        assert(a[i].next_state(dt, a.remove(i)) == a[i].next_state(dt, b.remove(j)));
    }
}

/// The view never gets narrower than `MIN_HALF_WIDTH`, however often it is
/// zoomed in or out, and slowing down never makes the time scale negative.
pub proof fn lemma_controls_keep_bounds(half: u64, scale: u64)
    ensures
        zoomed_in(half) >= MIN_HALF_WIDTH,
        half >= MIN_HALF_WIDTH ==> zoomed_out(half) >= MIN_HALF_WIDTH,
        slowed_down(scale) >= 0,
        slowed_down(scale) <= scale,
{
}

} // verus!
