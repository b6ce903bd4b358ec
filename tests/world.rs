use rusty_planets::pixels::PixelBuffer;
use rusty_planets::raster::{ScaledBuffer, UniversePoint};
use rusty_planets::world::{
    others_of, PhysicsBody, Renderable, World, INITIAL_HALF_WIDTH, INITIAL_TIME_SCALE, MIN_HALF_WIDTH,
    TIME_SCALE_STEP,
};

/// A body on a line whose next position is pulled by the sum of the others.
#[derive(Debug, Clone, PartialEq)]
struct Bead {
    pos: i64,
    seen_dt: u64,
}

impl PhysicsBody for Bead {
    type State = (i64, u64);

    fn tick(&self, dt: u64, others: &[&Self]) -> (i64, u64) {
        (others.iter().map(|o| o.pos).sum::<i64>() - self.pos, dt)
    }

    fn update(&mut self, to: (i64, u64)) {
        self.pos = to.0;
        self.seen_dt = to.1;
    }
}

impl Renderable for Bead {
    fn render(&self, image: &mut ScaledBuffer) {
        image.draw_circle(UniversePoint { x: self.pos, y: 0 }, 0, [self.pos as u8, 0, 0, 255]);
    }
}

fn beads(ps: &[i64]) -> World<Bead> {
    let mut w = World::new();
    for &p in ps {
        w.entities.push(Bead { pos: p, seen_dt: 0 });
    }
    w
}

#[test]
fn new_world_defaults() {
    let w: World<Bead> = World::new();
    assert!(w.entities.is_empty());
    assert_eq!(w.time_scale(), 100 * 24 * 60 * 60);
    assert_eq!(w.time_scale(), INITIAL_TIME_SCALE);
    assert_eq!(w.view_half_width(), 150_000_000);
    assert_eq!(w.view_half_width(), INITIAL_HALF_WIDTH);
}

#[test]
fn zoom_steps_are_five_percent() {
    let mut w: World<Bead> = World::new();
    w.zoom_out();
    assert_eq!(w.view_half_width(), 157_500_000);
    w.zoom_in();
    assert_eq!(w.view_half_width(), 149_625_000);
}

#[test]
fn zoom_in_stops_at_floor() {
    let mut w: World<Bead> = World::new();
    for _ in 0..1_000 {
        w.zoom_in();
        assert!(w.view_half_width() >= MIN_HALF_WIDTH);
    }
    assert_eq!(w.view_half_width(), 1_000);
    w.zoom_out();
    assert_eq!(w.view_half_width(), 1_050);
    w.zoom_in();
    assert_eq!(w.view_half_width(), 1_000);
}

#[test]
fn zoom_out_saturates() {
    let mut w: World<Bead> = World::new();
    for _ in 0..2_000 {
        w.zoom_out();
    }
    assert_eq!(w.view_half_width(), u64::MAX);
}

#[test]
fn speed_steps_are_ten_days() {
    let mut w: World<Bead> = World::new();
    w.speed_up();
    assert_eq!(w.time_scale(), 110 * 86_400);
    w.slow_down();
    w.slow_down();
    assert_eq!(w.time_scale(), 90 * 86_400);
    assert_eq!(TIME_SCALE_STEP, 10 * 86_400);
}

#[test]
fn slow_down_stops_at_zero() {
    let mut w: World<Bead> = World::new();
    for _ in 0..11 {
        w.slow_down();
    }
    assert_eq!(w.time_scale(), 0);
    w.slow_down();
    assert_eq!(w.time_scale(), 0);
    w.speed_up();
    assert_eq!(w.time_scale(), TIME_SCALE_STEP);
}

#[test]
fn tick_reads_only_the_start_of_the_step() {
    let mut w = beads(&[1, 2, 3]);
    w.tick(2);
    let ps: Vec<i64> = w.entities.iter().map(|b| b.pos).collect();
    // Each new position is computed from the old ones: (2+3)-1, (1+3)-2, (1+2)-3.
    assert_eq!(ps, vec![4, 2, 0]);
    assert!(w.entities.iter().all(|b| b.seen_dt == 2 * INITIAL_TIME_SCALE));
}

#[test]
fn tick_does_not_depend_on_storage_order() {
    let mut a = beads(&[1, 2, 3]);
    let mut b = beads(&[3, 1, 2]);
    a.tick(1);
    b.tick(1);
    let pa: Vec<i64> = a.entities.iter().map(|x| x.pos).collect();
    let pb: Vec<i64> = b.entities.iter().map(|x| x.pos).collect();
    assert_eq!(pb, vec![pa[2], pa[0], pa[1]]);
}

#[test]
fn tick_scales_and_saturates_the_step() {
    let mut w = beads(&[5]);
    w.tick(u64::MAX);
    assert_eq!(w.entities[0].seen_dt, u64::MAX);
    for _ in 0..10 {
        w.slow_down();
    }
    w.tick(7);
    assert_eq!(w.entities[0].seen_dt, 0);
    assert_eq!(w.entities[0].pos, 5);
}

#[test]
fn tick_on_empty_world() {
    let mut w: World<Bead> = World::new();
    w.tick(1_000);
    assert!(w.entities.is_empty());
}

#[test]
fn render_draws_in_order() {
    let w = beads(&[0, 0]);
    let canvas = PixelBuffer::from_raw(4, 4, vec![0u8; 64]).unwrap();
    let out = w.render(canvas).into_raw();
    assert_eq!(out.len(), 64);
    // Both beads paint the centre pixel (2, 2).
    let i = (2 * 4 + 2) * 4;
    assert_eq!(&out[i..i + 4], &[0, 0, 0, 255]);
    let painted = out.chunks(4).filter(|p| p != &[0, 0, 0, 0]).count();
    assert_eq!(painted, 1);
}

#[test]
fn others_of_skips_only_the_index() {
    let v = vec![10, 20, 30, 40];
    assert_eq!(others_of(&v, 0), vec![&20, &30, &40]);
    assert_eq!(others_of(&v, 2), vec![&10, &20, &40]);
    assert_eq!(others_of(&v, 3), vec![&10, &20, &30]);
    assert!(others_of(&vec![7], 0).is_empty());
}
