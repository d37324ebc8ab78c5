use vstd::prelude::*;
use crate::geometry::Vec2;
use crate::start_param::StartParam;
use crate::transition::{curve_value, lemma_scale_to_norm, Transition, NORM_ONE};

verus! {

/// The size of a particle where no size curve applies.
pub const DEFAULT_SIZE: u32 = 5;

/// One simulated point mass.
#[derive(Clone, Copy, Debug, PartialEq, Eq, Structural)]
pub struct Particle {
    pub pos: Vec2,
    pub vel: Vec2,
    /// Time units since emission.
    pub age: u64,
}

/// What a renderer needs of one live particle.
#[derive(Clone, Copy, Debug, PartialEq, Eq, Structural)]
pub struct RenderRecord {
    pub pos: Vec2,
    pub size: u32,
}

pub open spec fn in_i64(v: int) -> bool {
    i64::MIN <= v <= i64::MAX
}

/// The velocity after `dt` time units under acceleration `acc`, component by component.
pub open spec fn next_vel(p: Particle, acc: Vec2, dt: int) -> (int, int) {
    (p.vel.x + acc.x * dt, p.vel.y + acc.y * dt)
}

/// Whether one step of `dt` keeps every field of `p` within its integer type.
pub open spec fn step_fits(p: Particle, acc: Vec2, dt: int) -> bool {
    let v = next_vel(p, acc, dt);
    &&& in_i64(v.0)
    &&& in_i64(v.1)
    &&& in_i64(p.pos.x + v.0 * dt)
    &&& in_i64(p.pos.y + v.1 * dt)
    &&& p.age + dt <= u64::MAX
}

/// One step of `dt`: the velocity takes up `acc * dt`, then the position moves by the new
/// velocity times `dt`, and the age grows by `dt`.
pub open spec fn step(p: Particle, acc: Vec2, dt: int) -> Particle {
    let v = next_vel(p, acc, dt);
    Particle {
        pos: Vec2 { x: (p.pos.x + v.0 * dt) as i64, y: (p.pos.y + v.1 * dt) as i64 },
        vel: Vec2 { x: v.0 as i64, y: v.1 as i64 },
        age: (p.age + dt) as u64,
    }
}

/// Whether a particle of this age is still alive under the lifetime limit (none: unbounded).
pub open spec fn alive(p: Particle, life: Option<u64>) -> bool {
    match life {
        None => true,
        Some(l) => p.age < l,
    }
}

/// The pool after one update of `dt`: every particle stepped, those that reached the
/// lifetime limit left out, the order kept.
pub open spec fn updated_pool(s: Seq<Particle>, acc: Vec2, dt: int, life: Option<u64>) -> Seq<
    Particle,
> {
    s.map_values(|p: Particle| step(p, acc, dt)).filter(|p: Particle| alive(p, life))
}

/// A particle's age as a normalized time: `NORM_ONE` once it reaches the limit.
pub open spec fn norm_age(age: int, life: int) -> int {
    if age >= life {
        NORM_ONE as int
    } else {
        age * (NORM_ONE as int) / life
    }
}

/// The size of a particle of age `age`: the size curve at its normalized age, or
/// `DEFAULT_SIZE` where lifetime is unbounded or the curve has no breakpoint.
pub open spec fn size_at(curve: Seq<(u64, u32)>, life: Option<u64>, age: int) -> u32 {
    match life {
        None => DEFAULT_SIZE,
        Some(l) => match curve_value(curve, norm_age(age, l as int)) {
            Some(v) => v,
            None => DEFAULT_SIZE,
        },
    }
}

/// `x + rate * dt`, where it fits in an `i64`.
fn advance(x: i64, rate: i64, dt: u64) -> (r: Option<i64>)
    ensures
        r == (if in_i64(x + rate * dt) {
            Some((x + rate * dt) as i64)
        } else {
            None::<i64>
        }),
{
    match (rate as i128).checked_mul(dt as i128) {
        None => None,
        Some(d) => match (x as i128).checked_add(d) {
            None => None,
            Some(s) => {
                if s < i64::MIN as i128 || s > i64::MAX as i128 {
                    None
                } else {
                    Some(s as i64)
                }
            },
        },
    }
}

/// One step of `p`, where it fits.
fn step_particle(p: &Particle, acc: Vec2, dt: u64) -> (r: Option<Particle>)
    ensures
        r == (if step_fits(*p, acc, dt as int) {
            Some(step(*p, acc, dt as int))
        } else {
            None::<Particle>
        }),
{
    let vx = match advance(p.vel.x, acc.x, dt) {
        None => return None,
        Some(v) => v,
    };
    let vy = match advance(p.vel.y, acc.y, dt) {
        None => return None,
        Some(v) => v,
    };
    let px = match advance(p.pos.x, vx, dt) {
        None => return None,
        Some(v) => v,
    };
    let py = match advance(p.pos.y, vy, dt) {
        None => return None,
        Some(v) => v,
    };
    let age = match p.age.checked_add(dt) {
        None => return None,
        Some(a) => a,
    };
    Some(Particle { pos: Vec2 { x: px, y: py }, vel: Vec2 { x: vx, y: vy }, age })
}

impl Particle {
    /// A particle just emitted, of age zero.
    pub fn new(pos: Vec2, vel: Vec2) -> (r: Particle)
        ensures
            r == (Particle { pos, vel, age: 0 }),
    {
        Particle { pos, vel, age: 0 }
    }
}

/// A bounded pool of particles with the rules that move, admit and retire them.
pub struct ParticleSystem {
    particles: Vec<Particle>,
    max_particles: usize,
    max_life: Option<u64>,
    acceleration: Vec2,
    start_position: StartParam<Vec2>,
    start_velocity: StartParam<Vec2>,
    size: Transition<u32>,
}

impl ParticleSystem {
    /// The live particles.
    pub closed spec fn pool(&self) -> Seq<Particle> {
        self.particles@
    }

    /// The nominal capacity of the pool.
    pub closed spec fn capacity(&self) -> nat {
        self.max_particles as nat
    }

    /// The lifetime limit; `None` where particles live for ever.
    pub closed spec fn life_limit(&self) -> Option<u64> {
        self.max_life
    }

    /// The constant acceleration applied to every particle.
    pub closed spec fn accel(&self) -> Vec2 {
        self.acceleration
    }

    /// Where a new particle starts.
    pub closed spec fn position_param(&self) -> StartParam<Vec2> {
        self.start_position
    }

    /// How fast a new particle starts.
    pub closed spec fn velocity_param(&self) -> StartParam<Vec2> {
        self.start_velocity
    }

    /// The breakpoints of the size curve over normalized age.
    pub closed spec fn size_points(&self) -> Seq<(u64, u32)> {
        self.size.points()
    }

    /// The pool holds at most one particle beyond the nominal capacity, and the size
    /// curve is well formed.
    pub closed spec fn wf(&self) -> bool {
        &&& self.particles@.len() <= self.max_particles + 1
        &&& self.size.wf()
    }

    /// Whether an update of `dt` keeps every particle's fields within their integer types.
    pub open spec fn update_fits(&self, dt: int) -> bool {
        forall|i: int| 0 <= i < self.pool().len() ==> step_fits(#[trigger] self.pool()[i], self.accel(), dt)
    }

    /// An empty system of capacity zero, with unbounded lifetime, no acceleration,
    /// particles starting at the origin with velocity (10, 10), and no size curve.
    pub fn new() -> (r: ParticleSystem)
        ensures
            r.wf(),
            r.pool() == Seq::<Particle>::empty(),
            r.capacity() == 0,
            r.life_limit() == None::<u64>,
            r.accel() == (Vec2 { x: 0, y: 0 }),
            r.position_param() == (StartParam::Fixed(Vec2 { x: 0, y: 0 })),
            r.velocity_param() == (StartParam::Fixed(Vec2 { x: 10, y: 10 })),
            r.size_points() == Seq::<(u64, u32)>::empty(),
    {
        ParticleSystem {
            particles: Vec::new(),
            max_particles: 0,
            max_life: None,
            acceleration: Vec2::zero(),
            start_position: StartParam::Fixed(Vec2::zero()),
            start_velocity: StartParam::Fixed(Vec2::new(10, 10)),
            size: Transition::new(),
        }
    }

    /// The number of live particles.
    pub fn len(&self) -> (r: usize)
        ensures
            r == self.pool().len(),
    {
        self.particles.len()
    }

    /// A copy of the live particle at `idx`.
    pub fn particle(&self, idx: usize) -> (r: Particle)
        requires
            idx < self.pool().len(),
        ensures
            r == self.pool()[idx as int],
    {
        self.particles[idx]
    }

    /// Admits `p` while the pool holds no more than the capacity (so at most one beyond
    /// it); otherwise drops it.
    fn add_particle(&mut self, p: Particle)
        requires
            old(self).wf(),
        ensures
            final(self).wf(),
            final(self).pool() == (if old(self).pool().len() <= old(self).capacity() {
                old(self).pool().push(p)
            } else {
                old(self).pool()
            }),
            final(self).capacity() == old(self).capacity(),
            final(self).life_limit() == old(self).life_limit(),
            final(self).accel() == old(self).accel(),
            final(self).position_param() == old(self).position_param(),
            final(self).velocity_param() == old(self).velocity_param(),
            final(self).size_points() == old(self).size_points(),
    {
        if self.particles.len() <= self.max_particles {
            self.particles.push(p);
        }
    }

    /// Emits a particle at `pos` with velocity `vel` and age zero, if the pool admits it.
    pub fn emit_at(&mut self, pos: Vec2, vel: Vec2)
        requires
            old(self).wf(),
        ensures
            final(self).wf(),
            final(self).pool().len() <= final(self).capacity() + 1,
            final(self).pool() == (if old(self).pool().len() <= old(self).capacity() {
                old(self).pool().push(Particle { pos, vel, age: 0 })
            } else {
                old(self).pool()
            }),
            final(self).capacity() == old(self).capacity(),
            final(self).life_limit() == old(self).life_limit(),
            final(self).accel() == old(self).accel(),
            final(self).position_param() == old(self).position_param(),
            final(self).velocity_param() == old(self).velocity_param(),
            final(self).size_points() == old(self).size_points(),
    {
        self.add_particle(Particle::new(pos, vel));
    }

    /// Emits a particle whose position and velocity are resolved from the system's start
    /// parameters, if the pool admits it.
    pub fn emit(&mut self)
        requires
            old(self).wf(),
        ensures
            final(self).wf(),
            final(self).pool().len() <= final(self).capacity() + 1,
            old(self).pool().len() <= old(self).capacity() ==> {
                &&& final(self).pool().len() == old(self).pool().len() + 1
                &&& final(self).pool().drop_last() == old(self).pool()
                &&& final(self).pool().last().age == 0
                &&& old(self).position_param().admits_point(final(self).pool().last().pos)
                &&& old(self).velocity_param().admits_point(final(self).pool().last().vel)
            },
            old(self).pool().len() > old(self).capacity() ==> final(self).pool() == old(
                self,
            ).pool(),
            final(self).capacity() == old(self).capacity(),
            final(self).life_limit() == old(self).life_limit(),
            final(self).accel() == old(self).accel(),
            final(self).position_param() == old(self).position_param(),
            final(self).velocity_param() == old(self).velocity_param(),
            final(self).size_points() == old(self).size_points(),
    {
        let pos = self.start_position.resolve_point();
        let vel = self.start_velocity.resolve_point();
        self.emit_at(pos, vel);
        assert(old(self).pool().len() <= old(self).capacity() ==> self.pool().drop_last()
            =~= old(self).pool());
    }

    /// Whether an update of `dt` keeps every particle's fields within their integer types.
    pub fn can_update(&self, dt: u64) -> (r: bool)
        ensures
            r == self.update_fits(dt as int),
    {
        let n = self.particles.len();
        let mut i: usize = 0;
        while i < n
            invariant
                n == self.pool().len(),
                i <= n,
                forall|j: int| 0 <= j < i ==> step_fits(#[trigger] self.pool()[j], self.accel(), dt as int),
            decreases n - i,
        {
            if step_particle(&self.particles[i], self.acceleration, dt).is_none() {
                assert(!step_fits(self.pool()[i as int], self.accel(), dt as int));
                return false;
            }
            i = i + 1;
        }
        true
    }

    /// Advances every particle by `dt` time units (velocity first, then position, then
    /// age), then retires every particle whose age reached the lifetime limit.
    pub fn update(&mut self, dt: u64)
        requires
            old(self).wf(),
            old(self).update_fits(dt as int),
        ensures
            final(self).wf(),
            final(self).pool().len() <= final(self).capacity() + 1,
            final(self).pool().len() <= old(self).pool().len(),
            final(self).pool() == updated_pool(
                old(self).pool(),
                old(self).accel(),
                dt as int,
                old(self).life_limit(),
            ),
            forall|i: int|
                0 <= i < final(self).pool().len() ==> alive(
                    #[trigger] final(self).pool()[i],
                    final(self).life_limit(),
                ),
            final(self).capacity() == old(self).capacity(),
            final(self).life_limit() == old(self).life_limit(),
            final(self).accel() == old(self).accel(),
            final(self).position_param() == old(self).position_param(),
            final(self).velocity_param() == old(self).velocity_param(),
            final(self).size_points() == old(self).size_points(),
    {
        let ghost s = self.particles@;
        let ghost acc = self.acceleration;
        let ghost life = self.max_life;
        let ghost stepped = s.map_values(|p: Particle| step(p, acc, dt as int));
        let ghost pred = |p: Particle| alive(p, life);
        let n = self.particles.len();
        let mut kept: Vec<Particle> = Vec::new();
        let mut i: usize = 0;
        assert(forall|j: int| 0 <= j < n ==> step_fits(#[trigger] s[j], acc, dt as int)) by {
            assert(s == self.pool() && acc == self.accel());
        }
        while i < n
            invariant
                n == s.len(),
                i <= n,
                s == self.particles@,
                acc == self.acceleration,
                life == self.max_life,
                stepped == s.map_values(|p: Particle| step(p, acc, dt as int)),
                pred == (|p: Particle| alive(p, life)),
                forall|j: int| 0 <= j < n ==> step_fits(#[trigger] s[j], acc, dt as int),
                kept@ == stepped.take(i as int).filter(pred),
                kept@.len() <= i,
            decreases n - i,
        {
            let q = match step_particle(&self.particles[i], self.acceleration, dt) {
                Some(q) => q,
                None => {
                    assert(false);
                    return;
                },
            };
            proof {
                assert(stepped.take(i + 1).drop_last() =~= stepped.take(i as int));
                assert(stepped.take(i + 1).last() == q);
                reveal(Seq::filter);
                stepped.take(i as int).lemma_filter_len(pred);
            }
            let keep = match self.max_life {
                None => true,
                Some(l) => q.age < l,
            };
            if keep {
                kept.push(q);
            }
            i = i + 1;
        }
        proof {
            assert(stepped.take(n as int) =~= stepped);
            broadcast use vstd::seq_lib::group_filter_ensures;
        }
        self.particles = kept;
        assert(self.particles@.len() <= s.len());
    }

    /// The size of the live particle at `idx`: the size curve at its normalized age.
    pub fn calc_particle_size(&self, idx: usize) -> (r: u32)
        requires
            self.wf(),
            idx < self.pool().len(),
        ensures
            r == size_at(self.size_points(), self.life_limit(), self.pool()[idx as int].age as int),
    {
        match self.max_life {
            None => DEFAULT_SIZE,
            Some(l) => {
                let age = self.particles[idx].age;
                let f: u64 = if age >= l {
                    NORM_ONE
                } else {
                    proof {
                        lemma_scale_to_norm(age as int, l as int);
                    }
                    ((age as u128) * (NORM_ONE as u128) / (l as u128)) as u64
                };
                match self.size.evaluate(f as i64) {
                    Some(v) => v,
                    None => DEFAULT_SIZE,
                }
            },
        }
    }

    /// For each live particle, in pool order, its position and size.
    pub fn snapshot(&self) -> (r: Vec<RenderRecord>)
        requires
            self.wf(),
        ensures
            r@.len() == self.pool().len(),
            forall|i: int|
                0 <= i < r@.len() ==> #[trigger] r@[i] == (RenderRecord {
                    pos: self.pool()[i].pos,
                    size: size_at(self.size_points(), self.life_limit(), self.pool()[i].age as int),
                }),
    {
        let n = self.particles.len();
        let mut out: Vec<RenderRecord> = Vec::new();
        let mut i: usize = 0;
        while i < n
            invariant
                n == self.pool().len(),
                i <= n,
                self.wf(),
                out@.len() == i,
                forall|j: int|
                    0 <= j < i ==> #[trigger] out@[j] == (RenderRecord {
                        pos: self.pool()[j].pos,
                        size: size_at(self.size_points(), self.life_limit(), self.pool()[j].age as int),
                    }),
            decreases n - i,
        {
            let size = self.calc_particle_size(i);
            out.push(RenderRecord { pos: self.particles[i].pos, size });
            i = i + 1;
        }
        out
    }
}

/// Fluent configuration of a `ParticleSystem`; the system it holds is always empty.
pub struct ParticleSystemBuilder {
    system: ParticleSystem,
}

impl ParticleSystemBuilder {
    /// The system being configured.
    pub closed spec fn config(&self) -> ParticleSystem {
        self.system
    }

    pub closed spec fn wf(&self) -> bool {
        &&& self.system.wf()
        &&& self.system.pool().len() == 0
    }

    /// Starts from the defaults of `ParticleSystem::new`.
    pub fn new() -> (r: ParticleSystemBuilder)
        ensures
            r.wf(),
            r.config().capacity() == 0,
            r.config().life_limit() == None::<u64>,
            r.config().accel() == (Vec2 { x: 0, y: 0 }),
            r.config().position_param() == (StartParam::Fixed(Vec2 { x: 0, y: 0 })),
            r.config().velocity_param() == (StartParam::Fixed(Vec2 { x: 10, y: 10 })),
            r.config().size_points() == Seq::<(u64, u32)>::empty(),
            r.config().pool() == Seq::<Particle>::empty(),
    {
        ParticleSystemBuilder { system: ParticleSystem::new() }
    }

    /// The configured system, empty and ready to run.
    pub fn build(self) -> (r: ParticleSystem)
        requires
            self.wf(),
        ensures
            r == self.config(),
            r.wf(),
            r.pool() == Seq::<Particle>::empty(),
    {
        assert(self.system.pool() =~= Seq::<Particle>::empty());
        self.system
    }

    /// Sets the capacity of the pool and reserves storage for it.
    pub fn count(self, count: usize) -> (r: ParticleSystemBuilder)
        requires
            self.wf(),
        ensures
            r.wf(),
            r.config().pool() == self.config().pool(),
            r.config().capacity() == count,
            r.config().life_limit() == self.config().life_limit(),
            r.config().accel() == self.config().accel(),
            r.config().position_param() == self.config().position_param(),
            r.config().velocity_param() == self.config().velocity_param(),
            r.config().size_points() == self.config().size_points(),
    {
        let mut b = self;
        b.system.max_particles = count;
        b.system.particles.reserve(count);
        b
    }

    /// Sets the lifetime limit, in time units.
    pub fn lifetime(self, time: u64) -> (r: ParticleSystemBuilder)
        requires
            self.wf(),
        ensures
            r.wf(),
            r.config().pool() == self.config().pool(),
            r.config().life_limit() == Some(time),
            r.config().capacity() == self.config().capacity(),
            r.config().accel() == self.config().accel(),
            r.config().position_param() == self.config().position_param(),
            r.config().velocity_param() == self.config().velocity_param(),
            r.config().size_points() == self.config().size_points(),
    {
        let mut b = self;
        b.system.max_life = Some(time);
        b
    }

    /// Sets the constant acceleration.
    pub fn acceleration(self, accel: Vec2) -> (r: ParticleSystemBuilder)
        requires
            self.wf(),
        ensures
            r.wf(),
            r.config().pool() == self.config().pool(),
            r.config().accel() == accel,
            r.config().capacity() == self.config().capacity(),
            r.config().life_limit() == self.config().life_limit(),
            r.config().position_param() == self.config().position_param(),
            r.config().velocity_param() == self.config().velocity_param(),
            r.config().size_points() == self.config().size_points(),
    {
        let mut b = self;
        b.system.acceleration = accel;
        b
    }

    /// Sets where new particles start.
    pub fn start_position(self, param: StartParam<Vec2>) -> (r: ParticleSystemBuilder)
        requires
            self.wf(),
        ensures
            r.wf(),
            r.config().pool() == self.config().pool(),
            r.config().position_param() == param,
            r.config().capacity() == self.config().capacity(),
            r.config().life_limit() == self.config().life_limit(),
            r.config().accel() == self.config().accel(),
            r.config().velocity_param() == self.config().velocity_param(),
            r.config().size_points() == self.config().size_points(),
    {
        let mut b = self;
        b.system.start_position = param;
        b
    }

    /// Sets how fast new particles start.
    pub fn start_velocity(self, param: StartParam<Vec2>) -> (r: ParticleSystemBuilder)
        requires
            self.wf(),
        ensures
            r.wf(),
            r.config().pool() == self.config().pool(),
            r.config().velocity_param() == param,
            r.config().capacity() == self.config().capacity(),
            r.config().life_limit() == self.config().life_limit(),
            r.config().accel() == self.config().accel(),
            r.config().position_param() == self.config().position_param(),
            r.config().size_points() == self.config().size_points(),
    {
        let mut b = self;
        b.system.start_velocity = param;
        b
    }

    /// Sets the size curve over normalized age.
    pub fn size(self, curve: Transition<u32>) -> (r: ParticleSystemBuilder)
        requires
            self.wf(),
            curve.wf(),
        ensures
            r.wf(),
            r.config().pool() == self.config().pool(),
            r.config().size_points() == curve.points(),
            r.config().capacity() == self.config().capacity(),
            r.config().life_limit() == self.config().life_limit(),
            r.config().accel() == self.config().accel(),
            r.config().position_param() == self.config().position_param(),
            r.config().velocity_param() == self.config().velocity_param(),
    {
        let mut b = self;
        b.system.size = curve;
        b
    }
}

/// The time covered by a sequence of time steps.
pub open spec fn total_time(dts: Seq<u64>) -> int
    decreases dts.len(),
{
    if dts.len() == 0 {
        0
    } else {
        total_time(dts.drop_last()) + dts.last()
    }
}

/// A particle after one step for each time step in `dts`, in order.
pub open spec fn steps(p: Particle, acc: Vec2, dts: Seq<u64>) -> Particle
    decreases dts.len(),
{
    if dts.len() == 0 {
        p
    } else {
        step(steps(p, acc, dts.drop_last()), acc, dts.last() as int)
    }
}

/// Whether every step of `steps(p, acc, dts)` keeps the fields within their integer types.
pub open spec fn steps_fit(p: Particle, acc: Vec2, dts: Seq<u64>) -> bool
    decreases dts.len(),
{
    if dts.len() == 0 {
        true
    } else {
        steps_fit(p, acc, dts.drop_last()) && step_fits(
            steps(p, acc, dts.drop_last()),
            acc,
            dts.last() as int,
        )
    }
}

/// After any number of steps of total time `T`, a particle's age has grown by exactly `T`
/// and its velocity by exactly `acc * T`, however the time was split into steps.
pub proof fn lemma_steps_accumulate(p: Particle, acc: Vec2, dts: Seq<u64>)
    requires
        steps_fit(p, acc, dts),
    ensures
        steps(p, acc, dts).age == p.age + total_time(dts),
        steps(p, acc, dts).vel.x == p.vel.x + acc.x * total_time(dts),
        steps(p, acc, dts).vel.y == p.vel.y + acc.y * total_time(dts),
    decreases dts.len(),
{
    if dts.len() > 0 {
        let rest = dts.drop_last();
        lemma_steps_accumulate(p, acc, rest);
        let t = total_time(rest);
        let d = dts.last() as int;
        assert(acc.x * t + acc.x * d == acc.x * (t + d)) by (nonlinear_arith);
        assert(acc.y * t + acc.y * d == acc.y * (t + d)) by (nonlinear_arith);
    }
}

/// The pool after one update for each time step in `dts`, in order.
pub open spec fn updates(s: Seq<Particle>, acc: Vec2, dts: Seq<u64>, life: Option<u64>) -> Seq<
    Particle,
>
    decreases dts.len(),
{
    if dts.len() == 0 {
        s
    } else {
        updated_pool(updates(s, acc, dts.drop_last(), life), acc, dts.last() as int, life)
    }
}

/// An update never adds particles: the pool bound that emission keeps survives any
/// sequence of updates.
pub proof fn lemma_update_never_grows(s: Seq<Particle>, acc: Vec2, dt: int, life: Option<u64>)
    ensures
        updated_pool(s, acc, dt, life).len() <= s.len(),
{
    broadcast use vstd::seq_lib::group_filter_ensures;

    assert(s.map_values(|p: Particle| step(p, acc, dt)).len() == s.len());
}

/// Right after an update, every particle whose age reached the lifetime limit is gone.
pub proof fn lemma_update_evicts_expired(s: Seq<Particle>, acc: Vec2, dt: int, life: Option<u64>)
    ensures
        forall|i: int|
            0 <= i < updated_pool(s, acc, dt, life).len() ==> alive(
                #[trigger] updated_pool(s, acc, dt, life)[i],
                life,
            ),
{
    broadcast use vstd::seq_lib::group_filter_ensures;

}

proof fn lemma_filter_keeps_all(s: Seq<Particle>, pred: spec_fn(Particle) -> bool)
    requires
        forall|p: Particle| #[trigger] pred(p),
    ensures
        s.filter(pred) == s,
    decreases s.len(),
{
    reveal(Seq::filter);
    if s.len() > 0 {
        lemma_filter_keeps_all(s.drop_last(), pred);
        assert(s.drop_last().push(s.last()) =~= s);
    }
}

/// Without a lifetime limit, a chain of updates keeps every particle, in order, and moves
/// each one as `steps` does over the same time steps.
pub proof fn lemma_updates_unbounded(s: Seq<Particle>, acc: Vec2, dts: Seq<u64>)
    ensures
        updates(s, acc, dts, None) == s.map_values(|p: Particle| steps(p, acc, dts)),
    decreases dts.len(),
{
    if dts.len() > 0 {
        let rest = dts.drop_last();
        let dt = dts.last() as int;
        lemma_updates_unbounded(s, acc, rest);
        let prev = s.map_values(|p: Particle| steps(p, acc, rest));
        let stepped = prev.map_values(|p: Particle| step(p, acc, dt));
        lemma_filter_keeps_all(stepped, |p: Particle| alive(p, None));
        assert(stepped =~= s.map_values(|p: Particle| steps(p, acc, dts)));
    }
}

/// A particle emitted into a pool without lifetime limit and then updated once for each
/// time step in `dts` is still there, with age grown by exactly the total time `T` and
/// velocity grown by exactly `acc * T`.
pub proof fn lemma_chain_accumulates(p: Particle, acc: Vec2, dts: Seq<u64>)
    requires
        steps_fit(p, acc, dts),
    ensures
        updates(seq![p], acc, dts, None) == seq![steps(p, acc, dts)],
        updates(seq![p], acc, dts, None)[0].age == p.age + total_time(dts),
        updates(seq![p], acc, dts, None)[0].vel.x == p.vel.x + acc.x * total_time(dts),
        updates(seq![p], acc, dts, None)[0].vel.y == p.vel.y + acc.y * total_time(dts),
{
    lemma_updates_unbounded(seq![p], acc, dts);
    assert(seq![p].map_values(|q: Particle| steps(q, acc, dts)) =~= seq![steps(p, acc, dts)]);
    lemma_steps_accumulate(p, acc, dts);
}

/// Every operation keeps the pool within one particle of its capacity.
pub proof fn lemma_pool_bounded(s: &ParticleSystem)
    requires
        s.wf(),
    ensures
        s.pool().len() <= s.capacity() + 1,
{
}

} // verus!
