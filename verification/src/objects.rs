//! Bodies: a shape with a material, a velocity and a role, and the
//! integrator that moves them.

use vstd::prelude::*;
use crate::geometry::Point;
use crate::shapes::{SandboxError, Shape, MAX_AREA};
use crate::units::{
    div_toward_zero,
    floor_sqrt,
    isqrt,
    lemma_product_bound,
    magnitude,
    per_scale,
    sat_i32,
    sat_i64,
    saturate_i32,
    saturate_i64,
    SCALE,
};

verus! {

/// How a body takes part in the simulation.
#[derive(Clone, Copy, Debug, PartialEq, Eq, Structural)]
pub enum PhysicsType {
    /// Never moves.
    Static,
    /// Moved by gravity, drag and its velocity.
    Dynamic,
    /// Moved by its velocity alone.
    Kinematic,
}

/// Density of air, in hundredths of a mass unit per square unit.
pub const AIR_DENSITY: u32 = 129;

/// The acceleration a new body falls with, in raw units per second squared.
pub const DEFAULT_GRAVITY: i32 = 9_810_000;

/// Density: `mass / area`, in raw units, rounded down.
pub open spec fn density_of(mass: int, area: int) -> int {
    (mass * SCALE) / area
}

/// Mass, area and the density that follows from them.
#[derive(Clone, Copy, Debug, PartialEq, Eq, Structural)]
pub struct Material {
    pub(crate) mass: u64,
    pub(crate) area: u64,
    pub(crate) density: u128,
}

impl Material {
    /// The invariant: the area is positive and the density is the mass per
    /// area.
    #[verifier::type_invariant]
    pub open(crate) spec fn well_formed(&self) -> bool {
        self.area > 0 && self.density == density_of(self.mass as int, self.area as int)
    }

    pub open(crate) spec fn spec_mass(&self) -> u64 {
        self.mass
    }

    pub open(crate) spec fn spec_area(&self) -> u64 {
        self.area
    }

    pub open(crate) spec fn spec_density(&self) -> u128 {
        self.density
    }

    /// The material of the given mass and positive area.
    pub open(crate) spec fn of(mass: int, area: int) -> Material {
        Material { mass: mass as u64, area: area as u64, density: density_of(mass, area) as u128 }
    }

    /// Computes [`density_of`].
    fn derive_density(mass: u64, area: u64) -> (d: u128)
        requires
            area > 0,
        ensures
            d == density_of(mass as int, area as int),
    {
        proof {
            lemma_product_bound(mass as int, SCALE as int, u64::MAX as int, SCALE as int);
        }
        ((mass as u128) * (SCALE as u128)) / (area as u128)
    }

    /// A material of the given mass spread over the given area.  An area of
    /// zero is refused.
    pub fn new(mass: u64, area: u64) -> (r: Result<Material, SandboxError>)
        ensures
            area == 0 ==> r == Err::<Material, SandboxError>(SandboxError::ZeroArea),
            area > 0 ==> (r matches Ok(m) && m == Material::of(mass as int, area as int)
                && m.spec_mass() == mass && m.spec_area() == area && m.spec_density()
                == density_of(mass as int, area as int) && m.well_formed()),
    {
        if area == 0 {
            Err(SandboxError::ZeroArea)
        } else {
            Ok(Material { mass, area, density: Material::derive_density(mass, area) })
        }
    }

    #[verifier::when_used_as_spec(spec_mass)]
    pub fn mass(&self) -> (m: u64)
        ensures
            m == self.spec_mass(),
    {
        self.mass
    }

    #[verifier::when_used_as_spec(spec_area)]
    pub fn area(&self) -> (a: u64)
        ensures
            a == self.spec_area(),
            a > 0,
    {
        proof {
            use_type_invariant(self);
        }
        self.area
    }

    #[verifier::when_used_as_spec(spec_density)]
    pub fn density(&self) -> (d: u128)
        ensures
            d == self.spec_density(),
            d == density_of(self.spec_mass() as int, self.spec_area() as int),
    {
        proof {
            use_type_invariant(self);
        }
        self.density
    }

    /// Changes the mass; the density follows.
    pub fn set_mass(&mut self, mass: u64)
        ensures
            final(self).spec_mass() == mass,
            final(self).spec_area() == old(self).spec_area(),
            final(self).spec_density() == density_of(mass as int, old(self).spec_area() as int),
            final(self).well_formed(),
    {
        proof {
            use_type_invariant(&*self);
        }
        *self = Material {
            mass,
            area: self.area,
            density: Material::derive_density(mass, self.area),
        };
    }

    /// Changes the area; the density follows.  An area of zero is refused
    /// and leaves the material as it was.
    pub fn set_area(&mut self, area: u64) -> (r: Result<(), SandboxError>)
        ensures
            area == 0 ==> r == Err::<(), SandboxError>(SandboxError::ZeroArea) && *final(self)
                == *old(self),
            area > 0 ==> r == Ok::<(), SandboxError>(()) && final(self).spec_mass() == old(self).spec_mass() && final(self).spec_area() == area && final(self).spec_density()
                == density_of(old(self).spec_mass() as int, area as int) && final(self).well_formed(),
    {
        if area == 0 {
            Err(SandboxError::ZeroArea)
        } else {
            *self = Material {
                mass: self.mass,
                area,
                density: Material::derive_density(self.mass, area),
            };
            Ok(())
        }
    }

    /// The mass that, spread over `area`, has the given density, rounded
    /// down.
    pub open spec fn mass_for(density: int, area: int) -> int {
        (density * area) / (SCALE as int)
    }

    /// Changes the mass to the one that gives the wanted density, rounded
    /// down; the density is then derived from that mass.  A density whose
    /// mass does not fit is refused and leaves the material as it was.
    pub fn set_density(&mut self, density: u128) -> (r: Result<(), SandboxError>)
        ensures
            Material::mass_for(density as int, old(self).spec_area() as int) > u64::MAX ==> r
                == Err::<(), SandboxError>(SandboxError::OutOfRange) && *final(self) == *old(self),
            Material::mass_for(density as int, old(self).spec_area() as int) <= u64::MAX ==> r
                == Ok::<(), SandboxError>(()) && final(self).spec_mass() == Material::mass_for(
                density as int,
                old(self).spec_area() as int,
            ) && final(self).spec_area() == old(self).spec_area() && final(self).spec_density()
                == density_of(final(self).spec_mass() as int, old(self).spec_area() as int)
                && final(self).well_formed(),
    {
        proof {
            use_type_invariant(&*self);
        }
        match density.checked_mul(self.area as u128) {
            None => {
                proof {
                    vstd::arithmetic::div_mod::lemma_div_is_ordered(
                        0x1_0000_0000_0000_0000_0000_0000_0000_0000int,
                        density * self.area,
                        SCALE as int,
                    );
                }
                Err(SandboxError::OutOfRange)
            },
            Some(product) => {
                let mass = product / (SCALE as u128);
                if mass > u64::MAX as u128 {
                    Err(SandboxError::OutOfRange)
                } else {
                    self.set_mass(mass as u64);
                    Ok(())
                }
            },
        }
    }
}

/// The density of a well-formed material is its mass per area, rounded
/// down: it errs by less than one raw unit.
pub proof fn lemma_density(m: Material)
    requires
        m.well_formed(),
    ensures
        m.spec_area() > 0,
        m.spec_density() == density_of(m.spec_mass() as int, m.spec_area() as int),
        m.spec_density() * m.spec_area() <= m.spec_mass() * SCALE,
        m.spec_mass() * SCALE < (m.spec_density() + 1) * m.spec_area(),
{
    let n = m.spec_mass() * SCALE;
    let a = m.spec_area() as int;
    vstd::arithmetic::div_mod::lemma_fundamental_div_mod(n, a);
    vstd::arithmetic::div_mod::lemma_mod_bound(n, a);
    assert(m.spec_density() * m.spec_area() == a * (n / a)) by (nonlinear_arith)
        requires
            m.spec_density() == n / a,
            m.spec_area() == a,
    ;
    assert((m.spec_density() + 1) * m.spec_area() == a * (n / a) + a) by (nonlinear_arith)
        requires
            m.spec_density() == n / a,
            m.spec_area() == a,
    ;
}

/// Magnitude of the drag deceleration of a body that moves at `v` along an
/// axis: half the air density times `v` squared times the area times the
/// drag coefficient (in hundredths), divided by the mass.  A body at rest
/// has none; a body without mass, or one whose drag exceeds the range of
/// `i64`, has the largest value of that range.
pub open spec fn drag_magnitude(v: int, area: int, coefficient: int, mass: int) -> int {
    let force = AIR_DENSITY * coefficient * (v * v) * area;
    let inertia = 20_000 * SCALE * mass;
    if force == 0 {
        0
    } else if mass == 0 || force / inertia > i64::MAX {
        i64::MAX as int
    } else {
        force / inertia
    }
}

/// The drag deceleration along an axis, signed to oppose the velocity `v`.
pub open spec fn drag_along(v: int, area: int, coefficient: int, mass: int) -> int {
    if v > 0 {
        -drag_magnitude(v, area, coefficient, mass)
    } else if v < 0 {
        drag_magnitude(v, area, coefficient, mass)
    } else {
        0
    }
}

/// A body at rest along an axis has no drag along it.
pub proof fn lemma_no_drag_at_rest(area: int, coefficient: int, mass: int)
    ensures
        drag_magnitude(0, area, coefficient, mass) == 0,
        drag_along(0, area, coefficient, mass) == 0,
{
    assert(AIR_DENSITY * coefficient * (0int * 0int) * area == 0) by (nonlinear_arith);
}

/// A velocity `v` after the acceleration `a` has acted for `dt`, kept in the
/// range of `i32`.
pub open spec fn accelerated(v: int, a: int, dt: int) -> int {
    sat_i32(v + div_toward_zero(a * dt, SCALE as int))
}

/// A coordinate `x` after moving at velocity `v` for `dt`, kept in the range
/// of `i64`.
pub open spec fn advanced(x: int, v: int, dt: int) -> int {
    sat_i64(x + div_toward_zero(v * dt, SCALE as int))
}

/// `value * dt / SCALE`, rounded toward zero.
fn over_time(value: i64, dt: u32) -> (r: i128)
    ensures
        r == div_toward_zero(value * dt, SCALE as int),
        magnitude(r as int) <= 0x8000_0000_0000_0000int * 0xffff_ffffint,
{
    proof {
        lemma_product_bound(
            magnitude(value as int),
            dt as int,
            0x8000_0000_0000_0000int,
            0xffff_ffffint,
        );
        assert(magnitude(value * dt) == magnitude(value as int) * dt) by (nonlinear_arith)
            requires
                dt >= 0,
        ;
    }
    per_scale((value as i128) * (dt as i128))
}

/// Computes [`drag_magnitude`].
fn drag_size(v: i32, area: u64, coefficient: u32, mass: u64) -> (d: i64)
    requires
        area <= MAX_AREA,
        coefficient <= 105,
    ensures
        d == drag_magnitude(v as int, area as int, coefficient as int, mass as int),
        d >= 0,
{
    let speed: u128 = if v < 0 {
        (-(v as i64)) as u128
    } else {
        v as u128
    };
    proof {
        lemma_product_bound(speed as int, speed as int, 0x8000_0000, 0x8000_0000);
        assert(speed * speed == v * v) by (nonlinear_arith)
            requires
                speed == v || speed == -v,
        ;
        lemma_product_bound(AIR_DENSITY as int, coefficient as int, 129, 105);
        lemma_product_bound(
            AIR_DENSITY * coefficient,
            speed * speed,
            129int * 105int,
            0x8000_0000int * 0x8000_0000int,
        );
        lemma_product_bound(
            AIR_DENSITY * coefficient * (speed * speed),
            area as int,
            129int * 105int * (0x8000_0000int * 0x8000_0000int),
            MAX_AREA as int,
        );
        lemma_product_bound(20_000 * SCALE, mass as int, 20_000 * SCALE, u64::MAX as int);
    }
    let force: u128 = (AIR_DENSITY as u128) * (coefficient as u128) * (speed * speed) * (
    area as u128);
    if force == 0 {
        0
    } else if mass == 0 {
        i64::MAX
    } else {
        let inertia: u128 = 20_000 * (SCALE as u128) * (mass as u128);
        let q = force / inertia;
        if q > i64::MAX as u128 {
            i64::MAX
        } else {
            q as i64
        }
    }
}

/// A body of the simulation.
#[derive(Clone, Copy, Debug, PartialEq, Eq, Structural)]
pub struct Object {
    pub shape: Shape,
    pub material: Material,
    /// Velocity along x, in raw units per second.
    pub dx: i32,
    /// Velocity along y, in raw units per second.
    pub dy: i32,
    /// Acceleration along y that acts on the body while it is dynamic.
    pub gravity: i32,
    /// Whether drag acts on the body while it is dynamic.
    pub air_resistance: bool,
    pub phys_type: PhysicsType,
    /// Set to have the body removed at the next frame boundary.
    pub to_be_deleted: bool,
}

impl Object {
    pub open spec fn well_formed(&self) -> bool {
        self.shape.well_formed() && self.material.well_formed()
    }

    /// Whether collision resolution leaves the body where it is.
    pub open spec fn is_fixed(&self) -> bool {
        self.phys_type is Static
    }

    /// The drag decelerations along x and y at the current velocity, each
    /// opposing the velocity on its axis; zero where air resistance is
    /// switched off.
    pub open spec fn drag(&self) -> (int, int) {
        if self.air_resistance {
            (
                drag_along(
                    self.dx as int,
                    self.shape.area(),
                    self.shape.drag_coefficient(),
                    self.material.spec_mass() as int,
                ),
                drag_along(
                    self.dy as int,
                    self.shape.area(),
                    self.shape.drag_coefficient(),
                    self.material.spec_mass() as int,
                ),
            )
        } else {
            (0, 0)
        }
    }

    /// The body carried along by its velocity for `dt`.
    pub open spec fn drifted(&self, dt: int) -> Object {
        Object {
            shape: self.shape.at(
                Point {
                    x: advanced(self.shape.pos().x as int, self.dx as int, dt) as i64,
                    y: advanced(self.shape.pos().y as int, self.dy as int, dt) as i64,
                },
            ),
            ..*self
        }
    }

    /// The body with gravity applied to its velocity for `dt`.
    pub open spec fn fallen(&self, dt: int) -> Object {
        Object { dy: accelerated(self.dy as int, self.gravity as int, dt) as i32, ..*self }
    }

    /// The body with drag applied to its velocity for `dt`.
    pub open spec fn slowed(&self, dt: int) -> Object {
        Object {
            dx: accelerated(self.dx as int, self.drag().0, dt) as i32,
            dy: accelerated(self.dy as int, self.drag().1, dt) as i32,
            ..*self
        }
    }

    /// The body after one integration step of length `dt`: a static body
    /// is unchanged, a kinematic body drifts, a dynamic body falls, is
    /// slowed by drag and then drifts at its new velocity.
    pub open spec fn stepped(&self, dt: int) -> Object {
        match self.phys_type {
            PhysicsType::Static => *self,
            PhysicsType::Kinematic => self.drifted(dt),
            PhysicsType::Dynamic => self.fallen(dt).slowed(dt).drifted(dt),
        }
    }

    /// A body at rest with default gravity and air resistance.
    pub open spec fn spec_new(shape: Shape, material: Material, phys_type: PhysicsType) -> Object {
        Object {
            shape,
            material,
            dx: 0,
            dy: 0,
            gravity: DEFAULT_GRAVITY,
            air_resistance: true,
            phys_type,
            to_be_deleted: false,
        }
    }

    /// A body at rest whose material has the given mass and the area of the
    /// shape, unless that area is zero.
    pub open spec fn spec_create(shape: Shape, mass: int, phys_type: PhysicsType) -> Result<
        Object,
        SandboxError,
    > {
        if shape.area() == 0 {
            Err(SandboxError::ZeroArea)
        } else {
            Ok(Object::spec_new(shape, Material::of(mass, shape.area()), phys_type))
        }
    }

    /// Whether the body is static.
    #[verifier::when_used_as_spec(is_fixed)]
    pub fn is_static(&self) -> (r: bool)
        ensures
            r == self.is_fixed(),
    {
        match self.phys_type {
            PhysicsType::Static => true,
            _ => false,
        }
    }

    /// A body at rest with default gravity and air resistance.
    #[verifier::when_used_as_spec(spec_new)]
    pub fn new(shape: Shape, material: Material, phys_type: PhysicsType) -> (o: Object)
        ensures
            o == Object::spec_new(shape, material, phys_type),
    {
        Object {
            shape,
            material,
            dx: 0,
            dy: 0,
            gravity: DEFAULT_GRAVITY,
            air_resistance: true,
            phys_type,
            to_be_deleted: false,
        }
    }

    /// A body at rest whose material has the given mass and the area of the
    /// shape.  A shape whose area rounds down to zero is refused.
    pub fn create(shape: Shape, mass: u64, phys_type: PhysicsType) -> (r: Result<
        Object,
        SandboxError,
    >)
        ensures
            r == Object::spec_create(shape, mass as int, phys_type),
            r matches Ok(o) ==> o.material.well_formed() && o.material.spec_mass() == mass
                && o.material.spec_area() == shape.area(),
    {
        match Material::new(mass, shape.get_area()) {
            Ok(material) => Ok(Object::new(shape, material, phys_type)),
            Err(e) => Err(e),
        }
    }

    /// Carries the body along by its velocity for `dt` raw time units.
    pub fn movement_process(&mut self, dt: u32)
        ensures
            *final(self) == old(self).drifted(dt as int),
    {
        let dx = self.dx;
        let dy = self.dy;
        let pos = self.shape.get_pos();
        let x = saturate_i64(pos.x as i128 + over_time(dx as i64, dt));
        let y = saturate_i64(pos.y as i128 + over_time(dy as i64, dt));
        *pos = Point { x, y };
    }

    /// One integration step of `dt` raw time units (microseconds).
    pub fn physics_process(&mut self, dt: u32)
        ensures
            *final(self) == old(self).stepped(dt as int),
    {
        match self.phys_type {
            PhysicsType::Static => {},
            PhysicsType::Dynamic => {
                self.dy = saturate_i32(self.dy as i128 + over_time(self.gravity as i64, dt));
                let (ax, ay) = self.get_drag();
                if self.dx != 0 {
                    self.dx = saturate_i32(self.dx as i128 + over_time(ax, dt));
                }
                if self.dy != 0 {
                    self.dy = saturate_i32(self.dy as i128 + over_time(ay, dt));
                }
                proof {
                    assert(0 * dt == 0);
                }
                self.movement_process(dt);
            },
            PhysicsType::Kinematic => {
                self.movement_process(dt);
            },
        }
    }

    /// The drag decelerations along x and y, in raw units per second
    /// squared.
    pub fn get_drag(&self) -> (a: (i64, i64))
        ensures
            (a.0 as int, a.1 as int) == self.drag(),
    {
        if !self.air_resistance {
            return (0, 0);
        }
        let area = self.shape.get_area();
        let coefficient = self.shape.get_drag_coefficient();
        let mass = self.material.mass();
        let x = drag_size(self.dx, area, coefficient, mass);
        let y = drag_size(self.dy, area, coefficient, mass);
        proof {
            lemma_no_drag_at_rest(area as int, coefficient as int, mass as int);
        }
        (
            if self.dx > 0 {
                -x
            } else {
                x
            },
            if self.dy > 0 {
                -y
            } else {
                y
            },
        )
    }

    /// The speed scale `sqrt(2 * mass * air density * area * drag
    /// coefficient)`, rounded down.
    pub open spec fn terminal_velocity(&self) -> int {
        floor_sqrt(
            (2 * self.material.spec_mass() * self.shape.area() * AIR_DENSITY
                * self.shape.drag_coefficient()) / 10_000,
        )
    }

    pub fn get_terminal_velocity(&self) -> (v: u64)
        ensures
            v == self.terminal_velocity(),
    {
        let area = self.shape.get_area();
        let coefficient = self.shape.get_drag_coefficient();
        let mass = self.material.mass();
        proof {
            lemma_product_bound(2 * mass, area as int, 2 * u64::MAX, MAX_AREA as int);
            lemma_product_bound(
                2 * mass * area,
                AIR_DENSITY as int,
                2 * u64::MAX * MAX_AREA,
                129,
            );
            lemma_product_bound(
                2 * mass * area * AIR_DENSITY,
                coefficient as int,
                2 * u64::MAX * MAX_AREA * 129,
                105,
            );
        }
        let product: u128 = 2 * (mass as u128) * (area as u128) * (AIR_DENSITY as u128) * (
        coefficient as u128);
        isqrt(product / 10_000)
    }

    /// The role, for reading and changing.
    pub fn get_physics_type(&mut self) -> (t: &mut PhysicsType)
        ensures
            *t == old(self).phys_type,
            *final(self) == (Object { phys_type: *final(t), ..*old(self) }),
    {
        &mut self.phys_type
    }

    pub fn set_physics_type(&mut self, new_type: PhysicsType)
        ensures
            *final(self) == (Object { phys_type: new_type, ..*old(self) }),
    {
        self.phys_type = new_type;
    }

    /// A copy of the shape, for drawing.
    pub fn get_render_shape(&self) -> (s: Shape)
        ensures
            s == self.shape,
    {
        self.shape
    }

    /// The shape, for reading and changing.  After a change of size,
    /// [`Object::update_material`] brings the material up to date.
    pub fn get_render_shape_reference(&mut self) -> (s: &mut Shape)
        ensures
            *s == old(self).shape,
            *final(self) == (Object { shape: *final(s), ..*old(self) }),
    {
        &mut self.shape
    }

    /// The material, for reading and changing.
    pub fn get_material(&mut self) -> (m: &mut Material)
        ensures
            *m == old(self).material,
            *final(self) == (Object { material: *final(m), ..*old(self) }),
    {
        &mut self.material
    }

    /// Takes the area of the material from the shape as it now is and
    /// derives the density anew from the unchanged mass.  If the area of the
    /// shape rounds down to zero the material stays as it was.
    pub fn update_material(&mut self) -> (r: Result<(), SandboxError>)
        ensures
            old(self).shape.area() == 0 ==> r == Err::<(), SandboxError>(SandboxError::ZeroArea)
                && *final(self) == *old(self),
            old(self).shape.area() > 0 ==> r == Ok::<(), SandboxError>(()) && final(self).material.spec_mass() == old(self).material.spec_mass() && final(self).material.spec_area() == old(self).shape.area() && final(self).material.spec_density() == density_of(
                old(self).material.spec_mass() as int,
                old(self).shape.area(),
            ) && final(self).material.well_formed() && *final(self) == (Object {
                material: final(self).material,
                ..*old(self)
            }),
    {
        let area = self.shape.get_area();
        self.material.set_area(area)
    }

    /// The deletion mark, for reading and changing.
    pub fn get_to_be_deleted(&mut self) -> (d: &mut bool)
        ensures
            *d == old(self).to_be_deleted,
            *final(self) == (Object { to_be_deleted: *final(d), ..*old(self) }),
    {
        &mut self.to_be_deleted
    }

    /// The velocity along x and y.
    pub fn get_velocity(&self) -> (v: (i32, i32))
        ensures
            v == (self.dx, self.dy),
    {
        (self.dx, self.dy)
    }

    pub fn set_velocity(&mut self, velocity: (i32, i32))
        ensures
            *final(self) == (Object { dx: velocity.0, dy: velocity.1, ..*old(self) }),
    {
        self.dx = velocity.0;
        self.dy = velocity.1;
    }

    /// The gravity of the body, for reading and changing.
    pub fn get_gravity(&mut self) -> (g: &mut i32)
        ensures
            *g == old(self).gravity,
            *final(self) == (Object { gravity: *final(g), ..*old(self) }),
    {
        &mut self.gravity
    }
}

} // verus!
