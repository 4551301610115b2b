//! What a scene entity can be: its primitive shape and the kinds of entity
//! the editor spawns.

use vstd::prelude::*;
use crate::editor::CompKind;
use crate::text::{push_str};

verus! {

/// A primitive mesh shape.
#[derive(Clone, Copy, Debug, PartialEq, Eq, Structural)]
pub enum PrimitiveShape {
    Cube,
    Sphere,
    Plane,
    Torus,
    Cylinder,
    Cone,
    Capsule,
    Icosphere,
}

impl PrimitiveShape {
    /// Every shape, in menu order.
    pub const ALL: [PrimitiveShape; 8] = [
        PrimitiveShape::Cube,
        PrimitiveShape::Sphere,
        PrimitiveShape::Plane,
        PrimitiveShape::Torus,
        PrimitiveShape::Cylinder,
        PrimitiveShape::Cone,
        PrimitiveShape::Capsule,
        PrimitiveShape::Icosphere,
    ];

    /// The shape's display name.
    pub open spec fn spec_label(self) -> Seq<char> {
        match self {
            PrimitiveShape::Cube => "Cube"@,
            PrimitiveShape::Sphere => "Sphere"@,
            PrimitiveShape::Plane => "Plane"@,
            PrimitiveShape::Torus => "Torus"@,
            PrimitiveShape::Cylinder => "Cylinder"@,
            PrimitiveShape::Cone => "Cone"@,
            PrimitiveShape::Capsule => "Capsule"@,
            PrimitiveShape::Icosphere => "Icosphere"@,
        }
    }

    /// The shape's display name.
    pub fn label(&self) -> (r: &'static str)
        ensures
            r@ == self.spec_label(),
    {
        match self {
            PrimitiveShape::Cube => "Cube",
            PrimitiveShape::Sphere => "Sphere",
            PrimitiveShape::Plane => "Plane",
            PrimitiveShape::Torus => "Torus",
            PrimitiveShape::Cylinder => "Cylinder",
            PrimitiveShape::Cone => "Cone",
            PrimitiveShape::Capsule => "Capsule",
            PrimitiveShape::Icosphere => "Icosphere",
        }
    }
}

impl Default for PrimitiveShape {
    fn default() -> (r: Self)
        ensures
            r == PrimitiveShape::Cube,
    {
        PrimitiveShape::Cube
    }
}

/// What can be spawned into the scene.
#[derive(Clone, Copy, Debug, PartialEq, Eq, Structural)]
pub enum SpawnKind {
    Empty,
    Shape(PrimitiveShape),
    PointLight,
    DirectionalLight,
    SpotLight,
}

impl SpawnKind {
    /// The display name, also used as the spawned entity's name.
    pub open spec fn spec_label(self) -> Seq<char> {
        match self {
            SpawnKind::Empty => "Empty Entity"@,
            SpawnKind::Shape(s) => s.spec_label(),
            SpawnKind::PointLight => "Point Light"@,
            SpawnKind::DirectionalLight => "Directional Light"@,
            SpawnKind::SpotLight => "Spot Light"@,
        }
    }

    /// The display name, also used as the spawned entity's name.
    pub fn label(&self) -> (r: String)
        ensures
            r@ == self.spec_label(),
    {
        let text: &str = match self {
            SpawnKind::Empty => "Empty Entity",
            SpawnKind::Shape(s) => s.label(),
            SpawnKind::PointLight => "Point Light",
            SpawnKind::DirectionalLight => "Directional Light",
            SpawnKind::SpotLight => "Spot Light",
        };
        let mut r = String::new();
        push_str(&mut r, text);
        assert(r@ =~= text@);
        r
    }
}

/// The editable components a freshly spawned entity of `kind` gets (besides
/// its name, transform and visibility): a shape gets a primitive mesh and a
/// material, a light its light component, an empty entity nothing.
pub open spec fn spawn_components_spec(kind: SpawnKind) -> Seq<CompKind> {
    match kind {
        SpawnKind::Empty => Seq::empty(),
        SpawnKind::Shape(_) => seq![CompKind::PrimitiveMesh, CompKind::PbrDef],
        SpawnKind::PointLight => seq![CompKind::PointLight],
        SpawnKind::DirectionalLight => seq![CompKind::DirectionalLight],
        SpawnKind::SpotLight => seq![CompKind::SpotLight],
    }
}

impl SpawnKind {
    /// The editable components a freshly spawned entity of this kind gets.
    pub fn components(&self) -> (r: Vec<CompKind>)
        ensures
            r@ == spawn_components_spec(*self),
    {
        let mut r = Vec::new();
        match self {
            SpawnKind::Empty => {},
            SpawnKind::Shape(_) => {
                r.push(CompKind::PrimitiveMesh);
                r.push(CompKind::PbrDef);
            },
            SpawnKind::PointLight => {
                r.push(CompKind::PointLight);
            },
            SpawnKind::DirectionalLight => {
                r.push(CompKind::DirectionalLight);
            },
            SpawnKind::SpotLight => {
                r.push(CompKind::SpotLight);
            },
        }
        assert(r@ =~= spawn_components_spec(*self));
        r
    }
}

/// One cube of the demo scene's ring.
#[derive(Clone, Debug)]
pub struct DemoCube {
    /// `Cube <i>`.
    pub name: String,
    /// Index into the ring's four colours.
    pub color_index: usize,
    /// Every other cube, starting with the first, spins.
    pub rotates: bool,
}

/// Number of cubes in the demo scene's ring.
pub const DEMO_CUBES: usize = 8;

/// Number of colours the ring's cubes cycle through.
pub const DEMO_CUBE_COLORS: usize = 4;

/// The demo scene's ring of cubes, in order around the ring.
pub fn demo_cubes() -> (r: Vec<DemoCube>)
    ensures
        r@.len() == DEMO_CUBES,
        forall|i: int|
            0 <= i < DEMO_CUBES ==> {
                &&& (#[trigger] r@[i]).name@ == "Cube "@ + crate::text::decimal(i as nat)
                &&& r@[i].color_index == i % (DEMO_CUBE_COLORS as int)
                &&& r@[i].rotates == (i % 2 == 0)
            },
{
    let mut r: Vec<DemoCube> = Vec::new();
    let mut i: usize = 0;
    while i < DEMO_CUBES
        invariant
            i <= DEMO_CUBES,
            r@.len() == i,
            forall|j: int|
                0 <= j < i ==> {
                    &&& (#[trigger] r@[j]).name@ == "Cube "@ + crate::text::decimal(j as nat)
                    &&& r@[j].color_index == j % (DEMO_CUBE_COLORS as int)
                    &&& r@[j].rotates == (j % 2 == 0)
                },
        decreases DEMO_CUBES - i,
    {
        let mut name = String::new();
        push_str(&mut name, "Cube ");
        crate::text::push_decimal(&mut name, i as u64);
        r.push(DemoCube { name, color_index: i % DEMO_CUBE_COLORS, rotates: i % 2 == 0 });
        i = i + 1;
    }
    r
}

} // verus!
