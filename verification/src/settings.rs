use vstd::prelude::*;

use crate::types::Type;

verus! {

/// A host-declared external state slot, visible to script code by name.
/// Its index must match the host's own getter/setter dispatch table.
#[derive(Clone, Debug)]
pub struct Property {
    pub name: String,
    pub ty: Type,
    pub index: usize,
}

/// The model of a property, over Seq<char>.
pub struct PropertyV {
    pub name: Seq<char>,
    pub ty: Type,
    pub index: usize,
}

impl Property {
    pub open spec fn model(self) -> PropertyV {
        PropertyV { name: self.name@, ty: self.ty, index: self.index }
    }
}

pub open spec fn properties_model(ps: Seq<Property>) -> Seq<PropertyV> {
    ps.map_values(|p: Property| p.model())
}

/// What the host hands the compiler: the properties it exposes, and
/// whether the optimization passes should run.
#[derive(Clone, Debug)]
pub struct CompileSettings {
    pub properties: Vec<Property>,
    pub enable_optimisations: bool,
}

impl CompileSettings {
    /// How many symbols are pre-registered as properties. Property
    /// symbols occupy ids `0 .. num_properties()`.
    pub fn num_properties(&self) -> (r: usize)
        ensures
            r == self.properties@.len(),
    {
        self.properties.len()
    }
}


/// A host-side value that can stand behind a script property: scripts
/// see every property as a plain 32-bit value.
pub trait TapirProperty {
    fn to_i32(&self) -> i32;

    fn set_from_i32(&mut self, value: i32);
}

impl TapirProperty for i32 {
    fn to_i32(&self) -> (r: i32)
        ensures
            r == *self,
    {
        *self
    }

    fn set_from_i32(&mut self, value: i32)
        ensures
            *final(self) == value,
    {
        *self = value;
    }
}

impl TapirProperty for bool {
    fn to_i32(&self) -> (r: i32)
        ensures
            r == (if *self {
                1i32
            } else {
                0i32
            }),
    {
        if *self {
            1
        } else {
            0
        }
    }

    fn set_from_i32(&mut self, value: i32)
        ensures
            *final(self) == (value != 0),
    {
        *self = value != 0;
    }
}

} // verus!
