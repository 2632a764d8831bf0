//! The toolbar's selectable block icons and their mapping to block
//! materials. The icon ring cycles through every placeable material.
use vstd::prelude::*;

use crate::block::MaterialType;

verus! {

/// One selectable block icon.
#[derive(Copy, Clone, Debug, PartialEq, Eq, Structural)]
#[allow(non_camel_case_types)]
pub enum IconType {
    ROCK,
    GRASS,
    DIRT,
    WATER,
    DEBUG,
}

impl IconType {
    /// All icons, in toolbar order.
    pub fn all() -> (r: Vec<IconType>)
        ensures
            r@ == seq![
                IconType::ROCK,
                IconType::GRASS,
                IconType::DIRT,
                IconType::WATER,
                IconType::DEBUG,
            ],
    {
        let mut v: Vec<IconType> = Vec::new();
        v.push(IconType::ROCK);
        v.push(IconType::GRASS);
        v.push(IconType::DIRT);
        v.push(IconType::WATER);
        v.push(IconType::DEBUG);
        proof {
            assert(v@ =~= seq![
                IconType::ROCK,
                IconType::GRASS,
                IconType::DIRT,
                IconType::WATER,
                IconType::DEBUG,
            ]);
        }
        v
    }

    /// The next icon in the ring.
    pub open spec fn spec_next(self) -> IconType {
        match self {
            IconType::ROCK => IconType::GRASS,
            IconType::GRASS => IconType::DIRT,
            IconType::DIRT => IconType::WATER,
            IconType::WATER => IconType::DEBUG,
            IconType::DEBUG => IconType::ROCK,
        }
    }

    pub fn next(self) -> (r: IconType)
        ensures
            r == self.spec_next(),
    {
        match self {
            IconType::ROCK => IconType::GRASS,
            IconType::GRASS => IconType::DIRT,
            IconType::DIRT => IconType::WATER,
            IconType::WATER => IconType::DEBUG,
            IconType::DEBUG => IconType::ROCK,
        }
    }

    /// The previous icon in the ring: the inverse of `next`.
    pub open spec fn spec_prev(self) -> IconType {
        match self {
            IconType::ROCK => IconType::DEBUG,
            IconType::DEBUG => IconType::WATER,
            IconType::WATER => IconType::DIRT,
            IconType::DIRT => IconType::GRASS,
            IconType::GRASS => IconType::ROCK,
        }
    }

    pub fn prev(self) -> (r: IconType)
        ensures
            r == self.spec_prev(),
            r.spec_next() == self,
    {
        match self {
            IconType::ROCK => IconType::DEBUG,
            IconType::DEBUG => IconType::WATER,
            IconType::WATER => IconType::DIRT,
            IconType::DIRT => IconType::GRASS,
            IconType::GRASS => IconType::ROCK,
        }
    }

    /// The material this icon places.
    pub open spec fn spec_to_material(self) -> MaterialType {
        match self {
            IconType::ROCK => MaterialType::ROCK,
            IconType::GRASS => MaterialType::GRASS,
            IconType::DIRT => MaterialType::DIRT,
            IconType::WATER => MaterialType::WATER,
            IconType::DEBUG => MaterialType::DEBUG,
        }
    }

    pub fn to_material(&self) -> (r: MaterialType)
        ensures
            r == self.spec_to_material(),
    {
        match self {
            IconType::ROCK => MaterialType::ROCK,
            IconType::GRASS => MaterialType::GRASS,
            IconType::DIRT => MaterialType::DIRT,
            IconType::WATER => MaterialType::WATER,
            IconType::DEBUG => MaterialType::DEBUG,
        }
    }

    /// The icon of a material; air has none. Inverse of `to_material`.
    pub fn from_material(mat: MaterialType) -> (r: Option<IconType>)
        ensures
            match r {
                Some(icon) => icon.spec_to_material() == mat,
                None => mat == MaterialType::AIR,
            },
    {
        match mat {
            MaterialType::ROCK => Some(IconType::ROCK),
            MaterialType::GRASS => Some(IconType::GRASS),
            MaterialType::DIRT => Some(IconType::DIRT),
            MaterialType::WATER => Some(IconType::WATER),
            MaterialType::DEBUG => Some(IconType::DEBUG),
            MaterialType::AIR => None,
        }
    }
}

} // verus!
