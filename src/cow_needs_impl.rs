use vstd::prelude::*;

verus! {

/// The kind of an item that the copy-on-write pass looks at.
#[derive(Clone, Copy, Debug, PartialEq, Eq, Structural)]
pub enum ItemKind {
    Trait,
    Enum,
    Struct,
    Union,
    Other,
}

/// The check that an item calls for.
#[derive(Clone, Copy, Debug, PartialEq, Eq, Structural)]
pub enum ItemCheck {
    /// Look at the implementations of a newly declared trait.
    NewTrait,
    /// Look at a newly declared type.
    NewType,
    Nothing,
}

pub open spec fn item_check(kind: ItemKind) -> ItemCheck {
    match kind {
        ItemKind::Trait => ItemCheck::NewTrait,
        ItemKind::Enum | ItemKind::Struct | ItemKind::Union => ItemCheck::NewType,
        ItemKind::Other => ItemCheck::Nothing,
    }
}

/// A pass that looks for types lacking a trait implementation that a
/// copy-on-write wrapper needs; only its dispatch on item kinds is settled.
#[derive(Clone, Copy, Debug)]
pub struct CowNeedsImpl;

impl CowNeedsImpl {
    /// Which check an item of the given kind calls for.
    pub fn check_item(&self, kind: ItemKind) -> (r: ItemCheck)
        ensures
            r == item_check(kind),
    {
        match kind {
            ItemKind::Trait => ItemCheck::NewTrait,
            ItemKind::Enum | ItemKind::Struct | ItemKind::Union => ItemCheck::NewType,
            ItemKind::Other => ItemCheck::Nothing,
        }
    }
}

} // verus!
