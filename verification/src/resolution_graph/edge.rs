//! The kinds of relationship between declarations.
use vstd::prelude::*;

verus! {

/// Whether a relationship runs one way or both ways.
#[derive(Debug, Clone, Copy, PartialEq, Eq, PartialOrd, Ord, Hash, Structural)]
pub enum Direction {
    Directed,
    Undirected,
}

/// The kind of relationship that an edge represents. The order of the variants
/// is the order in which edges to the same topic are sorted.
#[derive(Debug, Clone, Copy, PartialEq, Eq, PartialOrd, Ord, Hash, Structural)]
pub enum EdgeType {
    ContainsMember,
    ContainsLocal,
    ContainsField,
    Calls,
    References,
    Implements,
    ProxyOf,
    WritesState,
    UsingFor,
    ModifierApplied,
    ErrorThrown,
    EventEmitted,
    Derives,
    ReExports,
    MutatesField,
}

/// A single-precision weight, held as its bit pattern.
#[derive(Debug, Clone, Copy, PartialEq, Eq, Structural)]
pub struct Weight {
    pub bits: u32,
}

/// The bit patterns of the weights in use: 0.4, 0.5, 0.6, 0.7, 0.8, 0.9, 1.0 and
/// 1.2.
pub const WEIGHT_0_4: u32 = 0x3ECC_CCCD;

pub const WEIGHT_0_5: u32 = 0x3F00_0000;

pub const WEIGHT_0_6: u32 = 0x3F19_999A;

pub const WEIGHT_0_7: u32 = 0x3F33_3333;

pub const WEIGHT_0_8: u32 = 0x3F4C_CCCD;

pub const WEIGHT_0_9: u32 = 0x3F66_6666;

pub const WEIGHT_1_0: u32 = 0x3F80_0000;

pub const WEIGHT_1_2: u32 = 0x3F99_999A;

impl EdgeType {
    /// The place of an edge type in the order of edge types.
    pub open spec fn place(self) -> int {
        match self {
            EdgeType::ContainsMember => 0,
            EdgeType::ContainsLocal => 1,
            EdgeType::ContainsField => 2,
            EdgeType::Calls => 3,
            EdgeType::References => 4,
            EdgeType::Implements => 5,
            EdgeType::ProxyOf => 6,
            EdgeType::WritesState => 7,
            EdgeType::UsingFor => 8,
            EdgeType::ModifierApplied => 9,
            EdgeType::ErrorThrown => 10,
            EdgeType::EventEmitted => 11,
            EdgeType::Derives => 12,
            EdgeType::ReExports => 13,
            EdgeType::MutatesField => 14,
        }
    }

    pub open spec fn weight(self) -> Weight {
        Weight {
            bits: match self {
                EdgeType::ContainsMember => WEIGHT_1_0,
                EdgeType::ContainsLocal => WEIGHT_1_2,
                EdgeType::ContainsField => WEIGHT_1_0,
                EdgeType::Calls => WEIGHT_0_7,
                EdgeType::References => WEIGHT_0_5,
                EdgeType::Implements => WEIGHT_0_8,
                EdgeType::ProxyOf => WEIGHT_0_9,
                EdgeType::WritesState => WEIGHT_0_7,
                EdgeType::UsingFor => WEIGHT_0_5,
                EdgeType::ModifierApplied => WEIGHT_0_5,
                EdgeType::ErrorThrown => WEIGHT_0_4,
                EdgeType::EventEmitted => WEIGHT_0_4,
                EdgeType::Derives => WEIGHT_0_6,
                EdgeType::ReExports => WEIGHT_0_4,
                EdgeType::MutatesField => WEIGHT_0_7,
            },
        }
    }

    pub open spec fn both_ways(self) -> bool {
        ||| self is ContainsMember
        ||| self is ContainsLocal
        ||| self is ContainsField
        ||| self is Implements
        ||| self is UsingFor
        ||| self is ModifierApplied
        ||| self is Derives
    }

    pub fn rank(&self) -> (r: u8)
        ensures
            r == self.place(),
    {
        match self {
            EdgeType::ContainsMember => 0,
            EdgeType::ContainsLocal => 1,
            EdgeType::ContainsField => 2,
            EdgeType::Calls => 3,
            EdgeType::References => 4,
            EdgeType::Implements => 5,
            EdgeType::ProxyOf => 6,
            EdgeType::WritesState => 7,
            EdgeType::UsingFor => 8,
            EdgeType::ModifierApplied => 9,
            EdgeType::ErrorThrown => 10,
            EdgeType::EventEmitted => 11,
            EdgeType::Derives => 12,
            EdgeType::ReExports => 13,
            EdgeType::MutatesField => 14,
        }
    }

    /// The starting weight of this edge type.
    pub fn default_weight(self) -> (r: Weight)
        ensures
            r == self.weight(),
    {
        let bits: u32 = match self {
            EdgeType::ContainsMember => WEIGHT_1_0,
            EdgeType::ContainsLocal => WEIGHT_1_2,
            EdgeType::ContainsField => WEIGHT_1_0,
            EdgeType::Calls => WEIGHT_0_7,
            EdgeType::References => WEIGHT_0_5,
            EdgeType::Implements => WEIGHT_0_8,
            EdgeType::ProxyOf => WEIGHT_0_9,
            EdgeType::WritesState => WEIGHT_0_7,
            EdgeType::UsingFor => WEIGHT_0_5,
            EdgeType::ModifierApplied => WEIGHT_0_5,
            EdgeType::ErrorThrown => WEIGHT_0_4,
            EdgeType::EventEmitted => WEIGHT_0_4,
            EdgeType::Derives => WEIGHT_0_6,
            EdgeType::ReExports => WEIGHT_0_4,
            EdgeType::MutatesField => WEIGHT_0_7,
        };
        Weight { bits }
    }

    /// Whether the relationship is directed or undirected.
    pub fn directionality(self) -> (r: Direction)
        ensures
            r == if self.both_ways() {
                Direction::Undirected
            } else {
                Direction::Directed
            },
    {
        match self {
            EdgeType::ContainsMember
            | EdgeType::ContainsLocal
            | EdgeType::ContainsField
            | EdgeType::Implements
            | EdgeType::UsingFor
            | EdgeType::ModifierApplied
            | EdgeType::Derives => Direction::Undirected,
            EdgeType::Calls
            | EdgeType::References
            | EdgeType::ProxyOf
            | EdgeType::WritesState
            | EdgeType::ErrorThrown
            | EdgeType::EventEmitted
            | EdgeType::ReExports
            | EdgeType::MutatesField => Direction::Directed,
        }
    }
}

} // verus!
