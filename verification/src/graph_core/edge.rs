//! Edges of graphs.

use vstd::prelude::*;
use vstd::string::*;
use crate::ids::{Uuid, uuid_text};

verus! {

/// What every edge offers: its identifier and the nodes it connects.
pub trait Edge: Sized {
    /// The identifier of this edge.
    spec fn spec_id(&self) -> Seq<char>;

    /// The source node id.
    spec fn spec_source(&self) -> Seq<char>;

    /// The target node id.
    spec fn spec_target(&self) -> Seq<char>;

    /// The identifier of this edge.
    fn id(&self) -> (r: String)
        ensures
            r@ == self.spec_id(),
    ;

    /// The source node id.
    fn source(&self) -> (r: String)
        ensures
            r@ == self.spec_source(),
    ;

    /// The target node id.
    fn target(&self) -> (r: String)
        ensures
            r@ == self.spec_target(),
    ;
}

/// Direction of an edge.
#[derive(Debug, Clone, Copy, PartialEq, Eq, Structural)]
pub enum Direction {
    /// From source to target only
    Directed,
    /// Traversable both ways
    Undirected,
    /// Explicitly both ways (two directed edges)
    Bidirectional,
}

/// An edge between two nodes, with some data.
#[derive(Debug, Clone)]
pub struct GenericEdge<T> {
    id: String,
    source: String,
    target: String,
    direction: Direction,
    data: T,
}

impl<T> GenericEdge<T> {
    /// The identifier of this edge.
    pub closed spec fn edge_id(&self) -> Seq<char> {
        self.id@
    }

    /// The source node id.
    pub closed spec fn edge_source(&self) -> Seq<char> {
        self.source@
    }

    /// The target node id.
    pub closed spec fn edge_target(&self) -> Seq<char> {
        self.target@
    }

    /// The direction.
    pub closed spec fn edge_direction(&self) -> Direction {
        self.direction
    }

    /// The data.
    pub closed spec fn edge_data(&self) -> T {
        self.data
    }

    /// A directed edge with a fresh random identifier (the text of a new UUID).
    pub fn new(source: &str, target: &str, data: T) -> (e: Self)
        ensures
            exists|u: u128| e.edge_id() == uuid_text(u),
            e.edge_source() == source@,
            e.edge_target() == target@,
            e.edge_direction() == Direction::Directed,
            e.edge_data() == data,
    {
        let u = Uuid::new_v4();
        GenericEdge {
            id: u.to_string(),
            source: String::from_str(source),
            target: String::from_str(target),
            direction: Direction::Directed,
            data,
        }
    }

    /// A directed edge with the given identifier.
    pub fn with_id(id: &str, source: &str, target: &str, data: T) -> (e: Self)
        ensures
            e.edge_id() == id@,
            e.edge_source() == source@,
            e.edge_target() == target@,
            e.edge_direction() == Direction::Directed,
            e.edge_data() == data,
    {
        GenericEdge {
            id: String::from_str(id),
            source: String::from_str(source),
            target: String::from_str(target),
            direction: Direction::Directed,
            data,
        }
    }

    /// An undirected edge with a fresh random identifier (the text of a new UUID).
    pub fn undirected(source: &str, target: &str, data: T) -> (e: Self)
        ensures
            exists|u: u128| e.edge_id() == uuid_text(u),
            e.edge_source() == source@,
            e.edge_target() == target@,
            e.edge_direction() == Direction::Undirected,
            e.edge_data() == data,
    {
        let u = Uuid::new_v4();
        GenericEdge {
            id: u.to_string(),
            source: String::from_str(source),
            target: String::from_str(target),
            direction: Direction::Undirected,
            data,
        }
    }

    /// The edge's direction.
    pub fn direction(&self) -> (d: Direction)
        ensures
            d == self.edge_direction(),
    {
        self.direction
    }

    /// Sets the edge's direction; nothing else changes.
    pub fn set_direction(&mut self, direction: Direction)
        ensures
            final(self).edge_direction() == direction,
            final(self).edge_id() == old(self).edge_id(),
            final(self).edge_source() == old(self).edge_source(),
            final(self).edge_target() == old(self).edge_target(),
            final(self).edge_data() == old(self).edge_data(),
    {
        self.direction = direction;
    }

    /// The edge's data.
    pub fn data(&self) -> (d: &T)
        ensures
            *d == self.edge_data(),
    {
        &self.data
    }

    /// The edge's data, for changing it.
    pub fn data_mut(&mut self) -> (d: &mut T)
        ensures
            *d == old(self).edge_data(),
            final(self).edge_data() == *final(d),
            final(self).edge_id() == old(self).edge_id(),
            final(self).edge_source() == old(self).edge_source(),
            final(self).edge_target() == old(self).edge_target(),
            final(self).edge_direction() == old(self).edge_direction(),
    {
        &mut self.data
    }
}

impl<T> Edge for GenericEdge<T> {
    open spec fn spec_id(&self) -> Seq<char> {
        self.edge_id()
    }

    open spec fn spec_source(&self) -> Seq<char> {
        self.edge_source()
    }

    open spec fn spec_target(&self) -> Seq<char> {
        self.edge_target()
    }

    fn id(&self) -> (r: String) {
        self.id.clone()
    }

    fn source(&self) -> (r: String) {
        self.source.clone()
    }

    fn target(&self) -> (r: String) {
        self.target.clone()
    }
}

} // verus!
