//! Nodes of graphs.

use vstd::prelude::*;
use vstd::string::*;

verus! {

/// What every node offers: its identifier.
pub trait Node: Sized {
    /// The identifier of this node.
    spec fn spec_id(&self) -> Seq<char>;

    /// The identifier of this node.
    fn id(&self) -> (r: String)
        ensures
            r@ == self.spec_id(),
    ;
}

/// A node with an identifier and some data.
#[derive(Debug, Clone)]
pub struct GenericNode<T> {
    id: String,
    data: T,
}

impl<T> GenericNode<T> {
    /// The identifier of this node.
    pub closed spec fn node_id(&self) -> Seq<char> {
        self.id@
    }

    /// The data of this node.
    pub closed spec fn node_data(&self) -> T {
        self.data
    }

    /// A node with the given identifier and data.
    pub fn new(id: &str, data: T) -> (n: Self)
        ensures
            n.node_id() == id@,
            n.node_data() == data,
    {
        GenericNode { id: String::from_str(id), data }
    }

    /// The node's data.
    pub fn data(&self) -> (d: &T)
        ensures
            *d == self.node_data(),
    {
        &self.data
    }

    /// The node's data, for changing it.
    pub fn data_mut(&mut self) -> (d: &mut T)
        ensures
            *d == old(self).node_data(),
            final(self).node_id() == old(self).node_id(),
            final(self).node_data() == *final(d),
    {
        &mut self.data
    }
}

impl<T> Node for GenericNode<T> {
    open spec fn spec_id(&self) -> Seq<char> {
        self.node_id()
    }

    fn id(&self) -> (r: String) {
        self.id.clone()
    }
}

} // verus!
