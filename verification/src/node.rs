use vstd::prelude::*;

verus! {

/// A bare tree node, the building block of hierarchy outside the rendering
/// core.
pub struct Node {
    pub children: Vec<Node>,
}

impl Node {
    /// A node with no children.
    pub fn new() -> (n: Node)
        ensures
            n.children@.len() == 0,
    {
        Node { children: Vec::<Node>::new() }
    }
}

} // verus!
