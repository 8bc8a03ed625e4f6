//! The type checker's data: arenas of types and of nodes, addressed by
//! numbered ids.

use vstd::prelude::*;

verus! {

/// A number that names an item of an arena.
pub trait ArenaId: Clone + Copy + Sized {
    /// The number of this id.
    spec fn number(self) -> u32;

    fn from_u32(id: u32) -> (r: Self)
        ensures
            r.number() == id,
    ;

    fn as_u32(self) -> (r: u32)
        ensures
            r == self.number(),
    ;
}

/// Items of one kind, kept in the order they were added.
pub struct Arena<Item, Id: ArenaId> {
    nodes: Vec<Item>,
    id: core::marker::PhantomData<Id>,
}

impl<Item, Id: ArenaId> Arena<Item, Id> {
    /// The items, first added first.
    pub closed spec fn items(&self) -> Seq<Item> {
        self.nodes@
    }

    pub fn new() -> (r: Self)
        ensures
            r.items() == Seq::<Item>::empty(),
    {
        Arena { nodes: Vec::new(), id: core::marker::PhantomData }
    }

    /// Adds `item` at the end, and returns the id numbered with how many
    /// items there are now. That number is one past the position of
    /// `item`.
    pub fn add(&mut self, item: Item) -> (id: Id)
        requires
            old(self).items().len() < u32::MAX,
        ensures
            final(self).items() == old(self).items().push(item),
            id.number() == final(self).items().len(),
    {
        self.nodes.push(item);
        Id::from_u32(self.nodes.len() as u32)
    }

    /// The item at the position that `id` numbers.
    pub fn get(&self, id: Id) -> (r: &Item)
        requires
            id.number() < self.items().len(),
        ensures
            *r == self.items()[id.number() as int],
    {
        &self.nodes[id.as_u32() as usize]
    }
}

/// A type.
pub enum Type {
    Atom(String),
    String,
    Int,
    Bool,
    Float,
    MapOf(TypeId, TypeId),
    Record(Vec<(String, TypeId)>),
    Tuple(Vec<TypeId>),
    List(TypeId),
    Variable(TypeId),
    Union(Vec<TypeId>),
    Intersection(Vec<TypeId>),
}

pub enum Pattern {
    Tuple(Vec<()>),
}

pub struct MatchPattern {
    pattern: Pattern,
    body: NodeId,
}

pub enum Node {
    Producer { constraint: TypeId },
    Match { input: NodeId, patterns: Vec<MatchPattern> },
    Application { callee: NodeId, arguments: Vec<NodeId> },
    Consumer { from: NodeId, constraint: TypeId },
}

#[derive(Clone, Copy, PartialEq, Eq, Structural)]
pub struct NodeId(u32);

impl ArenaId for NodeId {
    closed spec fn number(self) -> u32 {
        self.0
    }

    fn from_u32(id: u32) -> (r: Self) {
        NodeId(id)
    }

    fn as_u32(self) -> (r: u32) {
        self.0
    }
}

#[derive(Clone, Copy, PartialEq, Eq, Structural)]
pub struct TypeId(u32);

impl ArenaId for TypeId {
    closed spec fn number(self) -> u32 {
        self.0
    }

    fn from_u32(id: u32) -> (r: Self) {
        TypeId(id)
    }

    fn as_u32(self) -> (r: u32) {
        self.0
    }
}

/// The arenas of the type checker.
pub struct TypeEngine {
    types: Arena<Type, TypeId>,
    nodes: Arena<Node, NodeId>,
}

impl TypeEngine {
    pub closed spec fn types(&self) -> Seq<Type> {
        self.types.items()
    }

    pub closed spec fn nodes(&self) -> Seq<Node> {
        self.nodes.items()
    }

    pub fn new() -> (r: Self)
        ensures
            r.types() == Seq::<Type>::empty(),
            r.nodes() == Seq::<Node>::empty(),
    {
        TypeEngine { types: Arena::new(), nodes: Arena::new() }
    }
}

} // verus!
