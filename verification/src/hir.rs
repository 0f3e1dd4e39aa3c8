//! The part of the typed program representation that deployment metadata is
//! read from: modules, actors and their behaviors.

use vstd::prelude::*;

use crate::ast::IndexDecl;

verus! {

/// How a state field is kept.
#[derive(Debug, Clone, PartialEq, Eq)]
pub enum StateModel {
    Local,
    Durable,
    EventSourced,
    Crdt(String),
}

/// A state field.
#[derive(Debug, Clone, PartialEq, Eq)]
pub struct StateField {
    pub name: String,
    pub model: StateModel,
}

/// A behavior of an actor.
#[derive(Debug, Clone, PartialEq, Eq)]
pub struct BehaviorDef {
    pub name: String,
    /// Whether the behavior has a compensation.
    pub compensates: bool,
    pub parallel_branches: Option<Vec<String>>,
}

/// An actor.
#[derive(Debug, Clone, PartialEq, Eq)]
pub struct ActorDef {
    pub name: String,
    pub persistent: bool,
    pub state_fields: Vec<StateField>,
    pub indexes: Vec<IndexDecl>,
    pub behaviors: Vec<BehaviorDef>,
    pub is_organization: bool,
    pub is_workflow: bool,
    pub is_agent: bool,
}

/// A declaration.
#[derive(Debug, PartialEq, Eq)]
pub enum Decl {
    Actor(ActorDef),
    Module { name: String, decls: Vec<Decl> },
    Other,
}

/// A module.
#[derive(Debug, PartialEq, Eq)]
pub struct Module {
    pub name: String,
    pub decls: Vec<Decl>,
}

} // verus!
