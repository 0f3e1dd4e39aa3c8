//! Declarations of a source module, as far as queries and the embedded
//! compiler read them. Types, effects and capabilities are held as the text they
//! are shown with, and an expression by the number that the front end gave it.

use vstd::prelude::*;

use crate::types::Span;

verus! {

/// The number of an expression in the front end's table.
#[derive(Debug, Clone, Copy, PartialEq, Eq, Structural)]
pub struct ExprId(pub u32);

/// A binary operator of the source language.
#[derive(Debug, Clone, Copy, PartialEq, Eq, Structural)]
pub enum BinOp {
    Add,
    Sub,
    Mul,
    Div,
    Mod,
    Eq,
    Ne,
    Lt,
    Le,
    Gt,
    Ge,
    And,
    Or,
    Concat,
}

/// A unary operator of the source language.
#[derive(Debug, Clone, Copy, PartialEq, Eq, Structural)]
pub enum UnOp {
    Neg,
    Not,
    Deref,
}

/// A parameter with its declared type and capability.
#[derive(Debug, Clone, PartialEq, Eq)]
pub struct Param {
    pub name: String,
    pub ty: Option<String>,
    pub cap: Option<String>,
}

/// A behavior of an actor.
#[derive(Debug, Clone, PartialEq, Eq)]
pub struct Behavior {
    pub name: String,
    pub params: Vec<Param>,
    pub body: ExprId,
}

/// A step of a workflow.
#[derive(Debug, Clone, Copy, PartialEq, Eq, Structural)]
pub struct WorkflowStep {
    pub body: ExprId,
    pub compensate: Option<ExprId>,
}

/// An item of a workflow: a step, or steps that run side by side.
#[derive(Debug, Clone, PartialEq, Eq)]
pub enum WorkflowItem {
    Step(WorkflowStep),
    Parallel(Vec<WorkflowStep>),
}

/// A foreign function.
#[derive(Debug, Clone, PartialEq, Eq)]
pub struct ForeignFunction {
    pub name: String,
    pub params: Vec<(String, String)>,
    pub ret: String,
    pub span: Span,
}

/// A declared index of an entity.
#[derive(Debug, Clone, PartialEq, Eq)]
pub struct IndexDecl {
    pub name: String,
    pub fields: Vec<String>,
    pub unique: bool,
    pub span: Span,
}

/// A declaration.
#[derive(Debug, PartialEq, Eq)]
pub enum Decl {
    Function {
        name: String,
        type_params: Vec<String>,
        params: Vec<Param>,
        using_params: Vec<Param>,
        ret_type: Option<String>,
        error_type: Option<String>,
        effect: Option<String>,
        cap: Option<String>,
        public: bool,
        body: ExprId,
        span: Span,
    },
    Actor {
        name: String,
        type_params: Vec<String>,
        persistent: bool,
        behaviors: Vec<Behavior>,
        state_defaults: Vec<ExprId>,
        init: Vec<ExprId>,
        span: Span,
    },
    StateMachine { name: String, span: Span },
    TypeAlias {
        name: String,
        type_params: Vec<String>,
        body: String,
        opaque: bool,
        public: bool,
        span: Span,
    },
    RecordType {
        name: String,
        type_params: Vec<String>,
        fields: Vec<(String, String)>,
        public: bool,
        span: Span,
    },
    VariantType {
        name: String,
        type_params: Vec<String>,
        variants: Vec<(String, Option<String>)>,
        public: bool,
        span: Span,
    },
    EffectDecl { name: String, span: Span },
    Module { name: String, decls: Vec<Decl>, span: Span },
    Workflow {
        name: String,
        items: Vec<WorkflowItem>,
        compensate: Option<ExprId>,
        span: Span,
    },
    Agent { name: String, model: String, span: Span },
    Database { name: String, span: Span },
    CrdtDecl { name: String, span: Span },
    NamedHandler { name: String, span: Span },
    Class { name: String, type_params: Vec<String>, span: Span },
    LetBinding { name: String, type_ann: Option<String>, mutable: bool, span: Span },
    Signal { name: String, ty: String, span: Span },
    Given { name: String, ty: Option<String>, span: Span },
    Foreign { funcs: Vec<ForeignFunction> },
    Import { path: String, span: Span },
    Impl,
}

} // verus!
