//! The declarative form of an action: triggers, a context with hints, and
//! placement strategies, all stated in terms of syntax-tree node kinds.

use vstd::prelude::*;
use crate::document::{SyntaxNode, arena_wf, findup, has_ancestor_of_kind, nearest_of_kind};

verus! {

/// How a node kind is matched from the cursor node.
#[derive(Clone, Copy, Debug, PartialEq, Eq, Structural)]
pub enum Relation {
    /// Matches the cursor node or any of its ancestors.
    Findup,
    /// Matches the cursor node only.
    Exact,
}

/// Where and how generated text is put relative to the placement node.
#[derive(Clone, Copy, Debug, PartialEq, Eq, Structural)]
pub enum Position {
    /// Replace the node's lines, reindenting the text to the node's column.
    ReplaceBlock,
    /// Replace exactly the node's span with the text as it is.
    ReplaceExact,
    /// Insert the reindented text as new lines above the node.
    Before,
}

/// A predicate on the node under the cursor.
#[derive(Clone, Debug)]
pub struct Trigger {
    pub kind: String,
    pub relation: Relation,
}

/// A named structural query whose first match feeds the prompt template.
#[derive(Clone, Debug)]
pub struct Hint {
    pub name: String,
    pub query: String,
}

/// The node that an action's hints and placements are evaluated in.
#[derive(Clone, Debug)]
pub struct Context {
    pub kind: String,
    pub relation: Relation,
    pub hints: Vec<Hint>,
}

/// A structural query and what to do at its first match.
#[derive(Clone, Debug)]
pub struct PlacementStrategy {
    pub query: String,
    pub position: Position,
}

/// One declaratively defined action.
#[derive(Clone, Debug)]
pub struct CodeAction {
    /// The name of the code action.
    pub name: String,
    /// The triggers that activate this code action.
    pub triggers: Vec<Trigger>,
    /// The context in which this code action is applicable.
    pub context: Context,
    /// The placement strategies, tried in order.
    pub placement_strategies: Vec<PlacementStrategy>,
    /// The template used to generate the prompt for this code action.
    pub prompt_template: String,
    /// The template used to embed the answer, if any.
    pub answer_template: Option<String>,
}

/// The actions that one configuration file defines.
#[derive(Clone, Debug)]
pub struct CodeActionConfig {
    pub code_actions: Vec<CodeAction>,
}

/// A node of kind `kind` is found from `start` under `relation`.
pub open spec fn matches_from(
    nodes: Seq<SyntaxNode>,
    kind: Seq<char>,
    relation: Relation,
    start: Option<usize>,
) -> bool {
    match start {
        None => false,
        Some(i) => match relation {
            Relation::Exact => nodes[i as int].kind@ == kind,
            Relation::Findup => has_ancestor_of_kind(nodes, i as int, kind),
        },
    }
}

/// `r` is what resolving a context of kind `kind` from `start` yields: the
/// start node itself under `Exact`, the nearest ancestor under `Findup`.
pub open spec fn resolved_from(
    nodes: Seq<SyntaxNode>,
    kind: Seq<char>,
    relation: Relation,
    start: Option<usize>,
    r: Option<usize>,
) -> bool {
    match start {
        None => r is None,
        Some(i) => match relation {
            Relation::Exact => r == (if nodes[i as int].kind@ == kind {
                Some(i)
            } else {
                None
            }),
            Relation::Findup => match r {
                None => !has_ancestor_of_kind(nodes, i as int, kind),
                Some(a) => nearest_of_kind(nodes, i as int, kind, a as int),
            },
        },
    }
}

impl Trigger {
    /// Whether the trigger fires at the cursor node; never without one.
    pub fn is_triggered(&self, nodes: &Vec<SyntaxNode>, start_node: Option<usize>) -> (r: bool)
        requires
            arena_wf(nodes@),
            start_node matches Some(i) ==> i < nodes.len(),
        ensures
            r == matches_from(nodes@, self.kind@, self.relation, start_node),
    {
        match start_node {
            None => false,
            Some(i) => match self.relation {
                Relation::Findup => findup(nodes, Some(i), &self.kind).is_some(),
                Relation::Exact => nodes[i].kind == self.kind,
            },
        }
    }
}

impl Context {
    /// The context node for the cursor node.
    pub fn find(&self, nodes: &Vec<SyntaxNode>, start_node: Option<usize>) -> (r: Option<usize>)
        requires
            arena_wf(nodes@),
            start_node matches Some(i) ==> i < nodes.len(),
        ensures
            resolved_from(nodes@, self.kind@, self.relation, start_node, r),
            r matches Some(a) ==> a < nodes.len(),
    {
        match start_node {
            None => None,
            Some(i) => match self.relation {
                Relation::Findup => findup(nodes, Some(i), &self.kind),
                Relation::Exact => {
                    if nodes[i].kind == self.kind {
                        Some(i)
                    } else {
                        None
                    }
                },
            },
        }
    }
}

} // verus!
