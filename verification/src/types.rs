//! The recipes of a justfile as the server publishes them.
use vstd::prelude::*;
use crate::parser::ast::queries::AttributeInfo;

verus! {

/// A recipe of a justfile.
#[derive(Debug, Clone)]
pub struct JustTask {
    pub name: String,
    /// The commands, one per line.
    pub body: String,
    pub parameters: Vec<Parameter>,
    /// Recipes run before this one.
    pub dependencies: Vec<String>,
    /// Comment lines above the recipe, without the `#`.
    pub comments: Vec<String>,
    pub line_number: usize,
    /// Group given by a `[group(..)]` attribute.
    pub group: Option<String>,
    /// Hidden from listings.
    pub is_private: bool,
    /// Message asked before running, from `[confirm]`.
    pub confirm_message: Option<String>,
    /// Documentation from a `[doc(..)]` attribute.
    pub doc: Option<String>,
    /// The attributes written above the recipe.
    pub attributes: Vec<AttributeInfo>,
}

/// A parameter of a recipe.
#[derive(Debug, Clone)]
pub struct Parameter {
    pub name: String,
    pub default: Option<String>,
    pub description: Option<String>,
}

} // verus!
