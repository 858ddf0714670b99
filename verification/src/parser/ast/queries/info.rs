//! Structured records extracted from query results.
use vstd::prelude::*;
use crate::text::{
    owned, push_str, trim, str_trim, contains, str_contains, is_number_literal,
    is_number_literal_exec, unicode_lowercase, to_lowercase, join, join_strings, str_eq,
};

verus! {

/// Views of a sequence of strings.
pub open spec fn strs(v: Seq<String>) -> Seq<Seq<char>> {
    v.map_values(|s: String| s@)
}

/// View of an optional string.
pub open spec fn opt_str(o: Option<String>) -> Option<Seq<char>> {
    match o {
        Some(s) => Some(s@),
        None => None,
    }
}

/// A recipe found in a justfile.
#[derive(Debug)]
pub struct RecipeInfo {
    pub name: String,
    pub line_number: usize,
    pub has_parameters: bool,
    pub has_dependencies: bool,
    pub has_body: bool,
}

/// A recipe parameter.
#[derive(Debug)]
pub struct ParameterInfo {
    pub name: String,
    pub default_value: Option<String>,
    pub is_variadic: bool,
    /// Required when it has no default and is not variadic.
    pub is_required: bool,
    /// Description taken from comments.
    pub description: Option<String>,
    /// Type inferred from the default value or the name.
    pub parameter_type: ParameterType,
    /// Default expression before evaluation.
    pub raw_default: Option<String>,
    /// Start (row, column) of the parameter name.
    pub position: Option<(usize, usize)>,
}

/// Type of a parameter, inferred from its default value or its name.
#[derive(Debug, Clone, Copy, PartialEq, Eq)]
pub enum ParameterType {
    String,
    Number,
    Boolean,
    Path,
    Array,
    Unknown,
}

/// A comment line.
#[derive(Debug)]
pub struct CommentInfo {
    pub text: String,
    pub line_number: usize,
}

/// A dependency of a recipe.
#[derive(Debug)]
pub struct DependencyInfo {
    /// The recipe to run first.
    pub name: String,
    /// Arguments passed to it.
    pub arguments: Vec<String>,
    /// Whether it only runs under a condition.
    pub is_conditional: bool,
    /// The condition, for conditional dependencies.
    pub condition: Option<String>,
    /// Start (row, column) of the dependency name.
    pub position: Option<(usize, usize)>,
    /// Kind of dependency.
    pub dependency_type: DependencyType,
}

/// Kind of a dependency.
#[derive(Debug, Clone, Copy, PartialEq, Eq)]
pub enum DependencyType {
    Simple,
    Parameterized,
    Conditional,
    Complex,
}

/// A `{{...}}` interpolation.
#[derive(Debug)]
pub struct InterpolationInfo {
    /// The expression between the braces.
    pub expression: String,
    /// The whole interpolation, braces included.
    pub full_text: String,
    pub interpolation_type: InterpolationType,
    pub position: Option<(usize, usize)>,
    pub is_nested: bool,
    pub context: InterpolationContext,
}

/// Kind of an interpolated expression.
#[derive(Debug, Clone, Copy, PartialEq, Eq)]
pub enum InterpolationType {
    Variable,
    Expression,
    FunctionCall,
    Arithmetic,
    Conditional,
}

/// Where an interpolation appears.
#[derive(Debug, Clone, Copy, PartialEq, Eq)]
pub enum InterpolationContext {
    RecipeBody,
    ParameterDefault,
    Assignment,
    Dependency,
    StringLiteral,
    Comment,
    Unknown,
}

/// A string literal.
#[derive(Debug)]
pub struct StringInfo {
    /// Content without the quotes, escapes processed.
    pub content: String,
    /// Text as written in the source.
    pub raw_text: String,
    pub string_type: StringType,
    /// Interpolations inside the string.
    pub interpolations: Vec<InterpolationInfo>,
    pub has_escapes: bool,
    pub position: Option<(usize, usize)>,
    /// Content with interpolations marked.
    pub processed_content: Option<String>,
}

/// Kind of a string literal.
#[derive(Debug, Clone, Copy, PartialEq, Eq)]
pub enum StringType {
    Quoted,
    Multiline,
    ExternalCommand,
    Raw,
    Interpolated,
}

/// An expression.
#[derive(Debug)]
pub struct ExpressionInfo {
    pub expression: String,
    pub expression_type: ExpressionType,
    pub sub_expressions: Vec<ExpressionInfo>,
    /// Identifiers referenced by the expression.
    pub variable_references: Vec<String>,
    pub position: Option<(usize, usize)>,
    /// Whether it can be evaluated without variables.
    pub is_static: bool,
    pub context: ExpressionContext,
}

/// Kind of an expression.
#[derive(Debug, Clone, Copy, PartialEq, Eq)]
pub enum ExpressionType {
    Variable,
    StringLiteral,
    NumericLiteral,
    BooleanLiteral,
    FunctionCall,
    BinaryOperation,
    UnaryOperation,
    Conditional,
    Parenthesized,
    ExternalCommand,
    InterpolatedString,
    Unknown,
}

/// Where an expression appears.
#[derive(Debug, Clone, Copy, PartialEq, Eq)]
pub enum ExpressionContext {
    ParameterDefault,
    Assignment,
    Interpolation,
    FunctionArgument,
    ConditionalCondition,
    Dependency,
    RecipeBody,
    Unknown,
}

impl Clone for InterpolationInfo {
    fn clone(&self) -> (c: Self)
        ensures
            c == *self,
    {
        InterpolationInfo {
            expression: self.expression.clone(),
            full_text: self.full_text.clone(),
            interpolation_type: self.interpolation_type,
            position: self.position,
            is_nested: self.is_nested,
            context: self.context,
        }
    }
}

/// Type inferred from a default value.
pub open spec fn spec_type_from_default(d: Seq<char>) -> ParameterType {
    let t = trim(d);
    if t == "true"@ || t == "false"@ {
        ParameterType::Boolean
    } else if is_number_literal(t) {
        ParameterType::Number
    } else if contains(t, "/"@) || contains(t, "."@) {
        ParameterType::Path
    } else {
        ParameterType::String
    }
}

/// Type inferred from a parameter name.
pub open spec fn spec_type_from_name(name: Seq<char>) -> ParameterType {
    let l = unicode_lowercase(name);
    if contains(l, "path"@) || contains(l, "file"@) || contains(l, "dir"@) || contains(l, "directory"@)
        || contains(l, "input"@) || contains(l, "output"@) {
        ParameterType::Path
    } else if contains(l, "count"@) || contains(l, "limit"@) || contains(l, "size"@) || contains(l, "port"@)
        || contains(l, "timeout"@) || contains(l, "iterations"@) || contains(l, "interval"@) {
        ParameterType::Number
    } else if contains(l, "enable"@) || contains(l, "disable"@) || contains(l, "verbose"@) || contains(l, "debug"@)
        || contains(l, "force"@) {
        ParameterType::Boolean
    } else {
        ParameterType::String
    }
}

/// Display name of a parameter type.
pub open spec fn spec_parameter_type_text(t: ParameterType) -> Seq<char> {
    match t {
        ParameterType::String => "string"@,
        ParameterType::Number => "number"@,
        ParameterType::Boolean => "boolean"@,
        ParameterType::Path => "path"@,
        ParameterType::Array => "array"@,
        ParameterType::Unknown => "unknown"@,
    }
}

impl ParameterType {
    /// Type suggested by a default value: a boolean literal, a number, a path
    /// (anything with `/` or `.`, which covers the file extensions and relative
    /// prefixes too), or else a string.
    pub fn infer_from_default(default_value: &str) -> (t: Self)
        ensures
            t == spec_type_from_default(default_value@),
    {
        let trimmed = str_trim(default_value);
        let s = trimmed.as_str();
        if str_eq(s, "true") || str_eq(s, "false") {
            return ParameterType::Boolean;
        }
        if is_number_literal_exec(s) {
            return ParameterType::Number;
        }
        if str_contains(s, "/") || str_contains(s, ".") {
            return ParameterType::Path;
        }
        ParameterType::String
    }

    /// Type suggested by words in the (lowercased) parameter name.
    pub fn infer_from_name(name: &str) -> (t: Self)
        ensures
            t == spec_type_from_name(name@),
    {
        let lower = to_lowercase(name);
        let l = lower.as_str();
        if str_contains(l, "path") || str_contains(l, "file") || str_contains(l, "dir") || str_contains(l, "directory")
            || str_contains(l, "input") || str_contains(l, "output") {
            return ParameterType::Path;
        }
        if str_contains(l, "count") || str_contains(l, "limit") || str_contains(l, "size") || str_contains(l, "port")
            || str_contains(l, "timeout") || str_contains(l, "iterations") || str_contains(l, "interval") {
            return ParameterType::Number;
        }
        if str_contains(l, "enable") || str_contains(l, "disable") || str_contains(l, "verbose")
            || str_contains(l, "debug") || str_contains(l, "force") {
            return ParameterType::Boolean;
        }
        ParameterType::String
    }

    /// Display name of the type.
    pub fn to_string(&self) -> (s: String)
        ensures
            s@ == spec_parameter_type_text(*self),
    {
        match self {
            ParameterType::String => owned("string"),
            ParameterType::Number => owned("number"),
            ParameterType::Boolean => owned("boolean"),
            ParameterType::Path => owned("path"),
            ParameterType::Array => owned("array"),
            ParameterType::Unknown => owned("unknown"),
        }
    }
}

/// Display name of a dependency kind.
pub open spec fn spec_dependency_type_text(t: DependencyType) -> Seq<char> {
    match t {
        DependencyType::Simple => "simple"@,
        DependencyType::Parameterized => "parameterized"@,
        DependencyType::Conditional => "conditional"@,
        DependencyType::Complex => "complex"@,
    }
}

impl DependencyType {
    /// Display name of the kind.
    pub fn to_string(&self) -> (s: String)
        ensures
            s@ == spec_dependency_type_text(*self),
    {
        match self {
            DependencyType::Simple => owned("simple"),
            DependencyType::Parameterized => owned("parameterized"),
            DependencyType::Conditional => owned("conditional"),
            DependencyType::Complex => owned("complex"),
        }
    }
}

/// Text of `format_dependency`: the name, the arguments in parentheses, the condition after ` if `.
pub open spec fn spec_format_dependency(d: DependencyInfo) -> Seq<char> {
    let with_args = if d.arguments@.len() > 0 {
        d.name@ + "("@ + join(strs(d.arguments@), ", "@) + ")"@
    } else {
        d.name@
    };
    match d.condition {
        Some(c) => with_args + " if "@ + c@,
        None => with_args,
    }
}

impl DependencyInfo {
    /// A dependency on a recipe by name alone.
    pub fn simple(name: String) -> (d: Self)
        ensures
            d.name == name,
            d.arguments@.len() == 0,
            !d.is_conditional,
            d.condition is None,
            d.position is None,
            d.dependency_type == DependencyType::Simple,
    {
        DependencyInfo {
            name,
            arguments: Vec::new(),
            is_conditional: false,
            condition: None,
            position: None,
            dependency_type: DependencyType::Simple,
        }
    }

    /// A dependency with arguments.
    pub fn parameterized(name: String, arguments: Vec<String>) -> (d: Self)
        ensures
            d.name == name,
            d.arguments == arguments,
            !d.is_conditional,
            d.condition is None,
            d.position is None,
            d.dependency_type == DependencyType::Parameterized,
    {
        DependencyInfo {
            name,
            arguments,
            is_conditional: false,
            condition: None,
            position: None,
            dependency_type: DependencyType::Parameterized,
        }
    }

    /// A dependency under a condition.
    pub fn conditional(name: String, condition: String) -> (d: Self)
        ensures
            d.name == name,
            d.arguments@.len() == 0,
            d.is_conditional,
            d.condition == Some(condition),
            d.position is None,
            d.dependency_type == DependencyType::Conditional,
    {
        DependencyInfo {
            name,
            arguments: Vec::new(),
            is_conditional: true,
            condition: Some(condition),
            position: None,
            dependency_type: DependencyType::Conditional,
        }
    }

    /// A dependency with arguments and a condition.
    pub fn complex(name: String, arguments: Vec<String>, condition: String) -> (d: Self)
        ensures
            d.name == name,
            d.arguments == arguments,
            d.is_conditional,
            d.condition == Some(condition),
            d.position is None,
            d.dependency_type == DependencyType::Complex,
    {
        DependencyInfo {
            name,
            arguments,
            is_conditional: true,
            condition: Some(condition),
            position: None,
            dependency_type: DependencyType::Complex,
        }
    }

    /// Whether arguments are passed.
    pub fn has_arguments(&self) -> (b: bool)
        ensures
            b == (self.arguments@.len() > 0),
    {
        self.arguments.len() > 0
    }

    /// Whether the dependency is conditional and carries its condition.
    pub fn has_condition(&self) -> (b: bool)
        ensures
            b == (self.is_conditional && self.condition is Some),
    {
        self.is_conditional && self.condition.is_some()
    }

    /// Text form: `name(arg1, arg2) if condition`.
    pub fn format_dependency(&self) -> (s: String)
        ensures
            s@ == spec_format_dependency(*self),
    {
        let mut formatted = self.name.clone();
        if self.has_arguments() {
            push_str(&mut formatted, "(");
            let args = join_strings(&self.arguments, ", ");
            push_str(&mut formatted, args.as_str());
            push_str(&mut formatted, ")");
        }
        match &self.condition {
            Some(condition) => {
                push_str(&mut formatted, " if ");
                push_str(&mut formatted, condition.as_str());
            },
            None => {},
        }
        formatted
    }

    /// Whether the name is present and a conditional dependency has its condition.
    pub fn is_valid(&self) -> (b: bool)
        ensures
            b == (self.name@.len() > 0 && (!self.is_conditional || self.condition is Some)),
    {
        !self.name.as_str().is_empty() && (!self.is_conditional || self.condition.is_some())
    }
}

} // verus!
