//! Tree-sitter query patterns for justfiles and the settings for running them.
use vstd::prelude::*;

verus! {
/// Query pattern: complete recipe structure: name, parameters, dependencies, body.
pub const RECIPE_QUERY: &'static str = r#"
; Complete recipe with all components
(recipe
  attributes: (attribute)* @recipe.attributes
  header: (recipe_header
    name: (identifier) @recipe.name
    parameters: (parameters
      (parameter
        name: (identifier) @recipe.parameter.name
        default: (expression)? @recipe.parameter.default
      )*
    )? @recipe.parameters
    dependencies: (dependencies
      (dependency
        (identifier) @recipe.dependency.name
      )*
    )? @recipe.dependencies
  ) @recipe.header
  body: (recipe_body
    (recipe_line) @recipe.body.line
  )* @recipe.body
) @recipe

; Simple recipe without full structure (fallback)
(recipe_header
  name: (identifier) @simple.recipe.name
  parameters: (parameters)? @simple.recipe.parameters
  dependencies: (dependencies)? @simple.recipe.dependencies
) @simple.recipe.header
"#;
/// Query pattern: recipe parameters with their defaults.
pub const PARAMETER_QUERY: &'static str = r#"
; Regular parameters
(parameter
  name: (identifier) @parameter.name
  default: (expression)? @parameter.default
) @parameter

; Variadic parameters with + prefix
(parameter
  "+" @parameter.variadic.plus
  name: (identifier) @parameter.variadic.name
) @parameter.variadic.plus

; Variadic parameters with * prefix  
(parameter
  "*" @parameter.variadic.star
  name: (identifier) @parameter.variadic.name
) @parameter.variadic.star

; Space-separated parameters (justfile style)
(recipe_header
  parameters: (parameter_list
    (identifier) @parameter.space.name
    ("=" (expression))? @parameter.space.default
  )*
) @parameter.space.list

; Parameter lists
(parameters
  (parameter) @parameter.item
) @parameter.list

; Parameter expressions with defaults
(parameter_default
  value: (expression) @parameter.default.expression
) @parameter.default
"#;
/// Query pattern: recipe dependencies.
pub const DEPENDENCY_QUERY: &'static str = r#"
; Simple dependencies
(dependencies
  (dependency
    (identifier) @dependency.name
  ) @dependency.item
) @dependency.list

; Complex dependency expressions
(dependency_expression
  (identifier) @dependency.expr.name
) @dependency.expression
"#;
/// Query pattern: comments and documentation.
pub const COMMENT_QUERY: &'static str = r#"
; Line comments
(comment) @comment.line

; Comments preceding recipes (documentation)
(comment) @comment.doc
(recipe) @recipe.documented

; Comments within recipe bodies
(recipe_body
  (comment) @comment.body
)
"#;
/// Query pattern: recipe attributes.
pub const ATTRIBUTE_QUERY: &'static str = r#"
; Recipe attributes like [private], [no-cd]
(attribute
  (identifier) @attribute.name
  (expression)? @attribute.value
) @attribute

; Attribute lists on recipes
(recipe
  attributes: (attribute)+ @recipe.attribute.list
)
"#;
/// Query pattern: all identifiers.
pub const IDENTIFIER_QUERY: &'static str = r#"
; All identifiers for name resolution
(identifier) @identifier

; Recipe names specifically
(recipe_header
  name: (identifier) @recipe.name
)

; Parameter names
(parameter
  name: (identifier) @parameter.name
)

; Dependency names
(dependency
  (identifier) @dependency.name
)

; Variable assignment names
(assignment
  name: (identifier) @variable.name
)
"#;
/// Query pattern: recipe bodies and commands.
pub const BODY_QUERY: &'static str = r#"
; Recipe bodies
(recipe_body
  (recipe_line) @body.line
) @recipe.body

; Individual recipe lines/commands
(recipe_line) @command

; Shebang lines
(shebang) @shebang
"#;
/// Query pattern: variable assignments.
pub const ASSIGNMENT_QUERY: &'static str = r#"
; Variable assignments
(assignment
  name: (identifier) @assignment.name
  value: (expression) @assignment.value
) @assignment

; Assignment operators
(assignment
  ":=" @assignment.operator
)

; Export assignments  
(assignment
  "export" @assignment.export
  name: (identifier) @assignment.export.name
)
"#;
/// Query pattern: string interpolations.
pub const INTERPOLATION_QUERY: &'static str = r#"
; String interpolation expressions {{variable}}
(interpolation
  "{{" @interpolation.open
  (expression) @interpolation.expression
  "}}" @interpolation.close
) @interpolation

; Interpolation with simple variable
(interpolation
  "{{" @interpolation.var.open
  (value
    (identifier) @interpolation.var.name
  ) @interpolation.var.value
  "}}" @interpolation.var.close
) @interpolation.variable

; Interpolation with complex expression
(interpolation
  "{{" @interpolation.expr.open
  (expression
    (value) @interpolation.expr.value
  ) @interpolation.expr.expression
  "}}" @interpolation.expr.close
) @interpolation.expression

; Nested interpolation contexts
(text
  (interpolation) @interpolation.nested
)

; Recipe line interpolations
(recipe_line
  (text) @interpolation.context.text
  (interpolation) @interpolation.context.expr
)

; Parameter default value interpolations
(parameter
  default: (value
    (interpolation) @interpolation.default
  )
)
"#;
/// Query pattern: string literals.
pub const STRING_QUERY: &'static str = r#"
; String literals in various contexts
(string) @string.literal

; String with interpolation
(text
  (string) @string.with_interpolation
  (interpolation) @string.interpolation_part
)

; Quoted strings
(value
  (string) @string.quoted
)

; Multi-line strings (triple quotes)
(text
  "\"\"\"" @string.multiline.open
  "\"\"\"" @string.multiline.close
) @string.multiline

; Raw string content
(string
  "\"" @string.quote.open
  "\"" @string.quote.close
) @string.content

; External command strings (backticks)
(external_command
  "`" @string.command.open
  (command_body) @string.command.body
  "`" @string.command.close
) @string.external

; Escape sequences in strings
(string
  "\\" @string.escape.backslash
) @string.with_escapes

; String concatenation contexts
(expression
  (string) @string.concat.left
  "+" @string.concat.operator
  (string) @string.concat.right
) @string.concatenation
"#;
/// Query pattern: expressions.
pub const EXPRESSION_QUERY: &'static str = r#"
; All expression types
(expression) @expression

; Simple value expressions
(value
  (identifier) @expression.value.identifier
) @expression.value

(value
  (string) @expression.value.string
) @expression.value

; Function call expressions
(expression
  (identifier) @expression.function.name
  "(" @expression.function.paren_open
  ")" @expression.function.paren_close
) @expression.function_call

; Binary expressions (arithmetic, comparison)
(expression
  (value) @expression.binary.left
  (identifier) @expression.binary.operator
  (value) @expression.binary.right
) @expression.binary

; Conditional expressions
(expression
  "if" @expression.conditional.if
  (expression) @expression.conditional.condition
  "then" @expression.conditional.then
  (expression) @expression.conditional.true_branch
  "else" @expression.conditional.else
  (expression) @expression.conditional.false_branch
) @expression.conditional

; Parenthesized expressions
(expression
  "(" @expression.paren.open
  (expression) @expression.paren.inner
  ")" @expression.paren.close
) @expression.parenthesized

; Variable reference expressions
(expression
  (identifier) @expression.variable
) @expression.var_ref

; External command expressions
(expression
  (external_command) @expression.external_cmd
) @expression.command

; String expressions with interpolation
(expression
  (text
    (interpolation) @expression.string.interpolation
  ) @expression.string.text
) @expression.interpolated_string

; Default value expressions in parameters
(parameter
  name: (identifier) @expression.param.name
  "=" @expression.param.equals
  default: (value) @expression.param.default
) @expression.parameter_default

; Assignment value expressions
(assignment
  name: (identifier) @expression.assign.name
  ":=" @expression.assign.operator
  value: (expression) @expression.assign.value
) @expression.assignment_value
"#;
/// The predefined query patterns.
pub struct QueryPatterns {
    /// Complete recipe structure: name, parameters, dependencies, body.
    pub recipes: &'static str,
    /// Recipe parameters with their defaults.
    pub parameters: &'static str,
    /// Recipe dependencies.
    pub dependencies: &'static str,
    /// Comments and documentation.
    pub comments: &'static str,
    /// Recipe attributes.
    pub attributes: &'static str,
    /// All identifiers.
    pub identifiers: &'static str,
    /// Recipe bodies and commands.
    pub bodies: &'static str,
    /// Variable assignments.
    pub assignments: &'static str,
    /// String interpolations.
    pub interpolations: &'static str,
    /// String literals.
    pub strings: &'static str,
    /// Expressions.
    pub expressions: &'static str,
}

impl QueryPatterns {
    /// All predefined patterns.
    pub fn new() -> (p: Self)
        ensures
            p.recipes@ == RECIPE_QUERY@,
            p.parameters@ == PARAMETER_QUERY@,
            p.dependencies@ == DEPENDENCY_QUERY@,
            p.comments@ == COMMENT_QUERY@,
            p.attributes@ == ATTRIBUTE_QUERY@,
            p.identifiers@ == IDENTIFIER_QUERY@,
            p.bodies@ == BODY_QUERY@,
            p.assignments@ == ASSIGNMENT_QUERY@,
            p.interpolations@ == INTERPOLATION_QUERY@,
            p.strings@ == STRING_QUERY@,
            p.expressions@ == EXPRESSION_QUERY@,
    {
        QueryPatterns {
            recipes: RECIPE_QUERY,
            parameters: PARAMETER_QUERY,
            dependencies: DEPENDENCY_QUERY,
            comments: COMMENT_QUERY,
            attributes: ATTRIBUTE_QUERY,
            identifiers: IDENTIFIER_QUERY,
            bodies: BODY_QUERY,
            assignments: ASSIGNMENT_QUERY,
            interpolations: INTERPOLATION_QUERY,
            strings: STRING_QUERY,
            expressions: EXPRESSION_QUERY,
        }
    }
}

impl Default for QueryPatterns {
    fn default() -> (p: Self)
        ensures
            p.recipes@ == RECIPE_QUERY@,
            p.parameters@ == PARAMETER_QUERY@,
            p.dependencies@ == DEPENDENCY_QUERY@,
            p.comments@ == COMMENT_QUERY@,
            p.attributes@ == ATTRIBUTE_QUERY@,
            p.identifiers@ == IDENTIFIER_QUERY@,
            p.bodies@ == BODY_QUERY@,
            p.assignments@ == ASSIGNMENT_QUERY@,
            p.interpolations@ == INTERPOLATION_QUERY@,
            p.strings@ == STRING_QUERY@,
            p.expressions@ == EXPRESSION_QUERY@,
    {
        Self::new()
    }
}

/// Settings for running a query.
#[derive(Debug, Clone)]
pub struct QueryConfig {
    /// Largest number of matches returned; zero means no limit.
    pub max_matches: usize,
    /// Whether captures that are blank are kept.
    pub include_empty_captures: bool,
    /// Whether results are ordered by position.
    pub sort_by_position: bool,
    /// Deepest nesting followed by nested queries.
    pub max_recursion_depth: usize,
}

impl Default for QueryConfig {
    /// A thousand matches, blank captures dropped, sorted, nesting depth ten.
    fn default() -> (c: Self)
        ensures
            c.max_matches == 1000,
            !c.include_empty_captures,
            c.sort_by_position,
            c.max_recursion_depth == 10,
    {
        QueryConfig { max_matches: 1000, include_empty_captures: false, sort_by_position: true, max_recursion_depth: 10 }
    }
}

} // verus!
