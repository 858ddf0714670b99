//! Captures and match results produced by running a query over a syntax tree.
use vstd::prelude::*;
use crate::strmap::{StrMap, lookup, has_key, key_index, lemma_key_index_from};
use crate::text::{owned, trim, is_blank, usize_to_string, decimal, push_str};

verus! {

/// Kind of construct a query match describes.
#[derive(Debug, Clone, Copy, PartialEq, Eq, Structural)]
pub enum QueryResultType {
    Recipe,
    SimpleRecipe,
    Parameter,
    VariadicParameter,
    Dependency,
    Comment,
    Attribute,
    Assignment,
    Identifier,
    Body,
    Interpolation,
    VariableInterpolation,
    ExpressionInterpolation,
    StringLiteral,
    InterpolatedString,
    MultilineString,
    ExternalCommand,
    Expression,
    FunctionCall,
    BinaryExpression,
    ConditionalExpression,
    Unknown,
}

/// One captured node of a query match.
#[derive(Debug)]
pub struct QueryCapture {
    /// Source text of the node.
    pub text: String,
    /// Start (row, column), both counted from zero.
    pub start_position: (usize, usize),
    /// End (row, column).
    pub end_position: (usize, usize),
    /// Byte range in the source.
    pub byte_range: (usize, usize),
    /// Grammar kind of the node.
    pub node_kind: String,
}

/// A query match: its kind, its named captures and the pattern that matched.
#[derive(Debug)]
pub struct QueryResult {
    /// Kind of the match.
    pub result_type: QueryResultType,
    /// Captures by capture name, in the order they were recorded.
    pub captures: StrMap<QueryCapture>,
    /// Index of the pattern that matched.
    pub pattern_index: usize,
}

/// Error from compiling a query pattern.
#[derive(Debug)]
pub struct QueryCompilationError {
    /// Message of the query compiler.
    pub message: String,
    /// Byte offset of the error in the pattern.
    pub offset: usize,
    /// The pattern that failed.
    pub pattern: String,
}

impl Clone for QueryCapture {
    fn clone(&self) -> (c: Self)
        ensures
            c == *self,
    {
        QueryCapture {
            text: self.text.clone(),
            start_position: self.start_position,
            end_position: self.end_position,
            byte_range: self.byte_range,
            node_kind: self.node_kind.clone(),
        }
    }
}

/// Captures of a result, by name.
pub type CaptureSeq = Seq<(Seq<char>, QueryCapture)>;

/// First of the named captures, in the order the names are given, that is present.
pub open spec fn capture_any(m: CaptureSeq, names: Seq<Seq<char>>) -> Option<QueryCapture>
    decreases names.len(),
{
    if names.len() == 0 {
        None
    } else {
        match lookup(m, names[0]) {
            Some(c) => Some(c),
            None => capture_any(m, names.drop_first()),
        }
    }
}

/// A capture found by name is one of the captures.
pub proof fn lemma_capture_any_in(m: CaptureSeq, names: Seq<Seq<char>>)
    ensures
        capture_any(m, names) matches Some(c) ==> exists|j: int| 0 <= j < m.len() && #[trigger] m[j].1 == c,
    decreases names.len(),
{
    if names.len() > 0 {
        lemma_key_index_from(m, names[0], 0);
        match lookup(m, names[0]) {
            Some(c) => {
                let j = key_index(m, names[0])->0 as int;
                assert(m[j].1 == c);
            },
            None => {
                lemma_capture_any_in(m, names.drop_first());
            },
        }
    }
}

/// Text of the first present capture among `names`.
pub open spec fn text_any(m: CaptureSeq, names: Seq<Seq<char>>) -> Option<Seq<char>> {
    match capture_any(m, names) {
        Some(c) => Some(c.text@),
        None => None,
    }
}

/// Result kind read off the capture names present.
pub open spec fn spec_infer_type(m: CaptureSeq) -> QueryResultType {
    if has_key(m, "interpolation.variable"@) || has_key(m, "interpolation.var.name"@) {
        QueryResultType::VariableInterpolation
    } else if has_key(m, "interpolation.expression"@) || has_key(m, "interpolation.expr.expression"@) {
        QueryResultType::ExpressionInterpolation
    } else if has_key(m, "interpolation"@) || has_key(m, "interpolation.open"@) {
        QueryResultType::Interpolation
    } else if has_key(m, "string.multiline"@) {
        QueryResultType::MultilineString
    } else if has_key(m, "string.external"@) || has_key(m, "string.command.body"@) {
        QueryResultType::ExternalCommand
    } else if has_key(m, "string.with_interpolation"@) || has_key(m, "string.interpolation_part"@) {
        QueryResultType::InterpolatedString
    } else if has_key(m, "string.literal"@) || has_key(m, "string.quoted"@) {
        QueryResultType::StringLiteral
    } else if has_key(m, "expression.function_call"@) || has_key(m, "expression.function.name"@) {
        QueryResultType::FunctionCall
    } else if has_key(m, "expression.binary"@) || has_key(m, "expression.binary.operator"@) {
        QueryResultType::BinaryExpression
    } else if has_key(m, "expression.conditional"@) || has_key(m, "expression.conditional.if"@) {
        QueryResultType::ConditionalExpression
    } else if has_key(m, "expression"@) || has_key(m, "expression.value"@) {
        QueryResultType::Expression
    } else if has_key(m, "recipe.name"@) || has_key(m, "recipe"@) {
        QueryResultType::Recipe
    } else if has_key(m, "simple.recipe.name"@) {
        QueryResultType::SimpleRecipe
    } else if has_key(m, "parameter.name"@) || has_key(m, "parameter"@) {
        QueryResultType::Parameter
    } else if has_key(m, "variadic.parameter.name"@) {
        QueryResultType::VariadicParameter
    } else if has_key(m, "dependency.name"@) || has_key(m, "dependency"@) {
        QueryResultType::Dependency
    } else if has_key(m, "comment"@) || has_key(m, "comment.line"@) {
        QueryResultType::Comment
    } else if has_key(m, "attribute"@) || has_key(m, "attribute.name"@) {
        QueryResultType::Attribute
    } else if has_key(m, "assignment"@) || has_key(m, "assignment.name"@) {
        QueryResultType::Assignment
    } else if has_key(m, "identifier"@) {
        QueryResultType::Identifier
    } else if has_key(m, "body"@) || has_key(m, "command"@) {
        QueryResultType::Body
    } else {
        QueryResultType::Unknown
    }
}

/// Display name of a result kind.
pub open spec fn spec_result_type_text(t: QueryResultType) -> Seq<char> {
    match t {
        QueryResultType::Recipe => "recipe"@,
        QueryResultType::SimpleRecipe => "simple_recipe"@,
        QueryResultType::Parameter => "parameter"@,
        QueryResultType::VariadicParameter => "variadic_parameter"@,
        QueryResultType::Dependency => "dependency"@,
        QueryResultType::Comment => "comment"@,
        QueryResultType::Attribute => "attribute"@,
        QueryResultType::Assignment => "assignment"@,
        QueryResultType::Identifier => "identifier"@,
        QueryResultType::Body => "body"@,
        QueryResultType::Interpolation => "interpolation"@,
        QueryResultType::VariableInterpolation => "variable_interpolation"@,
        QueryResultType::ExpressionInterpolation => "expression_interpolation"@,
        QueryResultType::StringLiteral => "string_literal"@,
        QueryResultType::InterpolatedString => "interpolated_string"@,
        QueryResultType::MultilineString => "multiline_string"@,
        QueryResultType::ExternalCommand => "external_command"@,
        QueryResultType::Expression => "expression"@,
        QueryResultType::FunctionCall => "function_call"@,
        QueryResultType::BinaryExpression => "binary_expression"@,
        QueryResultType::ConditionalExpression => "conditional_expression"@,
        QueryResultType::Unknown => "unknown"@,
    }
}

impl QueryResultType {
    /// Display name of the kind.
    pub fn to_string(&self) -> (s: String)
        ensures
            s@ == spec_result_type_text(*self),
    {
        match self {
            QueryResultType::Recipe => owned("recipe"),
            QueryResultType::SimpleRecipe => owned("simple_recipe"),
            QueryResultType::Parameter => owned("parameter"),
            QueryResultType::VariadicParameter => owned("variadic_parameter"),
            QueryResultType::Dependency => owned("dependency"),
            QueryResultType::Comment => owned("comment"),
            QueryResultType::Attribute => owned("attribute"),
            QueryResultType::Assignment => owned("assignment"),
            QueryResultType::Identifier => owned("identifier"),
            QueryResultType::Body => owned("body"),
            QueryResultType::Interpolation => owned("interpolation"),
            QueryResultType::VariableInterpolation => owned("variable_interpolation"),
            QueryResultType::ExpressionInterpolation => owned("expression_interpolation"),
            QueryResultType::StringLiteral => owned("string_literal"),
            QueryResultType::InterpolatedString => owned("interpolated_string"),
            QueryResultType::MultilineString => owned("multiline_string"),
            QueryResultType::ExternalCommand => owned("external_command"),
            QueryResultType::Expression => owned("expression"),
            QueryResultType::FunctionCall => owned("function_call"),
            QueryResultType::BinaryExpression => owned("binary_expression"),
            QueryResultType::ConditionalExpression => owned("conditional_expression"),
            QueryResultType::Unknown => owned("unknown"),
        }
    }
}

impl QueryCapture {
    /// A capture with the given fields.
    pub fn new(
        text: String,
        start_position: (usize, usize),
        end_position: (usize, usize),
        byte_range: (usize, usize),
        node_kind: String,
    ) -> (c: Self)
        ensures
            c.text == text,
            c.start_position == start_position,
            c.end_position == end_position,
            c.byte_range == byte_range,
            c.node_kind == node_kind,
    {
        QueryCapture { text, start_position, end_position, byte_range, node_kind }
    }

    /// Whether the text is empty or whitespace only.
    pub fn is_empty(&self) -> (b: bool)
        ensures
            b == (trim(self.text@).len() == 0),
    {
        is_blank(self.text.as_str())
    }

    /// Line of the capture, counted from one.
    pub fn line_number(&self) -> (n: usize)
        requires
            self.start_position.0 < usize::MAX,
        ensures
            n == self.start_position.0 + 1,
    {
        self.start_position.0 + 1
    }

    /// Column of the capture, counted from zero.
    pub fn column_number(&self) -> (n: usize)
        ensures
            n == self.start_position.1,
    {
        self.start_position.1
    }
}

impl QueryResult {
    /// A result with the given fields.
    pub fn new(result_type: QueryResultType, captures: StrMap<QueryCapture>, pattern_index: usize) -> (r: Self)
        ensures
            r.result_type == result_type,
            r.captures@ == captures@,
            r.pattern_index == pattern_index,
    {
        QueryResult { result_type, captures, pattern_index }
    }

    /// The capture named `name`.
    pub fn get_capture(&self, name: &str) -> (c: Option<&QueryCapture>)
        ensures
            c matches Some(x) ==> lookup(self.captures@, name@) == Some(*x),
            c is None ==> lookup(self.captures@, name@) is None,
    {
        self.captures.get(name)
    }

    /// Text of the capture named `name`.
    pub fn get_text(&self, name: &str) -> (t: Option<&str>)
        ensures
            t matches Some(x) ==> lookup(self.captures@, name@) matches Some(c) && x@ == c.text@,
            t is None ==> lookup(self.captures@, name@) is None,
    {
        match self.captures.get(name) {
            Some(c) => Some(c.text.as_str()),
            None => None,
        }
    }

    /// Whether a capture named `name` is present.
    pub fn has_capture(&self, name: &str) -> (b: bool)
        ensures
            b == has_key(self.captures@, name@),
    {
        self.captures.contains_key(name)
    }

    /// Names of all captures, in capture order.
    pub fn capture_names(&self) -> (v: Vec<&String>)
        ensures
            v@.len() == self.captures@.len(),
            forall|i: int| 0 <= i < v@.len() ==> #[trigger] v@[i]@ == self.captures@[i].0,
    {
        let mut v: Vec<&String> = Vec::new();
        let n = self.captures.len();
        let mut i: usize = 0;
        while i < n
            invariant
                n == self.captures@.len(),
                i <= n,
                v@.len() == i,
                forall|j: int| 0 <= j < i ==> #[trigger] v@[j]@ == self.captures@[j].0,
            decreases n - i,
        {
            v.push(self.captures.key_at(i));
            i = i + 1;
        }
        v
    }

    /// First present capture among `names`, tried in order.
    pub fn get_any(&self, names: &[&str]) -> (c: Option<&QueryCapture>)
        ensures
            c matches Some(x) ==> capture_any(self.captures@, names@.map_values(|n: &str| n@)) == Some(*x),
            c is None ==> capture_any(self.captures@, names@.map_values(|n: &str| n@)) is None,
    {
        let ghost ns = names@.map_values(|n: &str| n@);
        assert(ns.subrange(0, ns.len() as int) =~= ns);
        let mut i: usize = 0;
        while i < names.len()
            invariant
                i <= names@.len(),
                ns == names@.map_values(|n: &str| n@),
                capture_any(self.captures@, ns) == capture_any(self.captures@, ns.subrange(i as int, ns.len() as int)),
            decreases names.len() - i,
        {
            let ghost rest = ns.subrange(i as int, ns.len() as int);
            assert(rest.drop_first() =~= ns.subrange(i + 1, ns.len() as int));
            assert(rest[0] == names@[i as int]@);
            match self.captures.get(names[i]) {
                Some(c) => {
                    return Some(c);
                },
                None => {},
            }
            i = i + 1;
        }
        None
    }

    /// Text of the first present capture among `names`.
    pub fn get_text_any(&self, names: &[&str]) -> (t: Option<&str>)
        ensures
            t matches Some(x) ==> text_any(self.captures@, names@.map_values(|n: &str| n@)) == Some(x@),
            t is None ==> text_any(self.captures@, names@.map_values(|n: &str| n@)) is None,
    {
        match self.get_any(names) {
            Some(c) => Some(c.text.as_str()),
            None => None,
        }
    }

    /// First present capture among `a` and `b`.
    pub(crate) fn capture2(&self, a: &str, b: &str) -> (c: Option<&QueryCapture>)
        ensures
            c matches Some(x) ==> capture_any(self.captures@, seq![a@, b@]) == Some(*x),
            c is None ==> capture_any(self.captures@, seq![a@, b@]) is None,
    {
        proof {
            assert(seq![a@, b@].drop_first() =~= seq![b@]);
            assert(seq![b@].drop_first() =~= Seq::<Seq<char>>::empty());
            reveal_with_fuel(capture_any, 3);
        }
        match self.get_capture(a) {
            Some(x) => Some(x),
            None => self.get_capture(b),
        }
    }

    /// First present capture among `a`, `b` and `c`.
    pub(crate) fn capture3(&self, a: &str, b: &str, c: &str) -> (r: Option<&QueryCapture>)
        ensures
            r matches Some(x) ==> capture_any(self.captures@, seq![a@, b@, c@]) == Some(*x),
            r is None ==> capture_any(self.captures@, seq![a@, b@, c@]) is None,
    {
        proof {
            assert(seq![a@, b@, c@].drop_first() =~= seq![b@, c@]);
        }
        match self.get_capture(a) {
            Some(x) => Some(x),
            None => self.capture2(b, c),
        }
    }

    /// First present capture among `a`, `b`, `c` and `d`.
    pub(crate) fn capture4(&self, a: &str, b: &str, c: &str, d: &str) -> (r: Option<&QueryCapture>)
        ensures
            r matches Some(x) ==> capture_any(self.captures@, seq![a@, b@, c@, d@]) == Some(*x),
            r is None ==> capture_any(self.captures@, seq![a@, b@, c@, d@]) is None,
    {
        proof {
            assert(seq![a@, b@, c@, d@].drop_first() =~= seq![b@, c@, d@]);
        }
        match self.get_capture(a) {
            Some(x) => Some(x),
            None => self.capture3(b, c, d),
        }
    }

    /// The first recorded capture.
    pub fn first_capture(&self) -> (c: Option<&QueryCapture>)
        ensures
            c matches Some(x) ==> self.captures@.len() > 0 && *x == self.captures@[0].1,
            c is None ==> self.captures@.len() == 0,
    {
        if self.captures.is_empty() {
            None
        } else {
            Some(self.captures.value_at(0))
        }
    }

    /// Result kind read off the capture names; the pattern index plays no part.
    pub fn infer_type(captures: &StrMap<QueryCapture>, _pattern_index: usize) -> (t: QueryResultType)
        ensures
            t == spec_infer_type(captures@),
    {
        let c = captures;
        if c.contains_key("interpolation.variable") || c.contains_key("interpolation.var.name") {
            QueryResultType::VariableInterpolation
        } else if c.contains_key("interpolation.expression") || c.contains_key("interpolation.expr.expression") {
            QueryResultType::ExpressionInterpolation
        } else if c.contains_key("interpolation") || c.contains_key("interpolation.open") {
            QueryResultType::Interpolation
        } else if c.contains_key("string.multiline") {
            QueryResultType::MultilineString
        } else if c.contains_key("string.external") || c.contains_key("string.command.body") {
            QueryResultType::ExternalCommand
        } else if c.contains_key("string.with_interpolation") || c.contains_key("string.interpolation_part") {
            QueryResultType::InterpolatedString
        } else if c.contains_key("string.literal") || c.contains_key("string.quoted") {
            QueryResultType::StringLiteral
        } else if c.contains_key("expression.function_call") || c.contains_key("expression.function.name") {
            QueryResultType::FunctionCall
        } else if c.contains_key("expression.binary") || c.contains_key("expression.binary.operator") {
            QueryResultType::BinaryExpression
        } else if c.contains_key("expression.conditional") || c.contains_key("expression.conditional.if") {
            QueryResultType::ConditionalExpression
        } else if c.contains_key("expression") || c.contains_key("expression.value") {
            QueryResultType::Expression
        } else if c.contains_key("recipe.name") || c.contains_key("recipe") {
            QueryResultType::Recipe
        } else if c.contains_key("simple.recipe.name") {
            QueryResultType::SimpleRecipe
        } else if c.contains_key("parameter.name") || c.contains_key("parameter") {
            QueryResultType::Parameter
        } else if c.contains_key("variadic.parameter.name") {
            QueryResultType::VariadicParameter
        } else if c.contains_key("dependency.name") || c.contains_key("dependency") {
            QueryResultType::Dependency
        } else if c.contains_key("comment") || c.contains_key("comment.line") {
            QueryResultType::Comment
        } else if c.contains_key("attribute") || c.contains_key("attribute.name") {
            QueryResultType::Attribute
        } else if c.contains_key("assignment") || c.contains_key("assignment.name") {
            QueryResultType::Assignment
        } else if c.contains_key("identifier") {
            QueryResultType::Identifier
        } else if c.contains_key("body") || c.contains_key("command") {
            QueryResultType::Body
        } else {
            QueryResultType::Unknown
        }
    }
}

impl Clone for QueryResult {
    fn clone(&self) -> (r: Self)
        ensures
            r.result_type == self.result_type,
            r.captures@ == self.captures@,
            r.pattern_index == self.pattern_index,
    {
        let mut captures = StrMap::new();
        let n = self.captures.len();
        let mut i: usize = 0;
        while i < n
            invariant
                n == self.captures@.len(),
                i <= n,
                captures@ == self.captures@.subrange(0, i as int),
            decreases n - i,
        {
            let k = self.captures.key_at(i).clone();
            let v = self.captures.value_at(i).clone();
            captures.push_unchecked(k, v);
            i = i + 1;
            assert(captures@ =~= self.captures@.subrange(0, i as int));
        }
        assert(self.captures@.subrange(0, n as int) =~= self.captures@);
        QueryResult { result_type: self.result_type, captures, pattern_index: self.pattern_index }
    }
}

impl QueryCompilationError {
    /// An error with the given fields.
    pub fn new(message: String, offset: usize, pattern: String) -> (e: Self)
        ensures
            e.message == message,
            e.offset == offset,
            e.pattern == pattern,
    {
        QueryCompilationError { message, offset, pattern }
    }

    /// The error message.
    pub fn to_string(&self) -> (s: String)
        ensures
            s@ == "Query compilation failed at offset "@ + decimal(self.offset as nat) + ": "@ + self.message@,
    {
        let mut s = owned("Query compilation failed at offset ");
        let o = usize_to_string(self.offset);
        push_str(&mut s, o.as_str());
        push_str(&mut s, ": ");
        push_str(&mut s, self.message.as_str());
        s
    }
}

} // verus!
