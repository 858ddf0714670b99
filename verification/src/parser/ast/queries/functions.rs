//! Function calls in expressions and their arguments.
use vstd::prelude::*;
use crate::text::{
    owned, push_str, trim, str_trim, contains, str_contains, is_number_literal, is_number_literal_exec,
    starts_with, str_starts_with, join, join_strings, chars_of, find_char, rfind_char, find_char_exec,
    rfind_char_exec, sub_chars, trim_chars, string_of, substring, is_blank, usize_to_string, decimal, str_eq,
};
use crate::sorted::{sorted_set_of, strictly_sorted};
use crate::parser::ast::queries::info::strs;
use crate::parser::ast::queries::arguments::{quoted, spec_parse_call_arguments};
use crate::parser::ast::queries::vars::{word_variables, word_vars, sorted_union};
use crate::parser::ast::queries::evaluator::{ExpressionEvaluator, all_word_chars, all_word_chars_exec};
use crate::parser::ast::queries::processor::QueryResultProcessor;

verus! {

/// Kind of a function argument.
#[derive(Debug, Clone, Copy, PartialEq, Eq)]
pub enum ArgumentType {
    StringLiteral,
    Variable,
    NumericLiteral,
    BooleanLiteral,
    Expression,
    FunctionCall,
    Conditional,
    Unknown,
}

/// Result type of a function.
#[derive(Debug, Clone, Copy, PartialEq, Eq)]
pub enum FunctionReturnType {
    String,
    Number,
    Boolean,
    List,
    Dynamic,
    Unknown,
}

/// Origin of a function.
#[derive(Debug, Clone, Copy, PartialEq, Eq)]
pub enum FunctionType {
    BuiltIn,
    UserDefined,
    ExternalCommand,
    Unknown,
}

/// One argument of a function call.
#[derive(Debug, PartialEq)]
pub struct FunctionArgument {
    /// The argument as written.
    pub value: String,
    pub argument_type: ArgumentType,
    /// Variables among its words, sorted.
    pub variables: Vec<String>,
    pub is_required: bool,
    /// Index in the argument list.
    pub position: usize,
}

/// A function call.
#[derive(Debug, PartialEq)]
pub struct FunctionCallInfo {
    pub function_name: String,
    pub arguments: Vec<FunctionArgument>,
    /// `name(arg, arg)` with the argument values.
    pub full_expression: String,
    pub return_type: FunctionReturnType,
    pub function_type: FunctionType,
    /// Variables of all arguments, sorted.
    pub argument_variables: Vec<String>,
    pub position: Option<(usize, usize)>,
    pub has_nested_calls: bool,
    pub nesting_level: usize,
}

/// Kind of an argument, read off its trimmed text.
pub open spec fn spec_argument_type(v: Seq<char>) -> ArgumentType {
    let t = trim(v);
    if quoted(t) {
        ArgumentType::StringLiteral
    } else if t == "true"@ || t == "false"@ {
        ArgumentType::BooleanLiteral
    } else if is_number_literal(t) {
        ArgumentType::NumericLiteral
    } else if contains(t, "("@) && contains(t, ")"@) {
        ArgumentType::FunctionCall
    } else if contains(t, "if"@) && contains(t, "then"@) {
        ArgumentType::Conditional
    } else if all_word_chars(t) {
        ArgumentType::Variable
    } else {
        ArgumentType::Expression
    }
}

/// `a` is the argument built from `value` at `position`.
pub open spec fn is_argument_of(a: FunctionArgument, value: Seq<char>, position: usize, required: bool) -> bool {
    &&& a.value@ == value
    &&& a.argument_type == spec_argument_type(value)
    &&& sorted_set_of(strs(a.variables@), word_variables(value, false))
    &&& a.is_required == required
    &&& a.position == position
}

/// Messages explaining why an argument is malformed.
pub open spec fn spec_argument_errors(a: FunctionArgument) -> Seq<Seq<char>> {
    (if a.value@.len() == 0 { seq!["Argument cannot be empty"@] } else { seq![] }) + match a.argument_type {
        ArgumentType::StringLiteral => if quoted(a.value@) { seq![] } else { seq!["String literal must be quoted"@] },
        ArgumentType::FunctionCall => if contains(a.value@, "("@) && contains(a.value@, ")"@) {
            seq![]
        } else {
            seq!["Function call must contain parentheses"@]
        },
        _ => seq![],
    }
}

/// Display form of an argument: variables are shown as interpolations.
pub open spec fn spec_argument_display(a: FunctionArgument) -> Seq<char> {
    match a.argument_type {
        ArgumentType::Variable => "{{"@ + a.value@ + "}}"@,
        _ => a.value@,
    }
}

/// Origin of a function, read off its name.
pub open spec fn spec_function_type(name: Seq<char>) -> FunctionType {
    if name == "env_var"@ || name == "uppercase"@ || name == "lowercase"@ || name == "trim"@ || name == "replace"@
        || name == "join"@ || name == "quote"@ || name == "path_exists"@ || name == "extension"@ || name
        == "file_name"@ || name == "parent_directory"@ {
        FunctionType::BuiltIn
    } else if starts_with(name, "`"@) || contains(name, "/"@) {
        FunctionType::ExternalCommand
    } else {
        FunctionType::UserDefined
    }
}

/// Result type of a function, read off its name.
pub open spec fn spec_return_type(name: Seq<char>) -> FunctionReturnType {
    if name == "env_var"@ || name == "uppercase"@ || name == "lowercase"@ || name == "trim"@ || name == "replace"@
        || name == "quote"@ || name == "extension"@ || name == "file_name"@ || name == "parent_directory"@ || name
        == "join"@ {
        FunctionReturnType::String
    } else if name == "path_exists"@ {
        FunctionReturnType::Boolean
    } else {
        FunctionReturnType::Unknown
    }
}

/// Values of a list of arguments.
pub open spec fn argument_values(args: Seq<FunctionArgument>) -> Seq<Seq<char>> {
    args.map_values(|a: FunctionArgument| a.value@)
}

/// Variables of all arguments together.
pub open spec fn all_argument_variables(args: Seq<FunctionArgument>) -> Set<Seq<char>>
    decreases args.len(),
{
    if args.len() == 0 {
        Set::empty()
    } else {
        all_argument_variables(args.drop_last()).union(strs(args.last().variables@).to_set())
    }
}

/// `f` is the call of `name` with `args`, as `FunctionCallInfo::new` builds it.
pub open spec fn is_call_of(f: FunctionCallInfo, name: Seq<char>, args: Seq<FunctionArgument>) -> bool {
    &&& f.function_name@ == name
    &&& f.arguments@ == args
    &&& f.full_expression@ == name + "("@ + join(argument_values(args), ", "@) + ")"@
    &&& f.return_type == spec_return_type(name)
    &&& f.function_type == spec_function_type(name)
    &&& sorted_set_of(strs(f.argument_variables@), all_argument_variables(args))
    &&& f.position is None
    &&& !f.has_nested_calls
    &&& f.nesting_level == 1
}

/// Argument-count error of the known functions, if any.
pub open spec fn spec_signature_error(name: Seq<char>, n: nat) -> Option<Seq<char>> {
    if name == "env_var"@ {
        if n == 0 {
            Some("env_var function requires at least one argument"@)
        } else if n > 2 {
            Some("env_var function accepts maximum two arguments"@)
        } else {
            None
        }
    } else if name == "uppercase"@ || name == "lowercase"@ || name == "trim"@ {
        if n != 1 {
            Some(name + " function requires exactly one argument"@)
        } else {
            None
        }
    } else if name == "replace"@ {
        if n != 3 {
            Some("replace function requires exactly three arguments"@)
        } else {
            None
        }
    } else if name == "join"@ {
        if n < 2 {
            Some("join function requires at least two arguments"@)
        } else {
            None
        }
    } else {
        None
    }
}

/// Errors of the arguments `args[..k]`, each prefixed with its position.
pub open spec fn numbered_argument_errors(args: Seq<FunctionArgument>) -> Seq<Seq<char>>
    decreases args.len(),
{
    if args.len() == 0 {
        seq![]
    } else {
        numbered_argument_errors(args.drop_last()) + spec_argument_errors(args.last()).map_values(
            |e: Seq<char>| "Argument "@ + decimal(args.len()) + ": "@ + e,
        )
    }
}

/// Messages explaining why a call is malformed.
pub open spec fn spec_call_errors(f: FunctionCallInfo) -> Seq<Seq<char>> {
    (if f.function_name@.len() == 0 { seq!["Function call missing function name"@] } else { seq![] })
        + (if f.nesting_level > 10 { seq!["Function call nesting too deep (limit: 10)"@] } else { seq![] })
        + numbered_argument_errors(f.arguments@) + match spec_signature_error(f.function_name@, f.arguments@.len()) {
        Some(e) => seq![e],
        None => seq![],
    }
}

/// Display form of a call.
pub open spec fn spec_call_display(f: FunctionCallInfo) -> Seq<char> {
    f.function_name@ + "("@ + join(f.arguments@.map_values(|a: FunctionArgument| spec_argument_display(a)), ", "@) + ")"@
}

/// Parts of `name(args)`: the trimmed name and the text between the first `(` and the last `)`.
pub open spec fn call_parts(t: Seq<char>) -> Option<(Seq<char>, Seq<char>)> {
    match (find_char(t, '('), rfind_char(t, ')')) {
        (Some(p), Some(q)) => Some((trim(t.subrange(0, p as int)), t.subrange((p + 1) as int, q as int))),
        _ => None,
    }
}

/// `parse_function_call` slices forwards and its argument list fits the scanner.
pub open spec fn function_call_parse_safe(e: Seq<char>) -> bool {
    let t = trim(e);
    match (find_char(t, '('), rfind_char(t, ')')) {
        (Some(p), Some(q)) => p < q && t.len() <= i32::MAX,
        _ => true,
    }
}

impl FunctionArgument {
    /// A required argument at `position`.
    pub fn new(value: String, position: usize) -> (a: Self)
        ensures
            is_argument_of(a, value@, position, true),
    {
        let argument_type = Self::infer_argument_type(value.as_str());
        let variables = Self::extract_variables(value.as_str());
        FunctionArgument { value, argument_type, variables, is_required: true, position }
    }

    /// An optional argument at `position`.
    pub fn optional(value: String, position: usize) -> (a: Self)
        ensures
            is_argument_of(a, value@, position, false),
    {
        let mut arg = Self::new(value, position);
        arg.is_required = false;
        arg
    }

    /// Kind of the argument.
    pub fn infer_argument_type(value: &str) -> (t: ArgumentType)
        ensures
            t == spec_argument_type(value@),
    {
        let ts = str_trim(value);
        let t = ts.as_str();
        let tc = chars_of(t);
        let n = tc.len();
        if n > 0 && ((tc[0] == '"' && tc[n - 1] == '"') || (tc[0] == '\'' && tc[n - 1] == '\'')) {
            ArgumentType::StringLiteral
        } else if str_eq(t, "true") || str_eq(t, "false") {
            ArgumentType::BooleanLiteral
        } else if is_number_literal_exec(t) {
            ArgumentType::NumericLiteral
        } else if str_contains(t, "(") && str_contains(t, ")") {
            ArgumentType::FunctionCall
        } else if str_contains(t, "if") && str_contains(t, "then") {
            ArgumentType::Conditional
        } else if all_word_chars_exec(&tc) {
            ArgumentType::Variable
        } else {
            ArgumentType::Expression
        }
    }

    /// Variables among the words of the argument.
    pub fn extract_variables(value: &str) -> (r: Vec<String>)
        ensures
            sorted_set_of(strs(r@), word_variables(value@, false)),
    {
        word_vars(value, false)
    }

    /// Messages explaining why the argument is malformed.
    pub fn validation_errors(&self) -> (errors: Vec<String>)
        ensures
            strs(errors@) == spec_argument_errors(*self),
    {
        let mut errors: Vec<String> = Vec::new();
        if self.value.as_str().is_empty() {
            errors.push(owned("Argument cannot be empty"));
        }
        let vc = chars_of(self.value.as_str());
        let n = vc.len();
        match self.argument_type {
            ArgumentType::StringLiteral => {
                if !(n > 0 && ((vc[0] == '"' && vc[n - 1] == '"') || (vc[0] == '\'' && vc[n - 1] == '\''))) {
                    errors.push(owned("String literal must be quoted"));
                }
            },
            ArgumentType::FunctionCall => {
                if !(str_contains(self.value.as_str(), "(") && str_contains(self.value.as_str(), ")")) {
                    errors.push(owned("Function call must contain parentheses"));
                }
            },
            _ => {},
        }
        assert(strs(errors@) =~= spec_argument_errors(*self));
        errors
    }

    /// Display form of the argument.
    pub fn format_display(&self) -> (s: String)
        ensures
            s@ == spec_argument_display(*self),
    {
        match self.argument_type {
            ArgumentType::Variable => {
                let mut s = owned("{{");
                push_str(&mut s, self.value.as_str());
                push_str(&mut s, "}}");
                s
            },
            _ => self.value.clone(),
        }
    }
}

impl Clone for FunctionArgument {
    fn clone(&self) -> (c: Self)
        ensures
            c.value == self.value,
            c.argument_type == self.argument_type,
            c.variables@ == self.variables@,
            c.is_required == self.is_required,
            c.position == self.position,
    {
        FunctionArgument {
            value: self.value.clone(),
            argument_type: self.argument_type,
            variables: crate::parser::ast::queries::attributes::clone_strings(&self.variables),
            is_required: self.is_required,
            position: self.position,
        }
    }
}

impl FunctionCallInfo {
    /// A call of `function_name` with `arguments`.
    pub fn new(function_name: String, arguments: Vec<FunctionArgument>) -> (f: Self)
        ensures
            is_call_of(f, function_name@, arguments@),
    {
        let mut values: Vec<String> = Vec::new();
        let mut vars: Vec<String> = Vec::new();
        let mut i: usize = 0;
        assert(strs(vars@).to_set() =~= all_argument_variables(arguments@.take(0)));
        while i < arguments.len()
            invariant
                i <= arguments@.len(),
                strs(values@) == argument_values(arguments@.take(i as int)),
                strictly_sorted(strs(vars@)),
                strs(vars@).to_set() == all_argument_variables(arguments@.take(i as int)),
            decreases arguments.len() - i,
        {
            let ghost old_vals = strs(values@);
            values.push(arguments[i].value.clone());
            let merged = sorted_union(&vars, &arguments[i].variables);
            vars = merged;
            proof {
                assert(arguments@.take(i + 1).drop_last() =~= arguments@.take(i as int));
                assert(strs(values@) =~= old_vals.push(arguments@[i as int].value@));
                assert(argument_values(arguments@.take(i + 1)) =~= argument_values(arguments@.take(i as int)).push(arguments@[i as int].value@));
            }
            i = i + 1;
        }
        assert(arguments@.take(arguments.len() as int) =~= arguments@);
        let mut full = function_name.clone();
        push_str(&mut full, "(");
        let joined = join_strings(&values, ", ");
        push_str(&mut full, joined.as_str());
        push_str(&mut full, ")");
        let function_type = Self::infer_function_type(function_name.as_str());
        let return_type = Self::infer_return_type(function_name.as_str(), &arguments);
        FunctionCallInfo {
            function_name,
            arguments,
            full_expression: full,
            return_type,
            function_type,
            argument_variables: vars,
            position: None,
            has_nested_calls: false,
            nesting_level: 1,
        }
    }

    /// A call whose arguments are given as text; each becomes a required argument.
    pub fn simple(function_name: String, args: Vec<String>) -> (f: Self)
        ensures
            f.function_name@ == function_name@,
            f.arguments@.len() == args@.len(),
            forall|i: int| 0 <= i < args@.len() ==> #[trigger] is_argument_of(f.arguments@[i], args@[i]@, i as usize, true),
            is_call_of(f, function_name@, f.arguments@),
    {
        let mut arguments: Vec<FunctionArgument> = Vec::new();
        let mut i: usize = 0;
        while i < args.len()
            invariant
                i <= args@.len(),
                arguments@.len() == i,
                forall|j: int| 0 <= j < i ==> #[trigger] is_argument_of(arguments@[j], args@[j]@, j as usize, true),
            decreases args.len() - i,
        {
            arguments.push(FunctionArgument::new(args[i].clone(), i));
            i = i + 1;
        }
        Self::new(function_name, arguments)
    }

    /// Whether the call has a name (argument requirements always hold).
    pub fn is_valid(&self) -> (b: bool)
        ensures
            b == (self.function_name@.len() > 0),
    {
        !self.function_name.as_str().is_empty() && self.validate_arguments()
    }

    /// Whether no more arguments are required than given, which always holds.
    pub fn validate_arguments(&self) -> (b: bool)
        ensures
            b,
    {
        let mut required: usize = 0;
        let mut i: usize = 0;
        while i < self.arguments.len()
            invariant
                i <= self.arguments@.len(),
                required <= i,
            decreases self.arguments.len() - i,
        {
            if self.arguments[i].is_required {
                required = required + 1;
            }
            i = i + 1;
        }
        required <= self.arguments.len()
    }

    /// Argument-count error for the known functions.
    fn validate_function_signature(&self) -> (r: Result<(), String>)
        ensures
            match spec_signature_error(self.function_name@, self.arguments@.len()) {
                Some(e) => r matches Err(m) && m@ == e,
                None => r is Ok,
            },
    {
        let name = self.function_name.as_str();
        let n = self.arguments.len();
        if str_eq(name, "env_var") {
            if n == 0 {
                return Err(owned("env_var function requires at least one argument"));
            }
            if n > 2 {
                return Err(owned("env_var function accepts maximum two arguments"));
            }
        } else if str_eq(name, "uppercase") || str_eq(name, "lowercase") || str_eq(name, "trim") {
            if n != 1 {
                let mut m = owned(name);
                push_str(&mut m, " function requires exactly one argument");
                return Err(m);
            }
        } else if str_eq(name, "replace") {
            if n != 3 {
                return Err(owned("replace function requires exactly three arguments"));
            }
        } else if str_eq(name, "join") {
            if n < 2 {
                return Err(owned("join function requires at least two arguments"));
            }
        }
        Ok(())
    }

    /// Messages explaining why the call is malformed.
    pub fn validation_errors(&self) -> (errors: Vec<String>)
        ensures
            strs(errors@) == spec_call_errors(*self),
    {
        let mut errors: Vec<String> = Vec::new();
        if self.function_name.as_str().is_empty() {
            errors.push(owned("Function call missing function name"));
        }
        if self.nesting_level > 10 {
            errors.push(owned("Function call nesting too deep (limit: 10)"));
        }
        let ghost head = strs(errors@);
        assert(head =~= (if self.function_name@.len() == 0 { seq!["Function call missing function name"@] } else { Seq::<Seq<char>>::empty() })
            + (if self.nesting_level > 10 { seq!["Function call nesting too deep (limit: 10)"@] } else { Seq::<Seq<char>>::empty() }));
        let mut i: usize = 0;
        assert(self.arguments@.take(0) =~= Seq::<FunctionArgument>::empty());
        while i < self.arguments.len()
            invariant
                i <= self.arguments@.len(),
                strs(errors@) == head + numbered_argument_errors(self.arguments@.take(i as int)),
            decreases self.arguments.len() - i,
        {
            let arg_errors = self.arguments[i].validation_errors();
            let mut j: usize = 0;
            let ghost before = strs(errors@);
            let label = usize_to_string(i + 1);
            while j < arg_errors.len()
                invariant
                    j <= arg_errors@.len(),
                    label@ == decimal((i + 1) as nat),
                    strs(errors@) == before + strs(arg_errors@).take(j as int).map_values(
                        |e: Seq<char>| "Argument "@ + decimal((i + 1) as nat) + ": "@ + e,
                    ),
                decreases arg_errors.len() - j,
            {
                let mut m = owned("Argument ");
                push_str(&mut m, label.as_str());
                push_str(&mut m, ": ");
                push_str(&mut m, arg_errors[j].as_str());
                let ghost prev = strs(errors@);
                errors.push(m);
                proof {
                    let g = |e: Seq<char>| "Argument "@ + decimal((i + 1) as nat) + ": "@ + e;
                    assert(strs(errors@) =~= prev.push(m@));
                    assert(strs(arg_errors@).take(j + 1) =~= strs(arg_errors@).take(j as int).push(arg_errors@[j as int]@));
                    assert(strs(arg_errors@).take(j + 1).map_values(g) =~= strs(arg_errors@).take(j as int).map_values(g).push(g(arg_errors@[j as int]@)));
                }
                j = j + 1;
            }
            proof {
                assert(strs(arg_errors@).take(j as int) =~= strs(arg_errors@));
                assert(self.arguments@.take(i + 1).drop_last() =~= self.arguments@.take(i as int));
                assert(self.arguments@.take(i + 1).last() == self.arguments@[i as int]);
                assert(self.arguments@.take(i + 1).len() == i + 1);
                assert(numbered_argument_errors(self.arguments@.take(i + 1)) == numbered_argument_errors(self.arguments@.take(i as int))
                    + spec_argument_errors(self.arguments@[i as int]).map_values(|e: Seq<char>| "Argument "@ + decimal((i + 1) as nat) + ": "@ + e));
                assert(strs(errors@) =~= head + numbered_argument_errors(self.arguments@.take(i + 1)));
            }
            i = i + 1;
        }
        assert(self.arguments@.take(self.arguments.len() as int) =~= self.arguments@);
        match self.validate_function_signature() {
            Err(e) => {
                errors.push(e);
            },
            Ok(()) => {},
        }
        assert(strs(errors@) =~= spec_call_errors(*self));
        errors
    }

    /// Origin of a function named `name`.
    pub fn infer_function_type(name: &str) -> (t: FunctionType)
        ensures
            t == spec_function_type(name@),
    {
        if str_eq(name, "env_var") || str_eq(name, "uppercase") || str_eq(name, "lowercase") || str_eq(name, "trim")
            || str_eq(name, "replace") || str_eq(name, "join") || str_eq(name, "quote") || str_eq(name, "path_exists")
            || str_eq(name, "extension") || str_eq(name, "file_name") || str_eq(name, "parent_directory") {
            FunctionType::BuiltIn
        } else if str_starts_with(name, "`") || str_contains(name, "/") {
            FunctionType::ExternalCommand
        } else {
            FunctionType::UserDefined
        }
    }

    /// Result type of a function named `name`; the arguments play no part.
    pub fn infer_return_type(name: &str, _arguments: &Vec<FunctionArgument>) -> (t: FunctionReturnType)
        ensures
            t == spec_return_type(name@),
    {
        if str_eq(name, "env_var") || str_eq(name, "uppercase") || str_eq(name, "lowercase") || str_eq(name, "trim")
            || str_eq(name, "replace") || str_eq(name, "quote") || str_eq(name, "extension") || str_eq(name, "file_name")
            || str_eq(name, "parent_directory") || str_eq(name, "join") {
            FunctionReturnType::String
        } else if str_eq(name, "path_exists") {
            FunctionReturnType::Boolean
        } else {
            FunctionReturnType::Unknown
        }
    }

    /// Display form of the call.
    pub fn format_display(&self) -> (s: String)
        ensures
            s@ == spec_call_display(*self),
    {
        let mut shown: Vec<String> = Vec::new();
        let mut i: usize = 0;
        while i < self.arguments.len()
            invariant
                i <= self.arguments@.len(),
                strs(shown@) == self.arguments@.take(i as int).map_values(|a: FunctionArgument| spec_argument_display(a)),
            decreases self.arguments.len() - i,
        {
            let ghost prev = strs(shown@);
            let d = self.arguments[i].format_display();
            shown.push(d);
            proof {
                assert(strs(shown@) =~= prev.push(d@));
                assert(self.arguments@.take(i + 1).map_values(|a: FunctionArgument| spec_argument_display(a)) =~= self.arguments@.take(i as int).map_values(|a: FunctionArgument| spec_argument_display(a)).push(spec_argument_display(self.arguments@[i as int])));
            }
            i = i + 1;
        }
        assert(self.arguments@.take(i as int) =~= self.arguments@);
        let mut s = self.function_name.clone();
        push_str(&mut s, "(");
        let joined = join_strings(&shown, ", ");
        push_str(&mut s, joined.as_str());
        push_str(&mut s, ")");
        s
    }

    /// Variables of all arguments.
    pub fn get_all_variables(&self) -> (r: Vec<String>)
        ensures
            r@ == self.argument_variables@,
    {
        crate::parser::ast::queries::attributes::clone_strings(&self.argument_variables)
    }
}

impl ExpressionEvaluator {
    /// Parses `name(args)`: the name before the first `(`, the arguments between
    /// it and the last `)`, split at top-level commas.
    pub fn parse_function_call(expr: &str) -> (r: Result<FunctionCallInfo, String>)
        requires
            function_call_parse_safe(expr@),
        ensures
            r matches Ok(f) ==> call_parts(trim(expr@)) matches Some((name, args)) && f.function_name@ == name
                && f.arguments@.len() == (if trim(args).len() == 0 { 0 } else { spec_parse_call_arguments(args).len() })
                && (forall|i: int| 0 <= i < f.arguments@.len() ==> #[trigger] is_argument_of(
                f.arguments@[i],
                spec_parse_call_arguments(args)[i],
                i as usize,
                true,
            )) && is_call_of(f, name, f.arguments@),
            r matches Err(e) ==> call_parts(trim(expr@)) is None && e@ == "Cannot parse function call: "@ + expr@,
    {
        let ts = str_trim(expr);
        let tc = chars_of(ts.as_str());
        proof {
            crate::text::lemma_find_char_from(tc@, '(', 0);
        }
        match find_char_exec(&tc, '(') {
            Some(p) => match rfind_char_exec(&tc, ')') {
                Some(q) => {
                    let head = sub_chars(&tc, 0, p);
                    let name = string_of(&trim_chars(&head));
                    let args_str = substring(&tc, p + 1, q);
                    let args = if is_blank(args_str.as_str()) {
                        Vec::new()
                    } else {
                        QueryResultProcessor::parse_function_arguments(args_str.as_str())
                    };
                    return Ok(FunctionCallInfo::simple(name, args));
                },
                None => {},
            },
            None => {},
        }
        let mut e = owned("Cannot parse function call: ");
        push_str(&mut e, expr);
        Err(e)
    }
}

} // verus!
