//! Recipe attributes such as `[private]` or `[group('name')]`.
use vstd::prelude::*;
use crate::text::{owned, push_str, str_eq, lowercase, to_lowercase, join, join_strings};
use crate::parser::ast::queries::info::strs;

verus! {

/// Kind of an attribute.
#[derive(Debug, PartialEq, Eq)]
pub enum AttributeType {
    /// `[group('name')]`
    Group,
    /// `[private]`
    Private,
    /// `[confirm]` or `[confirm("message")]`
    Confirm,
    /// `[doc("text")]`
    Doc,
    /// `[no-cd]`
    NoCD,
    /// `[windows]`
    Windows,
    /// `[unix]`
    Unix,
    /// `[linux]`
    Linux,
    /// `[macos]`
    MacOS,
    /// `[no-exit-message]`
    NoExitMessage,
    /// Any other attribute, with its name as written.
    Unknown(String),
}

/// An attribute attached to a recipe.
#[derive(Debug, PartialEq)]
pub struct AttributeInfo {
    /// Name as written.
    pub name: String,
    /// Arguments.
    pub arguments: Vec<String>,
    /// First argument, for single-value attributes.
    pub value: Option<String>,
    /// Line of the attribute.
    pub line_number: usize,
    /// Whether the attribute is a flag without arguments.
    pub is_boolean: bool,
    /// Start (row, column).
    pub position: Option<(usize, usize)>,
    /// Kind of the attribute.
    pub attribute_type: AttributeType,
}

impl Clone for AttributeType {
    fn clone(&self) -> (c: Self)
        ensures
            c == *self,
    {
        match self {
            AttributeType::Group => AttributeType::Group,
            AttributeType::Private => AttributeType::Private,
            AttributeType::Confirm => AttributeType::Confirm,
            AttributeType::Doc => AttributeType::Doc,
            AttributeType::NoCD => AttributeType::NoCD,
            AttributeType::Windows => AttributeType::Windows,
            AttributeType::Unix => AttributeType::Unix,
            AttributeType::Linux => AttributeType::Linux,
            AttributeType::MacOS => AttributeType::MacOS,
            AttributeType::NoExitMessage => AttributeType::NoExitMessage,
            AttributeType::Unknown(n) => AttributeType::Unknown(n.clone()),
        }
    }
}

/// A copy of a list of strings.
pub fn clone_strings(v: &Vec<String>) -> (c: Vec<String>)
    ensures
        c@ == v@,
{
    let mut c: Vec<String> = Vec::new();
    let mut i: usize = 0;
    while i < v.len()
        invariant
            i <= v.len(),
            c@ == v@.subrange(0, i as int),
        decreases v.len() - i,
    {
        c.push(v[i].clone());
        i = i + 1;
        assert(c@ =~= v@.subrange(0, i as int));
    }
    assert(v@.subrange(0, v.len() as int) =~= v@);
    c
}

impl Clone for AttributeInfo {
    fn clone(&self) -> (c: Self)
        ensures
            c.name == self.name,
            c.arguments@ == self.arguments@,
            c.value == self.value,
            c.line_number == self.line_number,
            c.is_boolean == self.is_boolean,
            c.position == self.position,
            c.attribute_type == self.attribute_type,
    {
        AttributeInfo {
            name: self.name.clone(),
            arguments: clone_strings(&self.arguments),
            value: match &self.value {
                Some(v) => Some(v.clone()),
                None => None,
            },
            line_number: self.line_number,
            is_boolean: self.is_boolean,
            position: self.position,
            attribute_type: self.attribute_type.clone(),
        }
    }
}

/// Known attribute kind named by a lowercased name.
pub open spec fn known_kind(l: Seq<char>) -> Option<AttributeType> {
    if l == "group"@ {
        Some(AttributeType::Group)
    } else if l == "private"@ {
        Some(AttributeType::Private)
    } else if l == "confirm"@ {
        Some(AttributeType::Confirm)
    } else if l == "doc"@ {
        Some(AttributeType::Doc)
    } else if l == "no-cd"@ || l == "no_cd"@ {
        Some(AttributeType::NoCD)
    } else if l == "windows"@ {
        Some(AttributeType::Windows)
    } else if l == "unix"@ {
        Some(AttributeType::Unix)
    } else if l == "linux"@ {
        Some(AttributeType::Linux)
    } else if l == "macos"@ || l == "mac"@ {
        Some(AttributeType::MacOS)
    } else if l == "no-exit-message"@ || l == "no_exit_message"@ {
        Some(AttributeType::NoExitMessage)
    } else {
        None
    }
}

/// `t` is the kind of an attribute named `name`: a known kind of the
/// lowercased name, or else `Unknown` with the name as written.
pub open spec fn is_kind_of_name(t: AttributeType, name: Seq<char>) -> bool {
    match known_kind(lowercase(name)) {
        Some(k) => t == k,
        None => t matches AttributeType::Unknown(n) && n@ == name,
    }
}

/// Flag kinds, which take no argument.
pub open spec fn is_flag_kind(t: AttributeType) -> bool {
    match t {
        AttributeType::Private | AttributeType::NoCD | AttributeType::Windows | AttributeType::Unix
        | AttributeType::Linux | AttributeType::MacOS | AttributeType::NoExitMessage => true,
        _ => false,
    }
}

/// Platform kinds.
pub open spec fn is_platform_kind(t: AttributeType) -> bool {
    match t {
        AttributeType::Windows | AttributeType::Unix | AttributeType::Linux | AttributeType::MacOS => true,
        _ => false,
    }
}

/// Display name of a kind.
pub open spec fn spec_kind_text(t: AttributeType) -> Seq<char> {
    match t {
        AttributeType::Group => "group"@,
        AttributeType::Private => "private"@,
        AttributeType::Confirm => "confirm"@,
        AttributeType::Doc => "doc"@,
        AttributeType::NoCD => "no-cd"@,
        AttributeType::Windows => "windows"@,
        AttributeType::Unix => "unix"@,
        AttributeType::Linux => "linux"@,
        AttributeType::MacOS => "macos"@,
        AttributeType::NoExitMessage => "no-exit-message"@,
        AttributeType::Unknown(n) => n@,
    }
}

/// Whether the number of arguments suits the kind.
pub open spec fn spec_validate_type(a: AttributeInfo) -> bool {
    let n = a.arguments@.len();
    match a.attribute_type {
        AttributeType::Group => n == 1,
        AttributeType::Confirm => n <= 1,
        AttributeType::Doc => n == 1,
        AttributeType::Unknown(_) => true,
        _ => n == 0,
    }
}

/// Whether the attribute is well formed.
pub open spec fn spec_attribute_valid(a: AttributeInfo) -> bool {
    a.name@.len() > 0 && (a.is_boolean || a.arguments@.len() > 0) && spec_validate_type(a)
}

/// Messages explaining why an attribute is malformed.
pub open spec fn spec_attribute_errors(a: AttributeInfo) -> Seq<Seq<char>> {
    let n = a.arguments@.len();
    let name_errors = if a.name@.len() == 0 {
        seq!["Attribute name cannot be empty"@]
    } else {
        seq![]
    };
    let kind_errors = if spec_validate_type(a) {
        seq![]
    } else {
        match a.attribute_type {
            AttributeType::Group => if n == 0 {
                seq!["Group attribute requires exactly one argument"@]
            } else {
                seq!["Group attribute accepts only one argument"@]
            },
            AttributeType::Doc => if n == 0 {
                seq!["Doc attribute requires exactly one argument"@]
            } else {
                seq!["Doc attribute accepts only one argument"@]
            },
            AttributeType::Confirm => seq!["Confirm attribute accepts at most one argument"@],
            AttributeType::Unknown(_) => seq![],
            _ => seq![spec_kind_text(a.attribute_type) + " attribute does not accept arguments"@],
        }
    };
    name_errors + kind_errors
}

/// `'x'` for each argument.
pub open spec fn quoted_all(args: Seq<Seq<char>>) -> Seq<Seq<char>> {
    args.map_values(|x: Seq<char>| "'"@ + x + "'"@)
}

/// Display form of an attribute.
pub open spec fn spec_attribute_display(a: AttributeInfo) -> Seq<char> {
    if a.is_boolean {
        "["@ + a.name@ + "]"@
    } else if a.value is Some {
        "["@ + a.name@ + "('"@ + a.value->0@ + "')]"@
    } else if a.arguments@.len() > 0 {
        "["@ + a.name@ + "("@ + join(quoted_all(strs(a.arguments@)), ", "@) + ")]"@
    } else {
        "["@ + a.name@ + "]"@
    }
}

impl AttributeType {
    /// Kind named by `name`, compared in lowercase.
    pub fn from_name(name: &str) -> (t: Self)
        ensures
            is_kind_of_name(t, name@),
    {
        let lower = to_lowercase(name);
        let l = lower.as_str();
        if str_eq(l, "group") {
            AttributeType::Group
        } else if str_eq(l, "private") {
            AttributeType::Private
        } else if str_eq(l, "confirm") {
            AttributeType::Confirm
        } else if str_eq(l, "doc") {
            AttributeType::Doc
        } else if str_eq(l, "no-cd") || str_eq(l, "no_cd") {
            AttributeType::NoCD
        } else if str_eq(l, "windows") {
            AttributeType::Windows
        } else if str_eq(l, "unix") {
            AttributeType::Unix
        } else if str_eq(l, "linux") {
            AttributeType::Linux
        } else if str_eq(l, "macos") || str_eq(l, "mac") {
            AttributeType::MacOS
        } else if str_eq(l, "no-exit-message") || str_eq(l, "no_exit_message") {
            AttributeType::NoExitMessage
        } else {
            AttributeType::Unknown(owned(name))
        }
    }

    /// Whether the kind restricts the platform.
    pub fn is_platform_specific(&self) -> (b: bool)
        ensures
            b == is_platform_kind(*self),
    {
        match self {
            AttributeType::Windows | AttributeType::Unix | AttributeType::Linux | AttributeType::MacOS => true,
            _ => false,
        }
    }

    /// Whether the kind hides the recipe from listings.
    pub fn affects_visibility(&self) -> (b: bool)
        ensures
            b == (*self matches AttributeType::Private),
    {
        match self {
            AttributeType::Private => true,
            _ => false,
        }
    }

    /// Whether the kind asks the user for confirmation.
    pub fn requires_interaction(&self) -> (b: bool)
        ensures
            b == (*self matches AttributeType::Confirm),
    {
        match self {
            AttributeType::Confirm => true,
            _ => false,
        }
    }

    /// All known kinds.
    pub fn all_known_types() -> (v: Vec<AttributeType>)
        ensures
            v@ == seq![
                AttributeType::Group,
                AttributeType::Private,
                AttributeType::Confirm,
                AttributeType::Doc,
                AttributeType::NoCD,
                AttributeType::Windows,
                AttributeType::Unix,
                AttributeType::Linux,
                AttributeType::MacOS,
                AttributeType::NoExitMessage,
            ],
    {
        let mut v = Vec::new();
        v.push(AttributeType::Group);
        v.push(AttributeType::Private);
        v.push(AttributeType::Confirm);
        v.push(AttributeType::Doc);
        v.push(AttributeType::NoCD);
        v.push(AttributeType::Windows);
        v.push(AttributeType::Unix);
        v.push(AttributeType::Linux);
        v.push(AttributeType::MacOS);
        v.push(AttributeType::NoExitMessage);
        assert(v@ =~= seq![
            AttributeType::Group,
            AttributeType::Private,
            AttributeType::Confirm,
            AttributeType::Doc,
            AttributeType::NoCD,
            AttributeType::Windows,
            AttributeType::Unix,
            AttributeType::Linux,
            AttributeType::MacOS,
            AttributeType::NoExitMessage,
        ]);
        v
    }

    /// Display name of the kind.
    pub fn to_string(&self) -> (s: String)
        ensures
            s@ == spec_kind_text(*self),
    {
        match self {
            AttributeType::Group => owned("group"),
            AttributeType::Private => owned("private"),
            AttributeType::Confirm => owned("confirm"),
            AttributeType::Doc => owned("doc"),
            AttributeType::NoCD => owned("no-cd"),
            AttributeType::Windows => owned("windows"),
            AttributeType::Unix => owned("unix"),
            AttributeType::Linux => owned("linux"),
            AttributeType::MacOS => owned("macos"),
            AttributeType::NoExitMessage => owned("no-exit-message"),
            AttributeType::Unknown(n) => n.clone(),
        }
    }
}

impl AttributeInfo {
    /// An attribute without arguments; flag kinds are boolean.
    pub fn new(name: String, line_number: usize) -> (a: Self)
        ensures
            a.name == name,
            a.arguments@.len() == 0,
            a.value is None,
            a.line_number == line_number,
            a.position is None,
            is_kind_of_name(a.attribute_type, name@),
            a.is_boolean == is_flag_kind(a.attribute_type),
    {
        let attribute_type = AttributeType::from_name(name.as_str());
        let is_boolean = match attribute_type {
            AttributeType::Private | AttributeType::NoCD | AttributeType::Windows | AttributeType::Unix
            | AttributeType::Linux | AttributeType::MacOS | AttributeType::NoExitMessage => true,
            _ => false,
        };
        AttributeInfo {
            name,
            arguments: Vec::new(),
            value: None,
            line_number,
            is_boolean,
            position: None,
            attribute_type,
        }
    }

    /// An attribute with one value.
    pub fn with_value(name: String, value: String, line_number: usize) -> (a: Self)
        ensures
            a.name == name,
            a.arguments@ == seq![value],
            a.value == Some(value),
            a.line_number == line_number,
            a.position is None,
            is_kind_of_name(a.attribute_type, name@),
            !a.is_boolean,
    {
        let mut attr = Self::new(name, line_number);
        attr.value = Some(value.clone());
        let mut args = Vec::new();
        args.push(value);
        attr.arguments = args;
        attr.is_boolean = false;
        attr
    }

    /// An attribute with a list of arguments; the first is its value.
    pub fn with_arguments(name: String, arguments: Vec<String>, line_number: usize) -> (a: Self)
        ensures
            a.name == name,
            a.arguments@ == arguments@,
            a.value == (if arguments@.len() > 0 { Some(arguments@[0]) } else { None }),
            a.line_number == line_number,
            a.position is None,
            is_kind_of_name(a.attribute_type, name@),
            a.is_boolean == (arguments@.len() == 0),
    {
        let mut attr = Self::new(name, line_number);
        attr.value = if arguments.len() > 0 {
            Some(arguments[0].clone())
        } else {
            None
        };
        attr.is_boolean = arguments.len() == 0;
        attr.arguments = arguments;
        attr
    }

    /// The value, if any.
    pub fn get_value(&self) -> (v: Option<&str>)
        ensures
            v matches Some(x) ==> self.value matches Some(s) && x@ == s@,
            v is None ==> self.value is None,
    {
        match &self.value {
            Some(s) => Some(s.as_str()),
            None => None,
        }
    }

    /// The arguments.
    pub fn get_arguments(&self) -> (v: Vec<&str>)
        ensures
            v@.len() == self.arguments@.len(),
            forall|i: int| 0 <= i < v@.len() ==> #[trigger] v@[i]@ == self.arguments@[i]@,
    {
        let mut v: Vec<&str> = Vec::new();
        let mut i: usize = 0;
        while i < self.arguments.len()
            invariant
                i <= self.arguments@.len(),
                v@.len() == i,
                forall|j: int| 0 <= j < i ==> #[trigger] v@[j]@ == self.arguments@[j]@,
            decreases self.arguments.len() - i,
        {
            v.push(self.arguments[i].as_str());
            i = i + 1;
        }
        v
    }

    /// Whether the attribute is well formed.
    pub fn is_valid(&self) -> (b: bool)
        ensures
            b == spec_attribute_valid(*self),
    {
        !self.name.as_str().is_empty() && (self.is_boolean || self.arguments.len() > 0) && self.validate_type()
    }

    /// Whether the number of arguments suits the kind.
    pub fn validate_type(&self) -> (b: bool)
        ensures
            b == spec_validate_type(*self),
    {
        let n = self.arguments.len();
        match &self.attribute_type {
            AttributeType::Group => n == 1,
            AttributeType::Confirm => n <= 1,
            AttributeType::Doc => n == 1,
            AttributeType::Unknown(_) => true,
            _ => n == 0,
        }
    }

    /// Messages explaining why the attribute is malformed; empty when it is valid.
    pub fn validation_errors(&self) -> (errors: Vec<String>)
        ensures
            strs(errors@) == spec_attribute_errors(*self),
    {
        let mut errors: Vec<String> = Vec::new();
        if self.name.as_str().is_empty() {
            errors.push(owned("Attribute name cannot be empty"));
        }
        let ghost after_name = strs(errors@);
        if !self.validate_type() {
            let n = self.arguments.len();
            match &self.attribute_type {
                AttributeType::Group => {
                    if n == 0 {
                        errors.push(owned("Group attribute requires exactly one argument"));
                    } else {
                        errors.push(owned("Group attribute accepts only one argument"));
                    }
                },
                AttributeType::Doc => {
                    if n == 0 {
                        errors.push(owned("Doc attribute requires exactly one argument"));
                    } else {
                        errors.push(owned("Doc attribute accepts only one argument"));
                    }
                },
                AttributeType::Confirm => {
                    errors.push(owned("Confirm attribute accepts at most one argument"));
                },
                AttributeType::Unknown(_) => {},
                _ => {
                    let mut m = self.attribute_type.to_string();
                    push_str(&mut m, " attribute does not accept arguments");
                    errors.push(m);
                },
            }
        }
        assert(strs(errors@) =~= spec_attribute_errors(*self));
        errors
    }

    /// Display form such as `[private]` or `[group('test')]`.
    pub fn format_display(&self) -> (s: String)
        ensures
            s@ == spec_attribute_display(*self),
    {
        let mut s = owned("[");
        push_str(&mut s, self.name.as_str());
        if self.is_boolean {
            push_str(&mut s, "]");
        } else if let Some(value) = &self.value {
            push_str(&mut s, "('");
            push_str(&mut s, value.as_str());
            push_str(&mut s, "')]");
        } else if self.arguments.len() > 0 {
            let mut quoted: Vec<String> = Vec::new();
            let mut i: usize = 0;
            while i < self.arguments.len()
                invariant
                    i <= self.arguments@.len(),
                    strs(quoted@) == quoted_all(strs(self.arguments@.subrange(0, i as int))),
                decreases self.arguments.len() - i,
            {
                let mut q = owned("'");
                push_str(&mut q, self.arguments[i].as_str());
                push_str(&mut q, "'");
                let ghost before = strs(quoted@);
                quoted.push(q);
                proof {
                    let prev = strs(self.arguments@.subrange(0, i as int));
                    let next = strs(self.arguments@.subrange(0, i + 1));
                    assert(next =~= prev.push(self.arguments@[i as int]@));
                    assert(quoted_all(next) =~= quoted_all(prev).push("'"@ + self.arguments@[i as int]@ + "'"@));
                    assert(strs(quoted@) =~= before.push(q@));
                }
                i = i + 1;
            }
            assert(self.arguments@.subrange(0, i as int) =~= self.arguments@);
            let joined = join_strings(&quoted, ", ");
            push_str(&mut s, "(");
            push_str(&mut s, joined.as_str());
            push_str(&mut s, ")]");
        } else {
            push_str(&mut s, "]");
        }
        s
    }
}

/// For an attribute shaped as the constructors build it (a flag exactly
/// when it has no arguments), being valid and having no validation errors
/// are the same.
pub proof fn lemma_valid_iff_no_errors(a: AttributeInfo)
    requires
        a.is_boolean == (a.arguments@.len() == 0),
    ensures
        spec_attribute_valid(a) <==> spec_attribute_errors(a).len() == 0,
{
}

/// Text of lowercase ASCII letters and `-` is its own lowercase.
proof fn lemma_lowercase_fixed(s: Seq<char>)
    requires
        forall|i: int| 0 <= i < s.len() ==> ('a' <= #[trigger] s[i] && s[i] <= 'z') || s[i] == '-',
    ensures
        crate::text::lowercase(s) == s,
{
    assert(crate::text::all_ascii(s));
    assert(crate::text::ascii_lowercase(s) =~= s);
}

/// The known kinds, in the order `all_known_types` lists them.
pub open spec fn known_kinds() -> Seq<AttributeType> {
    seq![
        AttributeType::Group, AttributeType::Private, AttributeType::Confirm, AttributeType::Doc, AttributeType::NoCD, AttributeType::Windows, AttributeType::Unix, AttributeType::Linux, AttributeType::MacOS, AttributeType::NoExitMessage
    ]
}

/// Reading the display name of a known kind gives that kind back: the
/// name of each of the ten kinds names that kind.
pub proof fn lemma_kind_names_read_back(t: AttributeType)
    requires
        known_kinds().contains(t),
    ensures
        is_kind_of_name(t, spec_kind_text(t)),
        !(t is Unknown),
{
    reveal_strlit("confirm");
    reveal_strlit("doc");
    reveal_strlit("group");
    reveal_strlit("linux");
    reveal_strlit("mac");
    reveal_strlit("macos");
    reveal_strlit("no-cd");
    reveal_strlit("no-exit-message");
    reveal_strlit("no_cd");
    reveal_strlit("no_exit_message");
    reveal_strlit("private");
    reveal_strlit("unix");
    reveal_strlit("windows");
    let k = choose|k: int| 0 <= k < known_kinds().len() && known_kinds()[k] == t;
    lemma_lowercase_fixed(spec_kind_text(t));
    match t {
        AttributeType::Group => {

        },
        AttributeType::Private => {
            assert("private"@.len() != "group"@.len());
        },
        AttributeType::Confirm => {
            assert("confirm"@.len() != "group"@.len());
            assert("confirm"@[0] != "private"@[0]);
        },
        AttributeType::Doc => {
            assert("doc"@.len() != "group"@.len());
            assert("doc"@.len() != "private"@.len());
            assert("doc"@.len() != "confirm"@.len());
        },
        AttributeType::NoCD => {
            assert("no-cd"@[0] != "group"@[0]);
            assert("no-cd"@.len() != "private"@.len());
            assert("no-cd"@.len() != "confirm"@.len());
            assert("no-cd"@.len() != "doc"@.len());
        },
        AttributeType::Windows => {
            assert("windows"@.len() != "group"@.len());
            assert("windows"@[0] != "private"@[0]);
            assert("windows"@[0] != "confirm"@[0]);
            assert("windows"@.len() != "doc"@.len());
            assert("windows"@.len() != "no-cd"@.len());
            assert("windows"@.len() != "no_cd"@.len());
        },
        AttributeType::Unix => {
            assert("unix"@.len() != "group"@.len());
            assert("unix"@.len() != "private"@.len());
            assert("unix"@.len() != "confirm"@.len());
            assert("unix"@.len() != "doc"@.len());
            assert("unix"@.len() != "no-cd"@.len());
            assert("unix"@.len() != "no_cd"@.len());
            assert("unix"@.len() != "windows"@.len());
        },
        AttributeType::Linux => {
            assert("linux"@[0] != "group"@[0]);
            assert("linux"@.len() != "private"@.len());
            assert("linux"@.len() != "confirm"@.len());
            assert("linux"@.len() != "doc"@.len());
            assert("linux"@[0] != "no-cd"@[0]);
            assert("linux"@[0] != "no_cd"@[0]);
            assert("linux"@.len() != "windows"@.len());
            assert("linux"@.len() != "unix"@.len());
        },
        AttributeType::MacOS => {
            assert("macos"@[0] != "group"@[0]);
            assert("macos"@.len() != "private"@.len());
            assert("macos"@.len() != "confirm"@.len());
            assert("macos"@.len() != "doc"@.len());
            assert("macos"@[0] != "no-cd"@[0]);
            assert("macos"@[0] != "no_cd"@[0]);
            assert("macos"@.len() != "windows"@.len());
            assert("macos"@.len() != "unix"@.len());
            assert("macos"@[0] != "linux"@[0]);
        },
        AttributeType::NoExitMessage => {
            assert("no-exit-message"@.len() != "group"@.len());
            assert("no-exit-message"@.len() != "private"@.len());
            assert("no-exit-message"@.len() != "confirm"@.len());
            assert("no-exit-message"@.len() != "doc"@.len());
            assert("no-exit-message"@.len() != "no-cd"@.len());
            assert("no-exit-message"@.len() != "no_cd"@.len());
            assert("no-exit-message"@.len() != "windows"@.len());
            assert("no-exit-message"@.len() != "unix"@.len());
            assert("no-exit-message"@.len() != "linux"@.len());
            assert("no-exit-message"@.len() != "macos"@.len());
            assert("no-exit-message"@.len() != "mac"@.len());
        },
        AttributeType::Unknown(_) => {},
    }
}

} // verus!
