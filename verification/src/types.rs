//! The type model: a type shape (primitive, named, array, function, set)
//! wrapped with a qualifier (regular, immutable, optional, undeclared, and
//! the parameter-only splat marker).

use vstd::prelude::*;
use vstd::string::StringExecFns;

verus! {

/// Qualifier of a type. `Splat` is a parameter-only marker: the parameter
/// binds a variadic tail, with the element type given or left to inference.
#[derive(Debug, PartialEq)]
pub enum TypeMode {
    Undeclared,
    Immutable,
    Optional,
    Regular,
    Splat(Option<Box<Type>>),
}

/// Shape of a type, independent of its qualifier. An array carries its
/// element type and, for the fixed-size grammar form, its length.
#[derive(Debug, PartialEq)]
pub enum TypeNode {
    Int,
    Float,
    Bool,
    Str,
    Char,
    Nil,
    Id(String),
    Tuple(Vec<Type>),
    Array(Box<Type>, Option<u64>),
    Func(Vec<Type>, Box<Type>),
}

/// A type: shape plus qualifier.
#[derive(Debug, PartialEq)]
pub struct Type {
    pub node: TypeNode,
    pub mode: TypeMode,
}

/// Strict qualifier sameness: both sides carry the same marker.
pub open spec fn spec_mode_check(a: TypeMode, b: TypeMode) -> bool {
    match (a, b) {
        (TypeMode::Regular, TypeMode::Regular) => true,
        (TypeMode::Immutable, TypeMode::Immutable) => true,
        (TypeMode::Undeclared, TypeMode::Undeclared) => true,
        (TypeMode::Optional, TypeMode::Optional) => true,
        (TypeMode::Splat(_), TypeMode::Splat(_)) => true,
        _ => false,
    }
}

/// Qualifier compatibility. The relation is deliberately not plain equality:
/// `Regular` and `Immutable` are mutually compatible, `Optional` absorbs
/// anything on either side (the `Optional` arms are matched before the
/// `Undeclared` arms, so an `Optional`/`Undeclared` pair is compatible), and
/// apart from the `Optional` pairs `Undeclared` is compatible with nothing,
/// itself included.
pub open spec fn spec_mode_compatible(a: TypeMode, b: TypeMode) -> bool {
    match (a, b) {
        (TypeMode::Regular, TypeMode::Regular) => true,
        (TypeMode::Regular, TypeMode::Immutable) => true,
        (TypeMode::Immutable, TypeMode::Immutable) => true,
        (TypeMode::Immutable, TypeMode::Regular) => true,
        (_, TypeMode::Optional) => true,
        (TypeMode::Optional, _) => true,
        (TypeMode::Undeclared, _) => false,
        (_, TypeMode::Undeclared) => false,
        (TypeMode::Splat(_), TypeMode::Splat(_)) => true,
        _ => false,
    }
}

/// Structural equality on shapes, ignoring the qualifier at the top level.
/// Component types of arrays and sets are compared with full type
/// compatibility (shape equality plus qualifier compatibility). Two function
/// shapes never compare equal: a deliberate quirk of this language's
/// compatibility check.
pub open spec fn spec_shape_eq(a: TypeNode, b: TypeNode) -> bool
    decreases a,
{
    match (a, b) {
        (TypeNode::Int, TypeNode::Int) => true,
        (TypeNode::Float, TypeNode::Float) => true,
        (TypeNode::Bool, TypeNode::Bool) => true,
        (TypeNode::Str, TypeNode::Str) => true,
        (TypeNode::Char, TypeNode::Char) => true,
        (TypeNode::Nil, TypeNode::Nil) => true,
        (TypeNode::Id(x), TypeNode::Id(y)) => x@ == y@,
        (TypeNode::Array(ea, la), TypeNode::Array(eb, lb)) => spec_type_compatible(*ea, *eb)
            && la == lb,
        (TypeNode::Tuple(xs), TypeNode::Tuple(ys)) => xs@.len() == ys@.len() && (forall|i: int|
            0 <= i < xs@.len() ==> spec_type_compatible(#[trigger] xs@[i], ys@[i])),
        _ => false,
    }
}

/// Full type compatibility: equal shapes and compatible qualifiers.
pub open spec fn spec_type_compatible(a: Type, b: Type) -> bool
    decreases a,
{
    spec_shape_eq(a.node, b.node) && spec_mode_compatible(a.mode, b.mode)
}

impl TypeMode {
    /// Strict qualifier sameness (see `spec_mode_check`).
    pub fn check(&self, other: &TypeMode) -> (r: bool)
        ensures
            r == spec_mode_check(*self, *other),
    {
        match (self, other) {
            (TypeMode::Regular, TypeMode::Regular) => true,
            (TypeMode::Immutable, TypeMode::Immutable) => true,
            (TypeMode::Undeclared, TypeMode::Undeclared) => true,
            (TypeMode::Optional, TypeMode::Optional) => true,
            (TypeMode::Splat(_), TypeMode::Splat(_)) => true,
            _ => false,
        }
    }

    /// Qualifier compatibility (see `spec_mode_compatible`).
    pub fn compatible(&self, other: &TypeMode) -> (r: bool)
        ensures
            r == spec_mode_compatible(*self, *other),
    {
        match (self, other) {
            (TypeMode::Regular, TypeMode::Regular) => true,
            (TypeMode::Regular, TypeMode::Immutable) => true,
            (TypeMode::Immutable, TypeMode::Immutable) => true,
            (TypeMode::Immutable, TypeMode::Regular) => true,
            (_, TypeMode::Optional) => true,
            (TypeMode::Optional, _) => true,
            (TypeMode::Undeclared, _) => false,
            (_, TypeMode::Undeclared) => false,
            (TypeMode::Splat(_), TypeMode::Splat(_)) => true,
            _ => false,
        }
    }
}

impl TypeNode {
    /// Structural shape equality (see `spec_shape_eq`).
    #[verifier::loop_isolation(false)]
    pub fn shape_eq(&self, other: &TypeNode) -> (r: bool)
        ensures
            r == spec_shape_eq(*self, *other),
        decreases *self,
    {
        match (self, other) {
            (TypeNode::Int, TypeNode::Int) => true,
            (TypeNode::Float, TypeNode::Float) => true,
            (TypeNode::Bool, TypeNode::Bool) => true,
            (TypeNode::Str, TypeNode::Str) => true,
            (TypeNode::Char, TypeNode::Char) => true,
            (TypeNode::Nil, TypeNode::Nil) => true,
            (TypeNode::Id(x), TypeNode::Id(y)) => *x == *y,
            (TypeNode::Array(ea, la), TypeNode::Array(eb, lb)) => {
                let lens_eq = match (la, lb) {
                    (Some(x), Some(y)) => x == y,
                    (None, None) => true,
                    _ => false,
                };
                lens_eq && ea.compatible(eb)
            },
            (TypeNode::Tuple(xs), TypeNode::Tuple(ys)) => {
                if xs.len() != ys.len() {
                    false
                } else {
                    let mut i: usize = 0;
                    let mut ok = true;
                    while i < xs.len()
                        invariant
                            0 <= i <= xs.len(),
                            xs.len() == ys.len(),
                            ok == (forall|j: int|
                                0 <= j < i ==> spec_type_compatible(#[trigger] xs@[j], ys@[j])),
                        decreases xs.len() - i,
                    {
                        proof {
                            assert(decreases_to!(*self => *xs));
                            assert(decreases_to!(*xs => xs@[i as int]));
                        }
                        let c = xs[i].compatible(&ys[i]);
                        ok = ok && c;
                        i = i + 1;
                    }
                    ok
                }
            },
            _ => false,
        }
    }
}

impl Type {
    /// Builds a type from a shape and a qualifier.
    pub fn new(node: TypeNode, mode: TypeMode) -> (r: Type)
        ensures
            r.node == node,
            r.mode == mode,
    {
        Type { node, mode }
    }

    /// A regular named type reference.
    pub fn id(id: &str) -> (r: Type)
        ensures
            r.node matches TypeNode::Id(n) && n@ == id@,
            r.mode == TypeMode::Regular,
    {
        Type::new(TypeNode::Id(id.to_owned()), TypeMode::Regular)
    }

    /// A regular type of the given shape.
    pub fn from(node: TypeNode) -> (r: Type)
        ensures
            r.node == node,
            r.mode == TypeMode::Regular,
    {
        Type::new(node, TypeMode::Regular)
    }

    /// A regular tuple/set type of the given component types.
    pub fn set(content: Vec<Type>) -> (r: Type)
        ensures
            r.node == TypeNode::Tuple(content),
            r.mode == TypeMode::Regular,
    {
        Type::new(TypeNode::Tuple(content), TypeMode::Regular)
    }

    /// A regular array type; `len` is the fixed length, or `None` for the
    /// open/unsized grammar form.
    pub fn array(t: Type, len: Option<u64>) -> (r: Type)
        ensures
            r.node == TypeNode::Array(Box::new(t), len),
            r.mode == TypeMode::Regular,
    {
        Type::new(TypeNode::Array(Box::new(t), len), TypeMode::Regular)
    }

    /// A regular function type from parameter types to a return type.
    pub fn function(params: Vec<Type>, return_type: Type) -> (r: Type)
        ensures
            r.node == TypeNode::Func(params, Box::new(return_type)),
            r.mode == TypeMode::Regular,
    {
        Type::new(TypeNode::Func(params, Box::new(return_type)), TypeMode::Regular)
    }

    /// Full compatibility: equal shapes and compatible qualifiers.
    pub fn compatible(&self, other: &Type) -> (r: bool)
        ensures
            r == spec_type_compatible(*self, *other),
        decreases *self,
    {
        self.node.shape_eq(&other.node) && self.mode.compatible(&other.mode)
    }
}

/// The rendered form of a qualifier, as a prefix of the type's text; the
/// regular qualifier renders as nothing and the splat marker as the `..` of
/// the parameter syntax.
pub open spec fn spec_mode_text(m: TypeMode) -> Seq<char> {
    match m {
        TypeMode::Regular => Seq::<char>::empty(),
        TypeMode::Immutable => "constant "@,
        TypeMode::Undeclared => "undeclared "@,
        TypeMode::Optional => "optional "@,
        TypeMode::Splat(_) => ".."@,
    }
}

/// The rendered form of a shape: the primitive names (the integer and float
/// shapes print as `int` and `double`), a named type as its name, an array
/// as its bracketed element, a tuple as its parenthesized comma-separated
/// components, and a function shape as its parenthesized parameter list
/// followed by its return type.
pub open spec fn spec_shape_text(n: TypeNode) -> Seq<char>
    decreases n,
{
    match n {
        TypeNode::Int => "int"@,
        TypeNode::Float => "double"@,
        TypeNode::Bool => "bool"@,
        TypeNode::Str => "string"@,
        TypeNode::Char => "char"@,
        TypeNode::Nil => "nil"@,
        TypeNode::Id(name) => name@,
        TypeNode::Array(t, _len) => "["@ + spec_type_text(*t) + "]"@,
        TypeNode::Tuple(xs) => "("@ + spec_type_list_text(xs@, 0) + ")"@,
        TypeNode::Func(params, ret) => "("@ + spec_type_list_text(params@, 0) + ") "@
            + spec_type_text(*ret),
    }
}

/// The rendered form of a type: its qualifier prefix, then its shape.
pub open spec fn spec_type_text(t: Type) -> Seq<char>
    decreases t,
{
    spec_mode_text(t.mode) + spec_shape_text(t.node)
}

/// The rendered form of the tail of a type list from position `i` on,
/// comma-separated.
pub open spec fn spec_type_list_text(ts: Seq<Type>, i: int) -> Seq<char>
    decreases ts, ts.len() - i,
{
    if i < 0 || i >= ts.len() {
        Seq::<char>::empty()
    } else if i == ts.len() - 1 {
        spec_type_text(ts[i])
    } else {
        spec_type_text(ts[i]) + ", "@ + spec_type_list_text(ts, i + 1)
    }
}

impl TypeMode {
    /// Renders the qualifier prefix (see `spec_mode_text`).
    pub fn text(&self) -> (r: String)
        ensures
            r@ == spec_mode_text(*self),
    {
        let out = match self {
            TypeMode::Regular => String::new(),
            TypeMode::Immutable => "constant ".to_owned(),
            TypeMode::Undeclared => "undeclared ".to_owned(),
            TypeMode::Optional => "optional ".to_owned(),
            TypeMode::Splat(_) => "..".to_owned(),
        };
        out
    }
}

impl TypeNode {
    /// Renders the shape (see `spec_shape_text`).
    pub fn text(&self) -> (r: String)
        ensures
            r@ == spec_shape_text(*self),
        decreases *self,
    {
        match self {
            TypeNode::Int => "int".to_owned(),
            TypeNode::Float => "double".to_owned(),
            TypeNode::Bool => "bool".to_owned(),
            TypeNode::Str => "string".to_owned(),
            TypeNode::Char => "char".to_owned(),
            TypeNode::Nil => "nil".to_owned(),
            TypeNode::Id(name) => name.clone(),
            TypeNode::Array(t, _len) => {
                let mut out = "[".to_owned();
                out.append(t.text().as_str());
                out.append("]");
                proof {
                    assert(out@ =~= "["@ + spec_type_text(**t) + "]"@);
                }
                out
            },
            TypeNode::Tuple(xs) => {
                proof {
                    assert(decreases_to!(*self => *xs));
                }
                let mut out = "(".to_owned();
                out.append(type_list_text(xs).as_str());
                out.append(")");
                proof {
                    assert(out@ =~= "("@ + spec_type_list_text(xs@, 0) + ")"@);
                }
                out
            },
            TypeNode::Func(params, ret) => {
                proof {
                    assert(decreases_to!(*self => *params));
                }
                let mut out = "(".to_owned();
                out.append(type_list_text(params).as_str());
                out.append(") ");
                out.append(ret.text().as_str());
                proof {
                    assert(out@ =~= "("@ + spec_type_list_text(params@, 0) + ") "@
                        + spec_type_text(**ret));
                }
                out
            },
        }
    }
}

impl Type {
    /// Renders the type: its qualifier prefix, then its shape.
    pub fn text(&self) -> (r: String)
        ensures
            r@ == spec_type_text(*self),
        decreases *self,
    {
        let mut out = self.mode.text();
        out.append(self.node.text().as_str());
        out
    }
}

/// Renders a type list, comma-separated.
#[verifier::loop_isolation(false)]
fn type_list_text(ts: &Vec<Type>) -> (r: String)
    ensures
        r@ == spec_type_list_text(ts@, 0),
    decreases ts@,
{
    let mut out = String::new();
    let mut i: usize = 0;
    while i < ts.len()
        invariant
            0 <= i <= ts@.len(),
            spec_type_list_text(ts@, 0) =~= out@ + spec_type_list_text(ts@, i as int),
        decreases ts@.len() - i,
    {
        proof {
            assert(decreases_to!(*ts => ts@[i as int]));
        }
        let piece = ts[i].text();
        out.append(piece.as_str());
        if i + 1 < ts.len() {
            out.append(", ");
            proof {
                assert(out@ + spec_type_list_text(ts@, i + 1) =~= spec_type_list_text(ts@, 0));
            }
        } else {
            proof {
                assert(out@ + spec_type_list_text(ts@, i + 1) =~= spec_type_list_text(ts@, 0));
            }
        }
        i = i + 1;
    }
    proof {
        assert(out@ + spec_type_list_text(ts@, i as int) =~= out@);
    }
    out
}

/// Law: the qualifier-compatibility table is total over all qualifier pairs
/// and matches the stated truth table. `Optional` is compatible with
/// everything on either side; apart from the pairs involving `Optional`,
/// `Undeclared` is compatible with nothing, itself included; `Regular` and
/// `Immutable` are mutually compatible.
pub proof fn lemma_mode_compatibility_table(a: TypeMode, b: TypeMode)
    ensures
        spec_mode_compatible(a, TypeMode::Optional),
        spec_mode_compatible(TypeMode::Optional, b),
        !(a is Optional) ==> !spec_mode_compatible(a, TypeMode::Undeclared),
        !(b is Optional) ==> !spec_mode_compatible(TypeMode::Undeclared, b),
        !spec_mode_compatible(TypeMode::Undeclared, TypeMode::Undeclared),
        spec_mode_compatible(TypeMode::Regular, TypeMode::Regular),
        spec_mode_compatible(TypeMode::Regular, TypeMode::Immutable),
        spec_mode_compatible(TypeMode::Immutable, TypeMode::Regular),
        spec_mode_compatible(TypeMode::Immutable, TypeMode::Immutable),
{
}

} // verus!
