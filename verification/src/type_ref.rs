//! Type references of the HIR, read from the syntax tree of SourcePawn.
use vstd::prelude::*;

use crate::chars::text_eq;

verus! {

/// A name in the HIR.
#[derive(Debug, PartialEq, Eq, Hash)]
pub struct Name(String);

impl Clone for Name {
    fn clone(&self) -> (r: Name)
        ensures
            r@ == self@,
    {
        Name(self.0.clone())
    }
}

impl View for Name {
    type V = Seq<char>;

    closed spec fn view(&self) -> Seq<char> {
        self.0@
    }
}

impl Name {
    pub fn from_text(text: &str) -> (r: Name)
        ensures
            r@ == text@,
    {
        Name(String::from_str(text))
    }

    pub fn as_str(&self) -> (r: &str)
        ensures
            r@ == self@,
    {
        self.0.as_str()
    }
}

/// What the HIR reads of a node of the syntax tree: its kind, whether it is
/// named, its text, and its children with the names of the fields they fill.
pub struct SyntaxNode {
    /// The grammar symbol of the node (`tree_sitter::Node::kind`).
    pub kind: String,
    /// Whether the node is named in the grammar, rather than anonymous
    /// (`tree_sitter::Node::is_named`).
    pub is_named: bool,
    /// The source text of the node; `None` when it is not valid UTF-8.
    pub text: Option<String>,
    /// The children of the node, in order.
    pub children: Vec<SyntaxChild>,
}

/// A child of a syntax node.
pub struct SyntaxChild {
    /// The name of the field of the parent that the child fills, if any.
    pub field_name: Option<String>,
    pub node: SyntaxNode,
}

/// The mathematical value of a type reference.
pub enum TypeRefView {
    Name(Seq<char>),
    OldName(Seq<char>),
    Int,
    Int64,
    Bool,
    Float,
    Char,
    Void,
    Any,
    OldString,
    OldFloat,
    Array(Box<TypeRefView>, usize),
}

#[derive(Debug, Eq, PartialEq, Hash)]
pub enum TypeRef {
    /// Reference to a type definition (e.g. enum struct, enum, methodmap, etc.)
    Name(Name),
    /// Old name
    OldName(Name),
    /// int
    Int,
    /// int64
    Int64,
    /// bool
    Bool,
    /// float
    Float,
    /// char
    Char,
    /// void
    Void,
    /// any
    Any,
    /// String
    OldString,
    /// Float
    OldFloat,
    /// Array
    Array((Box<TypeRef>, usize)),
}

impl TypeRef {
    pub open spec fn model(&self) -> TypeRefView
        decreases self,
    {
        match self {
            TypeRef::Name(n) => TypeRefView::Name(n@),
            TypeRef::OldName(n) => TypeRefView::OldName(n@),
            TypeRef::Int => TypeRefView::Int,
            TypeRef::Int64 => TypeRefView::Int64,
            TypeRef::Bool => TypeRefView::Bool,
            TypeRef::Float => TypeRefView::Float,
            TypeRef::Char => TypeRefView::Char,
            TypeRef::Void => TypeRefView::Void,
            TypeRef::Any => TypeRefView::Any,
            TypeRef::OldString => TypeRefView::OldString,
            TypeRef::OldFloat => TypeRefView::OldFloat,
            TypeRef::Array((inner, size)) => TypeRefView::Array(Box::new(inner.model()), *size),
        }
    }
}

impl View for TypeRef {
    type V = TypeRefView;

    open spec fn view(&self) -> TypeRefView {
        self.model()
    }
}

/// `n` times `[]`.
pub open spec fn brackets(n: nat) -> Seq<char>
    decreases n,
{
    if n == 0 {
        Seq::<char>::empty()
    } else {
        brackets((n - 1) as nat) + "[]"@
    }
}

/// The keyword of a builtin type, `None` for names and arrays.
pub open spec fn builtin_keyword(t: TypeRefView) -> Option<Seq<char>> {
    match t {
        TypeRefView::Int => Some("int"@),
        TypeRefView::Int64 => Some("int64"@),
        TypeRefView::Bool => Some("bool"@),
        TypeRefView::Float => Some("float"@),
        TypeRefView::Char => Some("char"@),
        TypeRefView::Void => Some("void"@),
        TypeRefView::Any => Some("any"@),
        TypeRefView::OldString => Some("String"@),
        TypeRefView::OldFloat => Some("Float"@),
        _ => None,
    }
}

/// How a type reference is written in source: a name as it is, an old name
/// followed by `:`, a builtin type by its keyword, and an array as its
/// element type followed by `[]` for each dimension.
pub open spec fn display(t: TypeRefView) -> Seq<char>
    decreases t,
{
    match t {
        TypeRefView::Name(n) => n,
        TypeRefView::OldName(n) => n + ":"@,
        TypeRefView::Array(inner, size) => display(*inner) + brackets(size as nat),
        _ => builtin_keyword(t).unwrap(),
    }
}

/// The type as text without the array brackets or the colon of old types:
/// an array is written as the text of its element type.
pub open spec fn type_text(t: TypeRefView) -> Seq<char>
    decreases t,
{
    match t {
        TypeRefView::Name(n) => n,
        TypeRefView::OldName(n) => n,
        TypeRefView::Array(inner, _) => type_text(*inner),
        _ => builtin_keyword(t).unwrap(),
    }
}

/// An array type with one dimension less; other types, and arrays of one
/// dimension, stay as they are.
pub open spec fn lower_dim(t: TypeRefView) -> TypeRefView {
    match t {
        TypeRefView::Array(inner, size) => if size > 1 {
            TypeRefView::Array(inner, (size - 1) as usize)
        } else {
            t
        },
        _ => t,
    }
}

pub open spec fn opt_text(t: Option<String>) -> Option<Seq<char>> {
    match t {
        Some(t) => Some(t@),
        None => None,
    }
}

/// The text of a node as a name reads it: empty when it is not UTF-8.
pub open spec fn text_or_empty(text: Option<Seq<char>>) -> Seq<char> {
    match text {
        Some(t) => t,
        None => Seq::<char>::empty(),
    }
}

/// `s` without the `:` characters at its end.
pub open spec fn trim_end_colons(s: Seq<char>) -> Seq<char>
    decreases s.len(),
{
    if s.len() > 0 && s.last() == ':' {
        trim_end_colons(s.drop_last())
    } else {
        s
    }
}

/// An anonymous node of kind `kind` (a keyword of the grammar).
pub open spec fn is_anon(node: SyntaxNode, kind: Seq<char>) -> bool {
    !node.is_named && node.kind@ == kind
}

/// A named node of kind `kind` (a rule of the grammar).
pub open spec fn is_rule(node: SyntaxNode, kind: Seq<char>) -> bool {
    node.is_named && node.kind@ == kind
}

/// A node whose text the HIR must read: an old-style type (`Float:`), whose
/// text is not valid UTF-8, cannot be read.
pub open spec fn is_readable(node: SyntaxNode) -> bool {
    is_rule(node, "old_type"@) ==> node.text is Some
}

/// The type that a type node names. A node whose text is `int64` is `int64`,
/// whatever its kind; the keywords `int`, `bool`, `float`, `char`, `void`,
/// `String` and `Float` name builtin types (the old keywords `String` and
/// `Float` name the old types `String` and `Float`); the rule
/// `any_type` names `any`; the rule `old_type` names an old name, its text
/// without trailing colons; any other node names the type its text names.
pub open spec fn node_type(node: SyntaxNode) -> TypeRefView {
    let text = opt_text(node.text);
    if text == Some("int64"@) {
        TypeRefView::Int64
    } else if is_anon(node, "int"@) {
        TypeRefView::Int
    } else if is_anon(node, "bool"@) {
        TypeRefView::Bool
    } else if is_anon(node, "float"@) {
        TypeRefView::Float
    } else if is_anon(node, "char"@) {
        TypeRefView::Char
    } else if is_anon(node, "void"@) {
        TypeRefView::Void
    } else if is_rule(node, "any_type"@) {
        TypeRefView::Any
    } else if is_anon(node, "String"@) {
        TypeRefView::OldString
    } else if is_anon(node, "Float"@) {
        TypeRefView::OldFloat
    } else if is_rule(node, "old_type"@) {
        TypeRefView::OldName(trim_end_colons(text.unwrap()))
    } else {
        TypeRefView::Name(text_or_empty(text))
    }
}

/// The old keyword `Float` names the old type `Float`, which is written as
/// the keyword itself.
pub proof fn lemma_old_float_keyword(node: SyntaxNode)
    requires
        is_anon(node, "Float"@),
        opt_text(node.text) == Some("Float"@),
    ensures
        node_type(node) == TypeRefView::OldFloat,
        display(node_type(node)) == opt_text(node.text).unwrap(),
{
    reveal_strlit("Float");
    reveal_strlit("int64");
    reveal_strlit("int");
    reveal_strlit("bool");
    reveal_strlit("float");
    reveal_strlit("char");
    reveal_strlit("void");
    reveal_strlit("String");
    assert("Float"@[0] != "int64"@[0]);
    assert("Float"@ != "int64"@);
    assert("Float"@[0] != "int"@[0]);
    assert("Float"@ != "int"@);
    assert("Float"@[0] != "float"@[0]);
    assert("Float"@ != "float"@);
    assert("Float"@ != "bool"@);
    assert("Float"@ != "char"@);
    assert("Float"@ != "void"@);
    assert("Float"@ != "String"@);
}

/// A node that adds a dimension to an array type.
pub open spec fn is_dimension(node: SyntaxNode) -> bool {
    is_rule(node, "dimension"@) || is_rule(node, "fixed_dimension"@)
}

/// The child fills the field named `field`.
pub open spec fn fills_field(c: SyntaxChild, field: Seq<char>) -> bool {
    c.field_name matches Some(f) && f@ == field
}

/// Over the children that fill `field`: the type of the last one that is no
/// dimension, and the number of dimensions.
pub open spec fn field_type_and_dims(children: Seq<SyntaxChild>, field: Seq<char>) -> (
    Option<TypeRefView>,
    nat,
)
    decreases children.len(),
{
    if children.len() == 0 {
        (None, 0)
    } else {
        let (t, dims) = field_type_and_dims(children.drop_last(), field);
        let c = children.last();
        if !fills_field(c, field) {
            (t, dims)
        } else if is_dimension(c.node) {
            (t, dims + 1)
        } else {
            (Some(node_type(c.node)), dims)
        }
    }
}

/// The type that the children of a node filling `field` name: the type of
/// the last of them that is no dimension, an array of it when there are
/// dimensions among them, and `None` when all are dimensions.
pub open spec fn field_type(children: Seq<SyntaxChild>, field: Seq<char>) -> Option<TypeRefView> {
    let (t, dims) = field_type_and_dims(children, field);
    match t {
        Some(t) => Some(
            if dims > 0 {
                TypeRefView::Array(Box::new(t), dims as usize)
            } else {
                t
            },
        ),
        None => None,
    }
}

impl Clone for TypeRef {
    fn clone(&self) -> (r: TypeRef)
        ensures
            r@ == self@,
        decreases self,
    {
        match self {
            TypeRef::Name(n) => TypeRef::Name(n.clone()),
            TypeRef::OldName(n) => TypeRef::OldName(n.clone()),
            TypeRef::Int => TypeRef::Int,
            TypeRef::Int64 => TypeRef::Int64,
            TypeRef::Bool => TypeRef::Bool,
            TypeRef::Float => TypeRef::Float,
            TypeRef::Char => TypeRef::Char,
            TypeRef::Void => TypeRef::Void,
            TypeRef::Any => TypeRef::Any,
            TypeRef::OldString => TypeRef::OldString,
            TypeRef::OldFloat => TypeRef::OldFloat,
            TypeRef::Array((inner, size)) => {
                let inner_copy: TypeRef = (**inner).clone();
                TypeRef::Array((Box::new(inner_copy), *size))
            },
        }
    }
}

impl TypeRef {
    pub fn to_lower_dim(&self) -> (r: TypeRef)
        ensures
            r@ == lower_dim(self@),
    {
        match self {
            TypeRef::Array((type_ref, size)) => {
                if *size > 1 {
                    let inner: TypeRef = (**type_ref).clone();
                    TypeRef::Array((Box::new(inner), *size - 1))
                } else {
                    self.clone()
                }
            },
            _ => self.clone(),
        }
    }

    /// The keyword of a builtin type.
    fn builtin_text(&self) -> (r: String)
        requires
            builtin_keyword(self@) is Some,
        ensures
            r@ == builtin_keyword(self@).unwrap(),
    {
        match self {
            TypeRef::Int => String::from_str("int"),
            TypeRef::Int64 => String::from_str("int64"),
            TypeRef::Bool => String::from_str("bool"),
            TypeRef::Float => String::from_str("float"),
            TypeRef::Char => String::from_str("char"),
            TypeRef::Void => String::from_str("void"),
            TypeRef::Any => String::from_str("any"),
            TypeRef::OldString => String::from_str("String"),
            TypeRef::OldFloat => String::from_str("Float"),
            _ => String::new(),
        }
    }

    /// The type as it is written in source (the type's `Display`).
    pub fn to_string(&self) -> (r: String)
        ensures
            r@ == display(self@),
        decreases self,
    {
        match self {
            TypeRef::Name(name) => String::from_str(name.as_str()),
            TypeRef::OldName(name) => String::from_str(name.as_str()).concat(":"),
            TypeRef::Array((type_ref, size)) => {
                let mut res = type_ref.to_string();
                let ghost base = res@;
                let mut k: usize = 0;
                while k < *size
                    invariant
                        k <= *size,
                        res@ == base + brackets(k as nat),
                    decreases *size - k,
                {
                    res.append("[]");
                    k = k + 1;
                }
                res
            },
            _ => self.builtin_text(),
        }
    }

    /// Returns the type as a string without the array brackets or the colon
    /// for old types.
    pub fn type_as_string(&self) -> (r: String)
        ensures
            r@ == type_text(self@),
        decreases self,
    {
        match self {
            TypeRef::Name(name) => String::from_str(name.as_str()),
            TypeRef::OldName(name) => String::from_str(name.as_str()),
            TypeRef::Array((type_ref, _)) => type_ref.type_as_string(),
            _ => self.builtin_text(),
        }
    }
}

/// Lowering the dimension of a type keeps the type it is written with: the
/// text without brackets stays the same, and an array of more than one
/// dimension loses exactly one trailing `[]`.
pub proof fn lemma_lower_dim_text(t: TypeRefView)
    ensures
        type_text(lower_dim(t)) == type_text(t),
        t matches TypeRefView::Array(_, size) && size > 1 ==> display(lower_dim(t)) + "[]"@
            == display(t),
{
    if let TypeRefView::Array(inner, size) = t {
        if size > 1 {
            assert(display(lower_dim(t)) + "[]"@ =~= display(t));
        }
    }
}

/// An array is written as its element type followed by one `[]` for each
/// dimension, and its text without brackets is that of its element type,
/// whatever the number of dimensions.
pub proof fn lemma_array_text(element: TypeRefView, size: usize)
    ensures
        display(TypeRefView::Array(Box::new(element), size)) == display(element) + brackets(
            size as nat,
        ),
        type_text(TypeRefView::Array(Box::new(element), size)) == type_text(element),
{
}

/// Lowering leaves every type that is no array as it is, and so also the
/// way it is written; an array of one dimension stays as it is, and an array
/// of more dimensions keeps its element type and loses one dimension.
pub proof fn lemma_lower_dim_shape(t: TypeRefView)
    ensures
        !(t is Array) ==> lower_dim(t) == t && display(lower_dim(t)) == display(t),
        t matches TypeRefView::Array(element, size) ==> lower_dim(t) == (if size > 1 {
            TypeRefView::Array(element, (size - 1) as usize)
        } else {
            t
        }),
{
}

/// The text without brackets of a type that is neither an array nor an old
/// name is the way the type is written; an old name is written as its text
/// followed by `:`; an array's text is that of its element type.
pub proof fn lemma_type_text_and_display(t: TypeRefView)
    ensures
        !(t is Array) && !(t is OldName) ==> type_text(t) == display(t),
        t is OldName ==> display(t) == type_text(t) + ":"@,
        t matches TypeRefView::Array(element, _) ==> type_text(t) == type_text(*element),
{
}

/// A builtin type read from its keyword reads back as that keyword: the
/// text of a node that is `int64`, or of an anonymous keyword node whose text
/// is its kind, is both the way its type is written and its text without
/// brackets.
pub proof fn lemma_keyword_reads_back(node: SyntaxNode)
    requires
        opt_text(node.text) == Some("int64"@) || ({
            &&& !node.is_named
            &&& opt_text(node.text) == Some(node.kind@)
            &&& (node.kind@ == "int"@ || node.kind@ == "bool"@ || node.kind@ == "float"@
                || node.kind@ == "char"@ || node.kind@ == "void"@ || node.kind@ == "String"@
                || node.kind@ == "Float"@)
        }),
    ensures
        display(node_type(node)) == opt_text(node.text).unwrap(),
        type_text(node_type(node)) == opt_text(node.text).unwrap(),
{
    reveal_strlit("int64");
    reveal_strlit("int");
    reveal_strlit("bool");
    reveal_strlit("float");
    reveal_strlit("char");
    reveal_strlit("void");
    reveal_strlit("String");
    reveal_strlit("Float");
    let k = node.kind@;
    if opt_text(node.text) != Some("int64"@) {
        assert(k != "int64"@);
        if k == "int"@ {
        } else if k == "bool"@ {
            assert(k != "int"@) by { assert(k[0] != "int"@[0]); }
        } else if k == "float"@ {
            assert(k != "int"@) by { assert(k[0] != "int"@[0]); }
            assert(k != "bool"@) by { assert(k[0] != "bool"@[0]); }
        } else if k == "char"@ {
            assert(k != "int"@) by { assert(k[0] != "int"@[0]); }
            assert(k != "bool"@) by { assert(k[0] != "bool"@[0]); }
            assert(k != "float"@) by { assert(k[0] != "float"@[0]); }
        } else if k == "void"@ {
            assert(k != "int"@) by { assert(k[0] != "int"@[0]); }
            assert(k != "bool"@) by { assert(k[0] != "bool"@[0]); }
            assert(k != "float"@) by { assert(k[0] != "float"@[0]); }
            assert(k != "char"@) by { assert(k[0] != "char"@[0]); }
        } else if k == "String"@ {
            assert(k != "int"@) by { assert(k[0] != "int"@[0]); }
            assert(k != "bool"@) by { assert(k[0] != "bool"@[0]); }
            assert(k != "float"@) by { assert(k[0] != "float"@[0]); }
            assert(k != "char"@) by { assert(k[0] != "char"@[0]); }
            assert(k != "void"@) by { assert(k[0] != "void"@[0]); }
        } else {
            assert(k != "int"@) by { assert(k[0] != "int"@[0]); }
            assert(k != "bool"@) by { assert(k[0] != "bool"@[0]); }
            assert(k != "float"@) by { assert(k[0] != "float"@[0]); }
            assert(k != "char"@) by { assert(k[0] != "char"@[0]); }
            assert(k != "void"@) by { assert(k[0] != "void"@[0]); }
            assert(k != "String"@) by { assert(k[0] != "String"@[0]); }
        }
    }
}

/// The type a node names is never an array: dimensions come from separate
/// children.
pub proof fn lemma_node_type_not_array(node: SyntaxNode)
    ensures
        !(node_type(node) is Array),
{
}

/// Children that do not fill the field leave the field's type as it is.
pub proof fn lemma_field_type_other_child(
    children: Seq<SyntaxChild>,
    c: SyntaxChild,
    field: Seq<char>,
)
    requires
        !fills_field(c, field),
    ensures
        field_type(children.push(c), field) == field_type(children, field),
{
    assert(children.push(c).drop_last() =~= children);
}

/// A dimension child that fills the field adds one dimension to the field's
/// type: a type that was no array becomes an array of one dimension, and an
/// array gets one dimension more. With no type child, there is still none.
pub proof fn lemma_field_type_add_dimension(
    children: Seq<SyntaxChild>,
    d: SyntaxChild,
    field: Seq<char>,
)
    requires
        fills_field(d, field),
        is_dimension(d.node),
        field_type_and_dims(children, field).1 < usize::MAX,
    ensures
        field_type(children, field) is None ==> field_type(children.push(d), field) is None,
        field_type(children, field) matches Some(t) ==> field_type(children.push(d), field)
            == Some(
            match t {
                TypeRefView::Array(element, size) => TypeRefView::Array(
                    element,
                    (size + 1) as usize,
                ),
                _ => TypeRefView::Array(Box::new(t), 1),
            },
        ),
{
    assert(children.push(d).drop_last() =~= children);
    lemma_field_type_and_dims_type(children, field);
}

/// A type child that fills the field gives the field its type, keeping the
/// dimensions counted so far.
pub proof fn lemma_field_type_add_type(children: Seq<SyntaxChild>, c: SyntaxChild, field: Seq<char>)
    requires
        fills_field(c, field),
        !is_dimension(c.node),
        field_type_and_dims(children, field).1 < usize::MAX,
    ensures
        field_type(children.push(c), field) == Some(
            if field_type_and_dims(children, field).1 > 0 {
                TypeRefView::Array(
                    Box::new(node_type(c.node)),
                    field_type_and_dims(children, field).1 as usize,
                )
            } else {
                node_type(c.node)
            },
        ),
{
    assert(children.push(c).drop_last() =~= children);
}

/// The type found among the children is always that of a node.
proof fn lemma_field_type_and_dims_type(children: Seq<SyntaxChild>, field: Seq<char>)
    ensures
        field_type_and_dims(children, field).0 matches Some(t) ==> !(t is Array),
    decreases children.len(),
{
    if children.len() > 0 {
        lemma_field_type_and_dims_type(children.drop_last(), field);
    }
}

/// `text` without the `:` characters at its end.
fn trim_colons_end(text: &str) -> (r: String)
    ensures
        r@ == trim_end_colons(text@),
{
    let n = text.unicode_len();
    let mut end = n;
    assert(text@.subrange(0, n as int) =~= text@);
    while end > 0 && text.get_char(end - 1) == ':'
        invariant
            end <= n,
            n == text@.len(),
            trim_end_colons(text@.subrange(0, end as int)) == trim_end_colons(text@),
        decreases end,
    {
        assert(text@.subrange(0, end as int).drop_last() =~= text@.subrange(0, end - 1));
        end = end - 1;
    }
    String::from_str(text.substring_char(0, end))
}

impl TypeRef {
    /// The type that a type node names.
    pub fn from_node(node: &SyntaxNode) -> (r: TypeRef)
        requires
            is_readable(*node),
        ensures
            r@ == node_type(*node),
    {
        let kind = node.kind.as_str();
        let named = node.is_named;
        if let Some(text) = &node.text {
            if text_eq(text.as_str(), "int64") {
                return TypeRef::Int64;
            }
        }
        if !named && text_eq(kind, "int") {
            TypeRef::Int
        } else if !named && text_eq(kind, "bool") {
            TypeRef::Bool
        } else if !named && text_eq(kind, "float") {
            TypeRef::Float
        } else if !named && text_eq(kind, "char") {
            TypeRef::Char
        } else if !named && text_eq(kind, "void") {
            TypeRef::Void
        } else if named && text_eq(kind, "any_type") {
            TypeRef::Any
        } else if !named && text_eq(kind, "String") {
            TypeRef::OldString
        } else if !named && text_eq(kind, "Float") {
            TypeRef::OldFloat
        } else if named && text_eq(kind, "old_type") {
            match &node.text {
                Some(text) => TypeRef::OldName(Name(trim_colons_end(text.as_str()))),
                None => TypeRef::OldName(Name(String::new())),
            }
        } else {
            match &node.text {
                Some(text) => TypeRef::Name(Name::from_text(text.as_str())),
                None => TypeRef::Name(Name(String::new())),
            }
        }
    }

    /// The type that the children of `node` filling the field `field_name`
    /// name; `None` when no child that fills it names a type.
    pub fn from_returntype_node(node: &SyntaxNode, field_name: &str) -> (r: Option<TypeRef>)
        requires
            forall|k: int|
                0 <= k < node.children@.len() && fills_field(node.children@[k], field_name@)
                    ==> is_readable(#[trigger] node.children@[k].node),
        ensures
            match r {
                Some(t) => field_type(node.children@, field_name@) == Some(t@),
                None => field_type(node.children@, field_name@) is None,
            },
    {
        let children = &node.children;
        let mut type_ref: Option<TypeRef> = None;
        let mut size: usize = 0;
        let mut i: usize = 0;
        while i < children.len()
            invariant
                i <= children@.len(),
                children@ == node.children@,
                size <= i,
                forall|k: int|
                    0 <= k < node.children@.len() && fills_field(node.children@[k], field_name@)
                        ==> is_readable(#[trigger] node.children@[k].node),
                field_type_and_dims(children@.take(i as int), field_name@) == (
                    match type_ref {
                        Some(t) => Some(t@),
                        None => None::<TypeRefView>,
                    },
                    size as nat,
                ),
            decreases children@.len() - i,
        {
            let child = &children[i];
            assert(children@.take(i + 1).drop_last() =~= children@.take(i as int));
            let fills = match &child.field_name {
                Some(f) => text_eq(f.as_str(), field_name),
                None => false,
            };
            if fills {
                let kind = child.node.kind.as_str();
                if child.node.is_named && (text_eq(kind, "dimension") || text_eq(
                    kind,
                    "fixed_dimension",
                )) {
                    size = size + 1;
                } else {
                    type_ref = Some(TypeRef::from_node(&child.node));
                }
            }
            i = i + 1;
        }
        assert(children@.take(i as int) =~= children@);
        match type_ref {
            Some(type_ref) => {
                if size > 0 {
                    Some(TypeRef::Array((Box::new(type_ref), size)))
                } else {
                    Some(type_ref)
                }
            },
            None => None,
        }
    }
}

/// The type, as text without array brackets, that a type node names.
pub fn type_string_from_node(node: &SyntaxNode) -> (r: String)
    requires
        is_readable(*node),
    ensures
        r@ == type_text(node_type(*node)),
{
    TypeRef::from_node(node).type_as_string()
}

} // verus!
