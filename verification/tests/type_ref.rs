use sourcepawn_core::type_ref::{
    type_string_from_node, Name, SyntaxChild, SyntaxNode, TypeRef,
};

/// What the HIR reads of a node of a tree-sitter tree, with its children.
fn syntax_node(node: tree_sitter::Node, source: &str) -> SyntaxNode {
    let mut children = Vec::new();
    let mut cursor = node.walk();
    if cursor.goto_first_child() {
        loop {
            children.push(SyntaxChild {
                field_name: cursor.field_name().map(|f| f.to_string()),
                node: syntax_node(cursor.node(), source),
            });
            if !cursor.goto_next_sibling() {
                break;
            }
        }
    }
    SyntaxNode {
        kind: node.kind().to_string(),
        is_named: node.is_named(),
        text: node.utf8_text(source.as_bytes()).ok().map(|t| t.to_string()),
        children,
    }
}

fn parse_first_item(source: &str) -> tree_sitter::Tree {
    let mut parser = tree_sitter::Parser::new();
    parser
        .set_language(tree_sitter_sourcepawn::language())
        .expect("Failed to set SourcePawn language");
    parser.parse(source, None).expect("Failed to parse source")
}

#[test]
fn recognizes_int64_variable_type() {
    let source = "int64 value = 2147483648;";
    let tree = parse_first_item(source);
    let item = tree.root_node().named_child(0).expect("Missing item");

    assert!(!item.has_error());
    assert_eq!(
        TypeRef::from_returntype_node(&syntax_node(item, source), "type"),
        Some(TypeRef::Int64)
    );
}

#[test]
fn recognizes_int64_function_return_type() {
    let source = "int64 get_value() { return 2147483648; }";
    let tree = parse_first_item(source);
    let item = tree.root_node().named_child(0).expect("Missing item");

    assert!(!item.has_error());
    assert_eq!(
        TypeRef::from_returntype_node(&syntax_node(item, source), "returnType"),
        Some(TypeRef::Int64)
    );
}

fn leaf(kind: &str, is_named: bool, text: &str) -> SyntaxNode {
    SyntaxNode {
        kind: kind.to_string(),
        is_named,
        text: Some(text.to_string()),
        children: Vec::new(),
    }
}

fn child(field: Option<&str>, node: SyntaxNode) -> SyntaxChild {
    SyntaxChild {
        field_name: field.map(|f| f.to_string()),
        node,
    }
}

fn name(text: &str) -> Name {
    Name::from_text(text)
}

#[test]
fn reads_builtin_types_from_keywords() {
    assert_eq!(TypeRef::from_node(&leaf("int", false, "int")), TypeRef::Int);
    assert_eq!(TypeRef::from_node(&leaf("bool", false, "bool")), TypeRef::Bool);
    assert_eq!(TypeRef::from_node(&leaf("float", false, "float")), TypeRef::Float);
    assert_eq!(TypeRef::from_node(&leaf("char", false, "char")), TypeRef::Char);
    assert_eq!(TypeRef::from_node(&leaf("void", false, "void")), TypeRef::Void);
    assert_eq!(TypeRef::from_node(&leaf("any_type", true, "any")), TypeRef::Any);
    assert_eq!(TypeRef::from_node(&leaf("String", false, "String")), TypeRef::OldString);
    assert_eq!(TypeRef::from_node(&leaf("Float", false, "Float")), TypeRef::OldFloat);
    assert_eq!(TypeRef::from_node(&leaf("Float", false, "Float")).to_string(), "Float");
}

#[test]
fn int64_text_wins_over_the_kind() {
    assert_eq!(TypeRef::from_node(&leaf("identifier", true, "int64")), TypeRef::Int64);
    assert_eq!(TypeRef::from_node(&leaf("type", true, "int64")), TypeRef::Int64);
}

#[test]
fn reads_names_and_old_names() {
    assert_eq!(TypeRef::from_node(&leaf("type", true, "Handle")), TypeRef::Name(name("Handle")));
    assert_eq!(TypeRef::from_node(&leaf("identifier", true, "Foo")), TypeRef::Name(name("Foo")));
    assert_eq!(
        TypeRef::from_node(&leaf("old_type", true, "Float::")),
        TypeRef::OldName(name("Float"))
    );
    // A keyword that is a named node is not the keyword.
    assert_eq!(TypeRef::from_node(&leaf("int", true, "int")), TypeRef::Name(name("int")));
    let unreadable = SyntaxNode {
        kind: "type".to_string(),
        is_named: true,
        text: None,
        children: Vec::new(),
    };
    assert_eq!(TypeRef::from_node(&unreadable), TypeRef::Name(name("")));
}

#[test]
fn counts_dimensions_of_return_types() {
    let node = SyntaxNode {
        kind: "function_declaration".to_string(),
        is_named: true,
        text: None,
        children: vec![
            child(Some("returnType"), leaf("type", true, "Handle")),
            child(Some("returnType"), leaf("dimension", true, "[]")),
            child(Some("returnType"), leaf("fixed_dimension", true, "[4]")),
            child(Some("name"), leaf("identifier", true, "f")),
            child(None, leaf("dimension", true, "[]")),
        ],
    };
    let t = TypeRef::from_returntype_node(&node, "returnType").unwrap();
    assert_eq!(t, TypeRef::Array((Box::new(TypeRef::Name(name("Handle"))), 2)));
    assert_eq!(t.to_string(), "Handle[][]");
    assert_eq!(t.type_as_string(), "Handle");
    assert_eq!(TypeRef::from_returntype_node(&node, "name"), Some(TypeRef::Name(name("f"))));
    assert_eq!(TypeRef::from_returntype_node(&node, "missing"), None);
}

#[test]
fn the_last_type_child_wins_and_dimensions_alone_give_nothing() {
    let node = SyntaxNode {
        kind: "x".to_string(),
        is_named: true,
        text: None,
        children: vec![
            child(Some("type"), leaf("int", false, "int")),
            child(Some("type"), leaf("bool", false, "bool")),
        ],
    };
    assert_eq!(TypeRef::from_returntype_node(&node, "type"), Some(TypeRef::Bool));
    let dims = SyntaxNode {
        kind: "x".to_string(),
        is_named: true,
        text: None,
        children: vec![child(Some("type"), leaf("dimension", true, "[]"))],
    };
    assert_eq!(TypeRef::from_returntype_node(&dims, "type"), None);
}

#[test]
fn displays_types() {
    assert_eq!(TypeRef::Int.to_string(), "int");
    assert_eq!(TypeRef::Int64.to_string(), "int64");
    assert_eq!(TypeRef::Bool.to_string(), "bool");
    assert_eq!(TypeRef::Float.to_string(), "float");
    assert_eq!(TypeRef::Char.to_string(), "char");
    assert_eq!(TypeRef::Void.to_string(), "void");
    assert_eq!(TypeRef::Any.to_string(), "any");
    assert_eq!(TypeRef::OldString.to_string(), "String");
    assert_eq!(TypeRef::OldFloat.to_string(), "Float");
    assert_eq!(TypeRef::Name(name("Foo")).to_string(), "Foo");
    assert_eq!(TypeRef::OldName(name("Foo")).to_string(), "Foo:");
    let arr = TypeRef::Array((Box::new(TypeRef::Char), 3));
    assert_eq!(arr.to_string(), "char[][][]");
    assert_eq!(arr.type_as_string(), "char");
    assert_eq!(TypeRef::OldName(name("Foo")).type_as_string(), "Foo");
    let nested = TypeRef::Array((Box::new(TypeRef::Array((Box::new(TypeRef::Int), 1))), 2));
    assert_eq!(nested.to_string(), "int[][][]");
    assert_eq!(nested.type_as_string(), "int");
    let old = TypeRef::Array((Box::new(TypeRef::OldName(name("Handle"))), 1));
    assert_eq!(old.to_string(), "Handle:[]");
    assert_eq!(old.type_as_string(), "Handle");
}

#[test]
fn lowers_array_dimensions() {
    let arr = TypeRef::Array((Box::new(TypeRef::Char), 3));
    let lower = arr.to_lower_dim();
    assert_eq!(lower, TypeRef::Array((Box::new(TypeRef::Char), 2)));
    assert_eq!(format!("{}[]", lower.to_string()), arr.to_string());
    assert_eq!(lower.type_as_string(), arr.type_as_string());
    let one = TypeRef::Array((Box::new(TypeRef::Char), 1));
    assert_eq!(one.to_lower_dim(), one);
    assert_eq!(TypeRef::Int.to_lower_dim(), TypeRef::Int);
    assert_eq!(TypeRef::Name(name("X")).to_lower_dim(), TypeRef::Name(name("X")));
}

#[test]
fn type_string_from_node_drops_brackets_and_colons() {
    assert_eq!(type_string_from_node(&leaf("old_type", true, "Handle:")), "Handle");
    assert_eq!(type_string_from_node(&leaf("int", false, "int")), "int");
}

#[test]
fn clones_keep_the_type() {
    let nested = TypeRef::Array((Box::new(TypeRef::OldName(name("A"))), 2));
    assert_eq!(nested.clone(), nested);
    assert_eq!(name("x").clone(), name("x"));
    assert_eq!(name("abc").as_str(), "abc");
}
