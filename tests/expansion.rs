use godot_macros::class_attrs::{parse_property_attr, parse_struct_attributes};
use godot_macros::error::{ParseError, PropertyKey};
use godot_macros::expand::{transform, ClassExpansion};
use godot_macros::fields::parse_fields;
use godot_macros::kv_group::{parse_kv_group, ArgToken};
use godot_macros::syntax::{
    kv_find, Attribute, Declaration, KvEntry, KvValue, NamedField, StructDecl, StructFields,
};

fn text(s: &str) -> String {
    s.to_string()
}

fn flag(key: &str) -> KvEntry {
    KvEntry { key: text(key), value: KvValue::Flag }
}

fn ident(key: &str, v: &str) -> KvEntry {
    KvEntry { key: text(key), value: KvValue::Ident(text(v)) }
}

fn lit(key: &str, v: &str) -> KvEntry {
    KvEntry { key: text(key), value: KvValue::Lit(text(v)) }
}

fn tag(path: &str, args: Vec<KvEntry>) -> Attribute {
    Attribute { path: vec![text(path)], well_formed: true, args }
}

fn field(name: &str, markers: &[&str]) -> NamedField {
    NamedField {
        name: text(name),
        ty: text("i32"),
        attributes: markers.iter().map(|m| tag(m, vec![])).collect(),
    }
}

fn decl(name: &str, attributes: Vec<Attribute>, fields: Vec<NamedField>) -> Declaration {
    Declaration::Struct(StructDecl {
        name: text(name),
        attributes,
        fields: StructFields::Named(fields),
    })
}

fn property(name: &str, variant_type: &str, getter: &str, setter: &str) -> Attribute {
    tag(
        "property",
        vec![
            lit("name", name),
            lit("variant_type", variant_type),
            lit("getter", getter),
            lit("setter", setter),
        ],
    )
}

fn expand(d: &Declaration) -> ClassExpansion {
    match transform(d) {
        Ok(x) => x,
        Err(e) => panic!("unexpected error: {}", e.message()),
    }
}

fn expand_err(d: &Declaration) -> ParseError {
    match transform(d) {
        Ok(_) => panic!("expansion was expected to fail"),
        Err(e) => e,
    }
}

fn init_of(x: &ClassExpansion) -> Vec<(String, bool)> {
    x.init_impl
        .as_ref()
        .expect("a constructor")
        .assignments
        .iter()
        .map(|a| (a.field.clone(), a.from_base))
        .collect()
}

#[test]
fn scenario_node2d_with_init_and_base_field() {
    let d = decl(
        "Player",
        vec![tag("class", vec![ident("base", "Node2D"), flag("init")])],
        vec![field("speed", &[]), field("body", &["base"])],
    );
    let x = expand(&d);
    assert_eq!(x.class_name, "Player");
    assert_eq!(x.base_ty, "Node2D");
    assert_eq!(
        init_of(&x),
        vec![(text("speed"), false), (text("body"), true)]
    );
    assert_eq!(x.deref_impl.as_ref().unwrap().base_field, "body");
    assert_eq!(x.plugin.class_name, "Player");
    assert_eq!(x.plugin.base_class_name, "Node2D");
    assert!(x.plugin.has_create_fn);
    assert_eq!(x.inherits_macro, "inherits_transitive_Node2D");
    assert!(x.properties_impl.is_none());
}

#[test]
fn scenario_base_field_first_is_assigned_last() {
    let d = decl(
        "Player",
        vec![tag("class", vec![flag("init")])],
        vec![field("body", &["base"]), field("speed", &[]), field("hp", &[])],
    );
    let x = expand(&d);
    assert_eq!(
        init_of(&x),
        vec![(text("speed"), false), (text("hp"), false), (text("body"), true)]
    );
}

#[test]
fn scenario_two_property_tags_register_in_order() {
    let d = decl(
        "Hero",
        vec![
            property("health", "Int", "get_health", "set_health"),
            property("mana", "Int", "get_mana", "set_mana"),
        ],
        vec![],
    );
    let x = expand(&d);
    let regs = &x.properties_impl.as_ref().unwrap().registrations;
    assert_eq!(regs.len(), 2);
    assert_eq!(regs[0].name, "health");
    assert_eq!(regs[0].getter, "get_health");
    assert_eq!(regs[0].setter, "set_health");
    assert_eq!(regs[0].variant_type, "Int");
    assert_eq!(regs[1].name, "mana");
    assert_eq!(regs[1].getter, "get_mana");
    assert_eq!(regs[1].setter, "set_mana");
}

#[test]
fn scenario_duplicate_class_tag_fails() {
    let d = decl(
        "Twice",
        vec![
            tag("class", vec![ident("base", "Node")]),
            tag("class", vec![ident("base", "Node2D")]),
        ],
        vec![],
    );
    let e = expand_err(&d);
    assert!(matches!(e, ParseError::DuplicateClassTag { attr_index: 1 }));
    assert!(e.message().starts_with("Only one #[class] attribute"));
    assert!(e.message().ends_with("allowed"));
}

#[test]
fn repeated_key_in_one_class_tag_keeps_last_value() {
    let d = decl(
        "Once",
        vec![tag("class", vec![ident("base", "Node"), ident("base", "Node2D")])],
        vec![],
    );
    assert_eq!(expand(&d).base_ty, "Node2D");
}

#[test]
fn kv_find_picks_last_entry() {
    let args = vec![ident("base", "A"), flag("init"), ident("base", "B")];
    assert_eq!(kv_find(&args, &text("base")), Some(2));
    assert_eq!(kv_find(&args, &text("init")), Some(1));
    assert_eq!(kv_find(&args, &text("name")), None);
}

#[test]
fn second_base_field_names_the_first() {
    let d = decl(
        "Two",
        vec![],
        vec![field("a", &["base"]), field("x", &[]), field("b", &["base"])],
    );
    let e = expand_err(&d);
    match &e {
        ParseError::DuplicateBaseField { field_index, attr_index, previous } => {
            assert_eq!(*field_index, 2);
            assert_eq!(*attr_index, 0);
            assert_eq!(previous, "a");
        }
        _ => panic!("wrong error"),
    }
    assert_eq!(
        e.message(),
        "#[base] allowed for at most 1 field, already applied to 'a'"
    );
}

#[test]
fn two_base_markers_on_one_field_fail() {
    let d = decl("Two", vec![], vec![field("a", &["base", "base"])]);
    match expand_err(&d) {
        ParseError::DuplicateBaseField { field_index: 0, attr_index: 1, previous } => {
            assert_eq!(previous, "a")
        }
        _ => panic!("wrong error"),
    }
}

#[test]
fn unknown_class_key_fails() {
    let d = decl(
        "C",
        vec![tag("class", vec![ident("base", "Node"), flag("init"), flag("speedy"), flag("odd")])],
        vec![],
    );
    let e = expand_err(&d);
    match &e {
        ParseError::UnknownKey { attr_index: 0, key } => assert_eq!(key, "speedy"),
        _ => panic!("wrong error"),
    }
    assert_eq!(e.message(), "Attribute contains unknown key 'speedy'");
}

#[test]
fn known_class_keys_succeed() {
    let d = decl("C", vec![tag("class", vec![ident("base", "Node"), flag("init")])], vec![]);
    let x = expand(&d);
    assert_eq!(x.base_ty, "Node");
    assert!(x.init_impl.is_some());
}

#[test]
fn base_value_must_be_identifier() {
    let d = decl("C", vec![tag("class", vec![lit("base", "Node")])], vec![]);
    let e = expand_err(&d);
    assert!(matches!(e, ParseError::InvalidBaseValue { attr_index: 0 }));
    assert_eq!(e.message(), "Invalid value for 'base' argument");
}

#[test]
fn init_must_not_have_value() {
    let d = decl("C", vec![tag("class", vec![ident("init", "yes")])], vec![]);
    let e = expand_err(&d);
    assert!(matches!(e, ParseError::InitHasValue { attr_index: 0 }));
    assert_eq!(e.message(), "Argument 'init' must not have a value");
}

#[test]
fn missing_property_key_is_named() {
    let all = [
        ("name", PropertyKey::Name),
        ("variant_type", PropertyKey::VariantType),
        ("getter", PropertyKey::Getter),
        ("setter", PropertyKey::Setter),
    ];
    for (missing, which) in all.iter() {
        let args: Vec<KvEntry> = all
            .iter()
            .filter(|(k, _)| k != missing)
            .map(|(k, _)| lit(k, "v"))
            .collect();
        let a = tag("property", args);
        match parse_property_attr(&a, 3) {
            Err(ParseError::MissingPropertyKey { attr_index: 3, which: w }) => assert_eq!(w, *which),
            _ => panic!("wrong outcome for {}", missing),
        }
        let e = expand_err(&decl("P", vec![a], vec![]));
        assert_eq!(e.message(), format!("#[property] attribute without any {}", missing));
    }
}

#[test]
fn missing_property_keys_are_reported_in_priority_order() {
    let a = tag("property", vec![lit("setter", "s")]);
    assert!(matches!(
        parse_property_attr(&a, 0),
        Err(ParseError::MissingPropertyKey { attr_index: 0, which: PropertyKey::Name })
    ));
}

#[test]
fn property_key_must_be_literal() {
    let a = tag(
        "property",
        vec![
            lit("name", "hp"),
            lit("variant_type", "Int"),
            ident("getter", "get_hp"),
            lit("setter", "set_hp"),
        ],
    );
    let e = expand_err(&decl("P", vec![a], vec![]));
    assert!(matches!(
        e,
        ParseError::PropertyKeyNotLiteral { attr_index: 0, which: PropertyKey::Getter }
    ));
    assert_eq!(
        e.message(),
        "#[property] attribute with a getter that isn't an identifier"
    );
}

#[test]
fn property_tag_with_extra_key_fails() {
    let mut a = property("hp", "Int", "get_hp", "set_hp");
    a.args.push(flag("hint"));
    match parse_property_attr(&a, 1) {
        Err(ParseError::UnknownKey { attr_index: 1, key }) => assert_eq!(key, "hint"),
        _ => panic!("wrong outcome"),
    }
}

#[test]
fn complete_property_tag_keeps_values_verbatim() {
    let a = property("health", "Int", "get_health", "set_health");
    let p = parse_property_attr(&a, 0).unwrap();
    assert_eq!(p.name, "health");
    assert_eq!(p.variant_type, "Int");
    assert_eq!(p.getter, "get_health");
    assert_eq!(p.setter, "set_health");
}

#[test]
fn duplicate_property_names_are_kept() {
    let attrs = vec![
        property("hp", "Int", "get_a", "set_a"),
        property("hp", "Int", "get_b", "set_b"),
    ];
    let cfg = parse_struct_attributes(&attrs).unwrap();
    assert_eq!(cfg.properties.len(), 2);
    assert_eq!(cfg.properties[1].getter, "get_b");
}

#[test]
fn reordered_plain_fields_reorder_init() {
    let cfg = vec![tag("class", vec![flag("init")])];
    let d1 = decl("R", cfg.clone(), vec![field("a", &[]), field("b", &[]), field("c", &[])]);
    let d2 = decl("R", cfg, vec![field("c", &[]), field("a", &[]), field("b", &[])]);
    assert_eq!(
        init_of(&expand(&d1)),
        vec![(text("a"), false), (text("b"), false), (text("c"), false)]
    );
    assert_eq!(
        init_of(&expand(&d2)),
        vec![(text("c"), false), (text("a"), false), (text("b"), false)]
    );
}

#[test]
fn init_without_base_field_has_no_base_assignment() {
    let d = decl(
        "I",
        vec![tag("class", vec![flag("init")])],
        vec![field("x", &[]), field("y", &["export"])],
    );
    let x = expand(&d);
    assert_eq!(init_of(&x), vec![(text("x"), false), (text("y"), false)]);
    assert!(x.deref_impl.is_none());
    assert!(x.plugin.has_create_fn);
}

#[test]
fn base_field_without_init_gives_delegation_only() {
    let d = decl("B", vec![], vec![field("x", &[]), field("base", &["base"])]);
    let x = expand(&d);
    assert!(x.init_impl.is_none());
    assert!(!x.plugin.has_create_fn);
    assert_eq!(x.deref_impl.unwrap().base_field, "base");
}

#[test]
fn defaults_without_class_tag() {
    let d = decl("Plain", vec![], vec![field("x", &[])]);
    let x = expand(&d);
    assert_eq!(x.base_ty, "RefCounted");
    assert_eq!(x.plugin.base_class_name, "RefCounted");
    assert_eq!(x.inherits_macro, "inherits_transitive_RefCounted");
    assert!(x.init_impl.is_none());
    assert!(x.deref_impl.is_none());
    assert!(x.properties_impl.is_none());
}

#[test]
fn unit_struct_has_no_fields() {
    let d = Declaration::Struct(StructDecl {
        name: text("Unit"),
        attributes: vec![tag("class", vec![flag("init")])],
        fields: StructFields::Unit,
    });
    let x = expand(&d);
    assert!(init_of(&x).is_empty());
}

#[test]
fn tuple_struct_fails() {
    let d = Declaration::Struct(StructDecl {
        name: text("T"),
        attributes: vec![],
        fields: StructFields::Tuple,
    });
    let e = expand_err(&d);
    assert!(matches!(e, ParseError::TupleStruct));
    assert_eq!(e.message(), "#[derive(GodotClass)] not supported for tuple structs");
}

#[test]
fn non_struct_fails() {
    let e = expand_err(&Declaration::Other);
    assert!(matches!(e, ParseError::NotAStruct));
    assert_eq!(e.message(), "Not a valid struct");
}

#[test]
fn tag_errors_come_before_field_errors() {
    let d = decl(
        "Both",
        vec![tag("class", vec![flag("bogus")])],
        vec![field("a", &["base"]), field("b", &["base"])],
    );
    assert!(matches!(expand_err(&d), ParseError::UnknownKey { .. }));
}

#[test]
fn export_markers_are_tracked_in_order() {
    let d = StructDecl {
        name: text("E"),
        attributes: vec![],
        fields: StructFields::Named(vec![
            field("a", &["export"]),
            field("b", &[]),
            field("c", &["export", "base"]),
        ]),
    };
    let f = parse_fields(&d).unwrap();
    let names: Vec<&str> = f.exported_fields.iter().map(|e| e.name.as_str()).collect();
    assert_eq!(names, vec!["a", "c"]);
    assert_eq!(f.exported_fields[0].ty, "i32");
    assert_eq!(f.base_field.unwrap().name, "c");
    assert_eq!(f.all_field_names, vec![text("a"), text("b")]);
}

#[test]
fn qualified_paths_are_not_tags() {
    let d = decl(
        "Q",
        vec![Attribute {
            path: vec![text("godot"), text("class")],
            well_formed: true,
            args: vec![flag("bogus")],
        }],
        vec![NamedField {
            name: text("a"),
            ty: text("i32"),
            attributes: vec![Attribute {
                path: vec![text("x"), text("base")],
                well_formed: true,
                args: vec![],
            }],
        }],
    );
    let x = expand(&d);
    assert!(x.deref_impl.is_none());
    assert_eq!(x.base_ty, "RefCounted");
}

fn id(s: &str) -> ArgToken {
    ArgToken::Ident(text(s))
}

fn eq() -> ArgToken {
    ArgToken::Punct('=')
}

fn comma() -> ArgToken {
    ArgToken::Punct(',')
}

#[test]
fn kv_group_reads_all_entry_forms() {
    let toks = vec![
        id("base"),
        eq(),
        id("Node2D"),
        comma(),
        id("init"),
        comma(),
        id("name"),
        eq(),
        ArgToken::Str(text("health")),
        comma(),
    ];
    let es = parse_kv_group(&toks).unwrap();
    assert_eq!(es.len(), 3);
    assert_eq!(es[0].key, "base");
    assert!(matches!(&es[0].value, KvValue::Ident(v) if v == "Node2D"));
    assert_eq!(es[1].key, "init");
    assert!(matches!(es[1].value, KvValue::Flag));
    assert_eq!(es[2].key, "name");
    assert!(matches!(&es[2].value, KvValue::Lit(v) if v == "health"));
}

#[test]
fn kv_group_empty_is_no_entries() {
    assert_eq!(parse_kv_group(&vec![]).unwrap().len(), 0);
}

#[test]
fn kv_group_rejects_malformed_tokens() {
    assert!(parse_kv_group(&vec![id("a"), id("b")]).is_none());
    assert!(parse_kv_group(&vec![id("a"), eq()]).is_none());
    assert!(parse_kv_group(&vec![id("a"), eq(), ArgToken::Other]).is_none());
    assert!(parse_kv_group(&vec![comma()]).is_none());
    assert!(parse_kv_group(&vec![id("a"), comma(), comma()]).is_none());
    assert!(parse_kv_group(&vec![ArgToken::Str(text("x"))]).is_none());
}

#[test]
fn malformed_class_tag_fails() {
    let mut a = tag("class", vec![]);
    a.well_formed = false;
    let e = expand_err(&decl("M", vec![a], vec![]));
    assert!(matches!(e, ParseError::MalformedTag { attr_index: 0 }));
}

#[test]
fn malformed_property_tag_fails() {
    let mut a = tag("property", vec![]);
    a.well_formed = false;
    assert!(matches!(
        parse_property_attr(&a, 2),
        Err(ParseError::MalformedTag { attr_index: 2 })
    ));
}

#[test]
fn malformed_other_tags_are_ignored() {
    let mut a = tag("doc", vec![]);
    a.well_formed = false;
    assert_eq!(expand(&decl("D", vec![a], vec![])).class_name, "D");
}

#[test]
fn reordered_plain_fields_around_base_field_reorder_init() {
    let cfg = vec![tag("class", vec![flag("init")])];
    let d1 = decl(
        "R",
        cfg.clone(),
        vec![field("a", &[]), field("body", &["base"]), field("b", &[])],
    );
    let d2 = decl(
        "R",
        cfg,
        vec![field("b", &[]), field("a", &[]), field("body", &["base"])],
    );
    assert_eq!(
        init_of(&expand(&d1)),
        vec![(text("a"), false), (text("b"), false), (text("body"), true)]
    );
    assert_eq!(
        init_of(&expand(&d2)),
        vec![(text("b"), false), (text("a"), false), (text("body"), true)]
    );
}
