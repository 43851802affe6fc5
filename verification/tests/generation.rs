use builder_gen::attrs::{find_directive, parse_attribute};
use builder_gen::classify::{classify_field, is_option, unwrap_option, GenError, StorageKind};

use builder_gen::schema::{AttrToken, FieldSchema, RawAttribute, RecordBody, RecordDecl};
use builder_gen::types::TypeSig;

fn ty(segs: &[&str]) -> TypeSig {
    TypeSig { segments: segs.iter().map(|s| s.to_string()).collect(), args: Vec::new() }
}

fn ty1(segs: &[&str], arg: TypeSig) -> TypeSig {
    TypeSig { segments: segs.iter().map(|s| s.to_string()).collect(), args: vec![arg] }
}

fn each_attr(m: &str) -> RawAttribute {
    RawAttribute::TokenList(vec![
        AttrToken::Ident("each".to_string()),
        AttrToken::Punct('='),
        AttrToken::StrLit(m.to_string()),
    ])
}

fn field(name: &str, t: TypeSig, attrs: Vec<RawAttribute>) -> FieldSchema {
    FieldSchema { name: name.to_string(), declared_type: t, attributes: attrs }
}

fn command_decl() -> RecordDecl {
    RecordDecl {
        name: "Command".to_string(),
        body: RecordBody::Named(vec![
            field("command", ty(&["String"]), vec![]),
            field("args", ty1(&["Vec"], ty(&["String"])), vec![each_attr("arg")]),
            field("b", ty1(&["Option"], ty1(&["Vec"], ty(&["String"]))), vec![]),
            field("environment", ty1(&["Vec"], ty(&["String"])), vec![each_attr("env")]),
        ]),
    }
}

#[test]
fn option_spellings_are_recognized() {
    assert!(is_option(&ty1(&["Option"], ty(&["u32"]))));
    assert!(is_option(&ty1(&["std", "option", "Option"], ty(&["u32"]))));
    assert!(is_option(&ty1(&["core", "option", "Option"], ty(&["u32"]))));
    assert!(!is_option(&ty(&["Vec"])));
    assert!(!is_option(&ty(&["option", "Option"])));
    assert!(!is_option(&ty(&["my", "own", "Opt"])));
}

#[test]
fn leading_path_matching_is_lexical() {
    // Only the first three segments are inspected, so a longer path whose
    // head spells the optional wrapper still counts as optional...
    let long = ty1(&["std", "option", "Option", "Extra"], ty(&["u32"]));
    assert!(is_option(&long));
    // ...but it does not unwrap, which classification reports as malformed.
    assert!(unwrap_option(&long).is_none());
    match classify_field("x".to_string(), long) {
        Err(GenError::MalformedOptional(n)) => assert_eq!(n, "x"),
        other => panic!("expected a malformed-optional failure, got {:?}", other),
    }
}

#[test]
fn unwrap_option_requires_exactly_one_argument() {
    let good = ty1(&["Option"], ty(&["String"]));
    assert_eq!(unwrap_option(&good), Some(&ty(&["String"])));
    let zero = ty(&["Option"]);
    assert!(unwrap_option(&zero).is_none());
    let two = TypeSig {
        segments: vec!["Option".to_string()],
        args: vec![ty(&["A"]), ty(&["B"])],
    };
    assert!(unwrap_option(&two).is_none());
    assert!(unwrap_option(&ty1(&["Vec"], ty(&["String"]))).is_none());
}

#[test]
fn classification_splits_required_and_optional() {
    let c = classify_field("command".to_string(), ty(&["String"])).unwrap();
    assert_eq!(c.name, "command");
    assert_eq!(c.storage_kind, StorageKind::Required(ty(&["String"])));

    let c = classify_field("b".to_string(), ty1(&["Option"], ty(&["String"]))).unwrap();
    assert_eq!(c.storage_kind, StorageKind::Optional(ty(&["String"])));

    match classify_field("b".to_string(), ty(&["Option"])) {
        Err(GenError::MalformedOptional(n)) => assert_eq!(n, "b"),
        other => panic!("expected a malformed-optional failure, got {:?}", other),
    }
}

#[test]
fn attribute_grammar_recognizes_each_only() {
    assert_eq!(parse_attribute(&each_attr("arg")), Some("arg".to_string()));
    // Any punctuation token between the identifier and the literal is taken.
    let colon = RawAttribute::TokenList(vec![
        AttrToken::Ident("each".to_string()),
        AttrToken::Punct(':'),
        AttrToken::StrLit("arg".to_string()),
    ]);
    assert_eq!(parse_attribute(&colon), Some("arg".to_string()));
    // Everything else is silently ignored.
    let wrong_ident = RawAttribute::TokenList(vec![
        AttrToken::Ident("eachh".to_string()),
        AttrToken::Punct('='),
        AttrToken::StrLit("arg".to_string()),
    ]);
    assert_eq!(parse_attribute(&wrong_ident), None);
    let not_a_string = RawAttribute::TokenList(vec![
        AttrToken::Ident("each".to_string()),
        AttrToken::Punct('='),
        AttrToken::OtherLit,
    ]);
    assert_eq!(parse_attribute(&not_a_string), None);
    let too_short = RawAttribute::TokenList(vec![AttrToken::Ident("each".to_string())]);
    assert_eq!(parse_attribute(&too_short), None);
    assert_eq!(parse_attribute(&RawAttribute::Bare), None);
    assert_eq!(parse_attribute(&RawAttribute::NameValue), None);
    // Tokens past the first three do not matter.
    let trailing = RawAttribute::TokenList(vec![
        AttrToken::Ident("each".to_string()),
        AttrToken::Punct('='),
        AttrToken::StrLit("arg".to_string()),
        AttrToken::Punct(','),
        AttrToken::Ident("extra".to_string()),
    ]);
    assert_eq!(parse_attribute(&trailing), Some("arg".to_string()));
}

#[test]
fn first_recognized_directive_wins() {
    let attrs = vec![RawAttribute::Bare, each_attr("first"), each_attr("second")];
    assert_eq!(find_directive(&attrs), Some("first".to_string()));
    assert_eq!(find_directive(&vec![RawAttribute::NameValue]), None);
    assert_eq!(find_directive(&Vec::new()), None);
}

#[test]
fn one_setter_per_field_and_one_collector_per_directive() {
    let artifact = builder_gen::derive(command_decl()).unwrap();
    assert_eq!(artifact.record_name, "Command");
    assert_eq!(artifact.builder_name, "CommandBuilder");

    // One slot and one setter per field, in declaration order.
    assert_eq!(artifact.slots.len(), 4);
    assert_eq!(artifact.setters.len(), 4);
    let names: Vec<&str> = artifact.setters.iter().map(|s| s.field.as_str()).collect();
    assert_eq!(names, vec!["command", "args", "b", "environment"]);
    let required: Vec<bool> = artifact.slots.iter().map(|s| s.required).collect();
    assert_eq!(required, vec![true, true, false, true]);

    // One collector per directive, named per the directive, and distinct
    // from the field's setter, which still exists.
    assert_eq!(artifact.collectors.len(), 2);
    assert_eq!(artifact.collectors[0].method, "arg");
    assert_eq!(artifact.collectors[0].field, "args");
    assert_eq!(artifact.collectors[1].method, "env");
    assert_eq!(artifact.collectors[1].field, "environment");
    assert_eq!(artifact.collectors[0].elem_ty, ty(&["String"]));
}

#[test]
fn storage_slots_are_optional_wrapped_without_double_wrapping() {
    let artifact = builder_gen::derive(command_decl()).unwrap();
    let opt_segs: Vec<String> =
        vec!["std".to_string(), "option".to_string(), "Option".to_string()];
    for slot in &artifact.slots {
        assert_eq!(slot.slot_ty.segments, opt_segs);
        assert_eq!(slot.slot_ty.args.len(), 1);
    }
    // The optional field's own absence tolerance is reused: its slot wraps
    // the inner collection type, not the optional type again.
    assert_eq!(artifact.slots[2].slot_ty.args[0], ty1(&["Vec"], ty(&["String"])));
    // A required field's setter takes the declared type; an optional
    // field's setter takes the optional type itself.
    assert_eq!(artifact.setters[0].param_ty, ty(&["String"]));
    assert_eq!(artifact.setters[2].param_ty.segments, opt_segs);
    assert_eq!(artifact.setters[2].param_ty.args[0], ty1(&["Vec"], ty(&["String"])));
}

#[test]
fn unsupported_shapes_are_rejected() {
    let decl = RecordDecl { name: "Pair".to_string(), body: RecordBody::Positional };
    assert_eq!(builder_gen::derive(decl), Err(GenError::UnsupportedShape));
    let decl = RecordDecl { name: "Unit".to_string(), body: RecordBody::Unit };
    assert_eq!(builder_gen::derive(decl), Err(GenError::UnsupportedShape));
    let decl = RecordDecl { name: "Choice".to_string(), body: RecordBody::EnumOrUnion };
    assert_eq!(builder_gen::derive(decl), Err(GenError::UnsupportedShape));
}

#[test]
fn generation_aborts_on_malformed_fields() {
    // The first field whose optional spelling does not unwrap is reported.
    let decl = RecordDecl {
        name: "Broken".to_string(),
        body: RecordBody::Named(vec![
            field("fine", ty(&["String"]), vec![]),
            field("bare", ty(&["Option"]), vec![]),
            field("also_bare", ty(&["Option"]), vec![]),
        ]),
    };
    assert_eq!(builder_gen::derive(decl), Err(GenError::MalformedOptional("bare".to_string())));

    // A directive on a field whose type carries no element type is reported.
    let decl = RecordDecl {
        name: "Broken".to_string(),
        body: RecordBody::Named(vec![field("plain", ty(&["String"]), vec![each_attr("one")])]),
    };
    assert_eq!(builder_gen::derive(decl), Err(GenError::MalformedCollection("plain".to_string())));
}

#[test]
fn signature_copies_are_structurally_equal() {
    let t = ty1(&["std", "option", "Option"], ty1(&["Vec"], ty(&["String"])));
    assert_eq!(builder_gen::types::clone_sig(&t), t);
}
