use builder_gen::attrs::{find_directive, parse_attribute};

use builder_gen::runtime::{instantiate, BuilderState, Record, RecordEntry, Value};
use builder_gen::schema::{AttrToken, FieldSchema, RawAttribute, RecordBody, RecordDecl};
use builder_gen::types::TypeSig;

fn ty_of(segs: &[&str], args: Vec<TypeSig>) -> TypeSig {
    TypeSig { segments: segs.iter().map(|s| s.to_string()).collect(), args }
}

fn each_of(m: &str) -> RawAttribute {
    RawAttribute::TokenList(vec![
        AttrToken::Ident("each".to_string()),
        AttrToken::Punct('='),
        AttrToken::StrLit(m.to_string()),
    ])
}

fn field_of(name: &str, t: TypeSig, attrs: Vec<RawAttribute>) -> FieldSchema {
    FieldSchema { name: name.to_string(), declared_type: t, attributes: attrs }
}

/// The worked example schema: `command` required text, `args` a required
/// collection with collector `arg`, `flag` an optional collection, and
/// `environment` a required collection with collector `env`.
fn example_builder() -> BuilderState {
    let list_of_string = || ty_of(&["Vec"], vec![ty_of(&["String"], vec![])]);
    let decl = RecordDecl {
        name: "Command".to_string(),
        body: RecordBody::Named(vec![
            field_of("command", ty_of(&["String"], vec![]), vec![]),
            field_of("args", list_of_string(), vec![each_of("arg")]),
            field_of("flag", ty_of(&["Option"], vec![list_of_string()]), vec![]),
            field_of("environment", list_of_string(), vec![each_of("env")]),
        ]),
    };
    let artifact = builder_gen::derive(decl).unwrap();
    // The collectors named `arg` and `env` target `args` and `environment`.
    assert_eq!(
        artifact.collectors.iter().find(|c| c.method == "arg").map(|c| c.field.as_str()),
        Some("args")
    );
    assert_eq!(
        artifact.collectors.iter().find(|c| c.method == "env").map(|c| c.field.as_str()),
        Some("environment")
    );
    instantiate(&artifact)
}

fn text(s: &str) -> Value {
    Value::Text(s.to_string())
}

fn list(es: &[&str]) -> Value {
    Value::List(es.iter().map(|e| e.to_string()).collect())
}

#[test]
fn constructor_starts_all_absent() {
    let b = example_builder();
    assert_eq!(b.slots.len(), 4);
    for slot in &b.slots {
        assert!(slot.content.is_none());
    }
}

#[test]
fn collector_calls_preserve_order() {
    let mut b = example_builder();
    b.collect(&"args".to_string(), "e1".to_string());
    b.collect(&"args".to_string(), "e2".to_string());
    b.collect(&"args".to_string(), "e3".to_string());
    b.set(&"command".to_string(), Some(text("run")));
    b.set(&"environment".to_string(), Some(list(&[])));
    let rec = b.finalize().unwrap();
    assert_eq!(rec.entries[1].value, Some(list(&["e1", "e2", "e3"])));
}

#[test]
fn bulk_setter_discards_collected_elements() {
    let mut b = example_builder();
    b.collect(&"args".to_string(), "collected".to_string());
    b.collect(&"args".to_string(), "elements".to_string());
    b.set(&"args".to_string(), Some(list(&["only", "these"])));
    b.set(&"command".to_string(), Some(text("run")));
    b.set(&"environment".to_string(), Some(list(&[])));
    let rec = b.finalize().unwrap();
    assert_eq!(rec.entries[1].value, Some(list(&["only", "these"])));
}

#[test]
fn missing_required_field_fails_by_name() {
    let b = example_builder();
    // Nothing set: the first required field is reported.
    let e = b.finalize().unwrap_err();
    assert_eq!(e.field, "command");
    assert_eq!(e.message(), "command is not set!");

    let mut b = example_builder();
    b.set(&"command".to_string(), Some(text("run")));
    b.set(&"args".to_string(), Some(list(&[])));
    b.set(&"environment".to_string(), Some(list(&[])));
    assert!(b.finalize().is_ok());
}

#[test]
fn untouched_optional_field_finalizes_absent() {
    let mut b = example_builder();
    b.set(&"command".to_string(), Some(text("run")));
    b.set(&"args".to_string(), Some(list(&[])));
    b.set(&"environment".to_string(), Some(list(&[])));
    let rec = b.finalize().unwrap();
    assert_eq!(rec.entries[2], RecordEntry { name: "flag".to_string(), value: None });
}

#[test]
fn optional_field_can_be_set_absent_explicitly() {
    let mut b = example_builder();
    b.set(&"flag".to_string(), Some(list(&["on"])));
    b.set(&"flag".to_string(), None);
    b.set(&"command".to_string(), Some(text("run")));
    b.set(&"args".to_string(), Some(list(&[])));
    b.set(&"environment".to_string(), Some(list(&[])));
    let rec = b.finalize().unwrap();
    assert_eq!(rec.entries[2].value, None);
}

#[test]
fn round_trip_reproduces_the_target_record() {
    let target = Record {
        entries: vec![
            RecordEntry { name: "command".to_string(), value: Some(text("cargo")) },
            RecordEntry { name: "args".to_string(), value: Some(list(&["build"])) },
            RecordEntry { name: "flag".to_string(), value: Some(list(&["-v"])) },
            RecordEntry { name: "environment".to_string(), value: Some(list(&["HOME=/"])) },
        ],
    };
    let mut b = example_builder();
    for entry in &target.entries {
        b.set(&entry.name, entry.value.clone());
    }
    let rec = b.finalize().unwrap();
    assert_eq!(rec, target);
}

#[test]
fn example_scenario_fails_then_succeeds() {
    let mut b = example_builder();
    b.set(&"command".to_string(), Some(text("cargo")));
    b.collect(&"args".to_string(), "build".to_string());
    b.collect(&"args".to_string(), "--release".to_string());
    // `flag` stays unset; `environment` is required and never set.
    let e = b.finalize().unwrap_err();
    assert_eq!(e.field, "environment");
    assert_eq!(e.message(), "environment is not set!");

    b.set(&"environment".to_string(), Some(list(&[])));
    let rec = b.finalize().unwrap();
    let expected = Record {
        entries: vec![
            RecordEntry { name: "command".to_string(), value: Some(text("cargo")) },
            RecordEntry { name: "args".to_string(), value: Some(list(&["build", "--release"])) },
            RecordEntry { name: "flag".to_string(), value: None },
            RecordEntry { name: "environment".to_string(), value: Some(list(&[])) },
        ],
    };
    assert_eq!(rec, expected);
}

#[test]
fn directive_parsing_feeds_the_example() {
    // The directive that drives the example's `arg` collector.
    let attrs = vec![each_of("arg")];
    assert_eq!(parse_attribute(&attrs[0]), Some("arg".to_string()));
    assert_eq!(find_directive(&attrs), Some("arg".to_string()));
}
