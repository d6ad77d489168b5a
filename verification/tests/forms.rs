use oxideforms::forms::{
    build_data, format_value, resolve_form, validate_fields, validate_submission, Field,
    FormDefinition, FormFile, FormRegistry, JsonValue, Page, StoredRecord,
};
use oxideforms::i18n::{Lang, T};
use oxideforms::values::{group_pairs, parse_pairs};

fn field(id: &str, kind: &str, label: &str, required: bool) -> Field {
    Field::new(id.to_string(), kind.to_string(), label.to_string(), required, Vec::new(), None)
}

fn contact_form() -> FormDefinition {
    let tags = Field::new(
        "tags".to_string(),
        "checkbox".to_string(),
        "Tags".to_string(),
        false,
        vec!["Urgent".to_string(), "Billing".to_string()],
        None,
    );
    FormDefinition::new(
        "f1".to_string(),
        "Contact".to_string(),
        None,
        false,
        vec![
            Page::new(None, None, vec![field("name", "text", "Full name", true), tags]),
            Page::new(Some("Two".to_string()), None, vec![field("msg", "textarea", "  ", true)]),
        ],
    )
}

#[test]
fn input_kinds() {
    assert_eq!(field("a", "email", "", false).input_kind(), "email");
    assert_eq!(field("a", "checkbox", "", false).input_kind(), "checkbox");
    assert_eq!(field("a", "weird", "", false).input_kind(), "text");
    assert_eq!(field("a", "", "", false).input_kind(), "text");
    assert!(field("a", "checkbox", "", false).is_multi());
    assert!(!field("a", "radio", "", false).is_multi());
}

#[test]
fn field_accessors() {
    let f = Field::new(
        "t".to_string(),
        "select".to_string(),
        "T".to_string(),
        false,
        vec!["A".to_string()],
        Some("pick".to_string()),
    );
    assert_eq!(f.options(), &["A".to_string()]);
    assert_eq!(f.placeholder(), "pick");
    assert_eq!(field("x", "text", "", false).placeholder(), "");
    let copy = f.duplicate();
    assert_eq!(copy.id, "t");
    assert_eq!(copy.options(), f.options());
}

#[test]
fn prefill_and_checked() {
    let values = parse_pairs("tags=Urgent&tags=Billing&name=Ada&name=Bob");
    let fs = contact_form().fields();
    let tags = &fs[1];
    let name = field("name", "text", "", false);
    assert_eq!(name.prefill(&values), "Ada");
    assert_eq!(field("zzz", "text", "", false).prefill(&values), "");
    assert_eq!(tags.all_values(&values), &["Urgent".to_string(), "Billing".to_string()]);
    assert!(tags.is_checked(&values, "Billing"));
    assert!(!tags.is_checked(&values, "Other"));
    assert!(field("none", "text", "", false).all_values(&values).is_empty());
}

#[test]
fn form_pages_and_fields() {
    let form = contact_form();
    assert_eq!(form.page_count(), 2);
    assert_eq!(form.page(0).fields().len(), 2);
    assert_eq!(form.page(7).title.as_deref(), Some("Two"));
    let ids: Vec<String> = form.fields().into_iter().map(|f| f.id).collect();
    assert_eq!(ids, vec!["name", "tags", "msg"]);
    assert!(form.has_required());
    let optional = FormDefinition::new(
        "o".to_string(),
        "O".to_string(),
        None,
        false,
        vec![Page::new(None, None, vec![field("a", "text", "", false)])],
    );
    assert!(!optional.has_required());
}

#[test]
fn validation_reports_missing_required_fields() {
    let form = contact_form();
    let t = T::for_lang(Lang::En);
    let errors = validate_submission(&form, &parse_pairs("name=%20&msg="), &t);
    assert_eq!(errors, vec!["“Full name” is required.", "“msg” is required."]);
    let ok = validate_submission(&form, &parse_pairs("name=Ada&msg=hi"), &t);
    assert!(ok.is_empty());
    let page_two = validate_fields(form.page(1).fields(), &parse_pairs("name="), &t);
    assert_eq!(page_two, vec!["“msg” is required."]);
    let multi = validate_submission(&form, &parse_pairs("name=&name=Ada&msg=+x"), &t);
    assert!(multi.is_empty());
}

#[test]
fn build_data_and_format_value() {
    let form = contact_form();
    let values = parse_pairs("name=Ada&name=Bob&tags=Urgent&tags=Billing");
    let data = build_data(&form, &values);
    match data.get("name") {
        Some(JsonValue::Str(s)) => assert_eq!(s, "Ada"),
        other => panic!("{other:?}"),
    }
    match data.get("tags") {
        Some(JsonValue::Array(items)) => {
            assert_eq!(items, &vec![Some("Urgent".to_string()), Some("Billing".to_string())])
        }
        other => panic!("{other:?}"),
    }
    match data.get("msg") {
        Some(JsonValue::Str(s)) => assert_eq!(s, ""),
        other => panic!("{other:?}"),
    }
    let fields = form.fields();
    assert_eq!(format_value(&fields[0], &data), "Ada");
    assert_eq!(format_value(&fields[1], &data), "Urgent, Billing");
    assert_eq!(format_value(&fields[2], &data), "");
    let unchecked = build_data(&form, &parse_pairs("name=Ada"));
    assert_eq!(format_value(&fields[1], &unchecked), "");
}

#[test]
fn format_value_of_read_back_json() {
    let mut rec = StoredRecord::new();
    rec.insert(
        "tags".to_string(),
        JsonValue::Array(vec![Some("a".to_string()), None, Some("b".to_string())]),
    );
    rec.insert("n".to_string(), JsonValue::Other("42".to_string()));
    rec.insert("n".to_string(), JsonValue::Other("43".to_string()));
    assert_eq!(rec.entries().len(), 2);
    let tags = field("tags", "checkbox", "", false);
    assert_eq!(format_value(&tags, &rec), "a, b");
    assert_eq!(format_value(&field("n", "number", "", false), &rec), "43");
    assert_eq!(format_value(&field("gone", "text", "", false), &rec), "");
}

#[test]
fn resolve_form_file() {
    let file = FormFile {
        uuid: Some("  ".to_string()),
        title: "".to_string(),
        description: Some("d".to_string()),
        single_submission: true,
        fields: vec![field("a", "text", "A", true)],
        pages: Some(Vec::new()),
    };
    let form = resolve_form("stem-1", file);
    assert_eq!(form.uuid, "stem-1");
    assert_eq!(form.title, "stem-1");
    assert_eq!(form.description.as_deref(), Some("d"));
    assert!(form.single_submission);
    assert_eq!(form.page_count(), 1);
    assert_eq!(form.page(0).fields()[0].id, "a");
    let paged = FormFile {
        uuid: Some("u-9".to_string()),
        title: "Survey".to_string(),
        description: None,
        single_submission: false,
        fields: vec![field("ignored", "text", "", false)],
        pages: Some(vec![
            Page::new(Some("P1".to_string()), None, vec![field("a", "text", "", false)]),
            Page::new(None, None, vec![field("b", "text", "", false)]),
        ]),
    };
    let form = resolve_form("stem-2", paged);
    assert_eq!(form.uuid, "u-9");
    assert_eq!(form.title, "Survey");
    assert_eq!(form.page_count(), 2);
    let ids: Vec<String> = form.fields().into_iter().map(|f| f.id).collect();
    assert_eq!(ids, vec!["a", "b"]);
}

#[test]
fn registry_replaces_by_uuid() {
    let mut reg = FormRegistry::new();
    assert!(reg.get("f1").is_none());
    reg.insert(contact_form());
    let mut other = contact_form();
    other.title = "Second".to_string();
    reg.insert(other);
    assert_eq!(reg.len(), 1);
    assert_eq!(reg.get("f1").map(|f| f.title.clone()), Some("Second".to_string()));
    let mut third = contact_form();
    third.uuid = "f2".to_string();
    reg.insert(third);
    assert_eq!(reg.len(), 2);
    assert!(reg.get("f2").is_some());
    assert!(reg.get("f3").is_none());
}

#[test]
fn parse_pairs_decodes_and_groups() {
    let values = parse_pairs("a=1+2&b=%E2%9C%93&a=3&&c&d=x%3Dy");
    assert_eq!(values.get("a"), Some(&vec!["1 2".to_string(), "3".to_string()]));
    assert_eq!(values.get("b"), Some(&vec!["✓".to_string()]));
    assert_eq!(values.get("c"), Some(&vec!["".to_string()]));
    assert_eq!(values.get("d"), Some(&vec!["x=y".to_string()]));
    assert_eq!(values.get("e"), None);
    let grouped = group_pairs(&vec![
        ("k".to_string(), "1".to_string()),
        ("j".to_string(), "2".to_string()),
        ("k".to_string(), "3".to_string()),
    ]);
    assert_eq!(grouped.get("k"), Some(&vec!["1".to_string(), "3".to_string()]));
}
