use oxideforms::auth::{make_token, signing_key};
use oxideforms::db::RawSubmission;
use oxideforms::forms::{build_data, Field, FormDefinition, Page, StoredRecord};
use oxideforms::handlers::{
    admin_auth, admin_cookie_header, admin_gate, admin_location, admin_logout_cookie,
    build_submission_view, client_id, client_id_header, cookie_value, form_location,
    form_page_reply, lang_cookie_header, nav_direction, page_nav_reply, page_param,
    sanitize_next, set_lang, submit_step, submitted_location, wants_admin, AdminAuth, AdminGate,
    ClientId, FormPageReply, PageNavReply, StoredSubmission, SubmitEvent, SubmitStep,
};
use oxideforms::i18n::{resolve_lang, Lang, T};
use oxideforms::values::parse_pairs;

fn field(id: &str, kind: &str, label: &str, required: bool) -> Field {
    Field::new(id.to_string(), kind.to_string(), label.to_string(), required, Vec::new(), None)
}

fn survey(single: bool) -> FormDefinition {
    FormDefinition::new(
        "s1".to_string(),
        "Survey".to_string(),
        None,
        single,
        vec![
            Page::new(None, None, vec![field("name", "text", "Name", true)]),
            Page::new(None, None, vec![field("nps", "number", "", true)]),
            Page::new(None, None, vec![field("tags", "checkbox", "Tags", false)]),
        ],
    )
}

fn known(id: &str) -> ClientId {
    ClientId { id: id.to_string(), fresh: false }
}

#[test]
fn cookie_value_finds_named_cookie() {
    let headers = vec![
        None,
        Some("a=1; forms_admin=tok.en ; b=2".to_string()),
        Some("forms_admin=second".to_string()),
    ];
    assert_eq!(cookie_value(&headers, "forms_admin"), Some("tok.en".to_string()));
    assert_eq!(cookie_value(&headers, "b"), Some("2".to_string()));
    assert_eq!(cookie_value(&headers, "c"), None);
    assert_eq!(cookie_value(&[Some("x=a=b".to_string())], "x"), Some("a=b".to_string()));
    assert_eq!(cookie_value(&[], "x"), None);
}

#[test]
fn page_param_is_clamped() {
    let form = survey(false);
    assert_eq!(page_param(&parse_pairs("page=1"), &form), 1);
    assert_eq!(page_param(&parse_pairs("page=%201%20"), &form), 1);
    assert_eq!(page_param(&parse_pairs("page=99"), &form), 2);
    assert_eq!(page_param(&parse_pairs("page=-1"), &form), 0);
    assert_eq!(page_param(&parse_pairs("page=x"), &form), 0);
    assert_eq!(page_param(&parse_pairs(""), &form), 0);
}

#[test]
fn sanitize_next_allows_local_paths_only() {
    assert_eq!(sanitize_next(" /abc?page=1 "), "/abc?page=1");
    assert_eq!(sanitize_next("//evil.example"), "/");
    assert_eq!(sanitize_next("https://evil.example"), "/");
    assert_eq!(sanitize_next(""), "/");
    assert_eq!(sanitize_next("/\\evil.example"), "/");
    assert_eq!(sanitize_next(" / "), "/");
    assert_eq!(sanitize_next("/de"), "/de");
}

#[test]
fn cookie_headers() {
    assert_eq!(
        admin_cookie_header("tok", 28800),
        "forms_admin=tok; Path=/; HttpOnly; SameSite=Lax; Max-Age=28800"
    );
    assert_eq!(
        admin_logout_cookie(),
        "forms_admin=; Path=/; HttpOnly; SameSite=Lax; Max-Age=0"
    );
    assert_eq!(
        client_id_header("cid"),
        "oxideforms_cid=cid; Path=/; HttpOnly; SameSite=Lax; Max-Age=315360000"
    );
    assert_eq!(
        lang_cookie_header(Lang::Pt),
        "oxideforms_lang=pt-BR; Path=/; SameSite=Lax; Max-Age=31536000"
    );
}

#[test]
fn locations() {
    assert_eq!(form_location("u"), "/u");
    assert_eq!(submitted_location("u"), "/u/submitted");
    assert_eq!(admin_location("u"), "/u?admin=true");
}

#[test]
fn client_id_from_cookie_or_fresh() {
    let known_id = client_id(&[Some("oxideforms_cid=abc".to_string())]);
    assert_eq!(known_id.id, "abc");
    assert!(!known_id.fresh);
    let fresh = client_id(&[Some("oxideforms_cid=  ".to_string())]);
    assert!(fresh.fresh);
    assert_eq!(fresh.id.len(), 36);
    let other = client_id(&[]);
    assert!(other.fresh);
    assert_ne!(other.id, fresh.id);
    for id in [&fresh.id, &other.id] {
        let chars: Vec<char> = id.chars().collect();
        assert_eq!(chars.len(), 36);
        for (i, c) in chars.iter().enumerate() {
            if i == 8 || i == 13 || i == 18 || i == 23 {
                assert_eq!(*c, '-');
            } else {
                assert!(c.is_ascii_digit() || ('a'..='f').contains(c));
            }
        }
        assert_eq!(chars[14], '4');
        assert!(['8', '9', 'a', 'b'].contains(&chars[19]));
    }
}

#[test]
fn set_lang_redirects_and_remembers() {
    let r = set_lang("de", "/s1?page=1");
    assert_eq!(r.location, "/s1?page=1");
    assert_eq!(
        r.set_cookie.as_deref(),
        Some("oxideforms_lang=de; Path=/; SameSite=Lax; Max-Age=31536000")
    );
    let r = set_lang("xx", "http://x");
    assert_eq!(r.location, "/");
    assert_eq!(r.set_cookie, None);
}

#[test]
fn lang_cookie_is_read_back_as_picked_language() {
    for lang in Lang::ALL {
        let r = set_lang(lang.code(), "/");
        let set_cookie = r.set_cookie.unwrap();
        let pair = set_cookie.split(';').next().unwrap().to_string();
        let headers = vec![Some(format!("theme=dark; {}", pair))];
        let read = cookie_value(&headers, "oxideforms_lang").unwrap();
        assert_eq!(read, lang.code());
        assert_eq!(resolve_lang(Some(&read), Some(Lang::Fr)), lang);
    }
}

#[test]
fn wants_admin_flag() {
    assert!(wants_admin(&parse_pairs("admin=true")));
    assert!(!wants_admin(&parse_pairs("admin=TRUE")));
    assert!(!wants_admin(&parse_pairs("x=1")));
}

#[test]
fn form_page_reply_cases() {
    let form = survey(true);
    let fresh = ClientId { id: "new".to_string(), fresh: true };
    match form_page_reply(&form, &parse_pairs("page=1"), &fresh, false) {
        FormPageReply::Show { page_index, next, set_cookie } => {
            assert_eq!(page_index, 1);
            assert_eq!(next, "/s1?page=1");
            assert_eq!(set_cookie.as_deref(), Some(client_id_header("new").as_str()));
        }
        _ => panic!("expected the form"),
    }
    match form_page_reply(&form, &parse_pairs(""), &known("k"), true) {
        FormPageReply::AlreadyAnswered { location, set_cookie } => {
            assert_eq!(location, "/s1/submitted");
            assert_eq!(set_cookie, None);
        }
        _ => panic!("expected the redirect"),
    }
    match form_page_reply(&survey(false), &parse_pairs(""), &fresh, true) {
        FormPageReply::Show { page_index, next, set_cookie } => {
            assert_eq!(page_index, 0);
            assert_eq!(next, "/s1");
            assert_eq!(set_cookie, None);
        }
        _ => panic!("expected the form"),
    }
}

#[test]
fn submit_rejects_invalid_answers() {
    let form = survey(false);
    let t = T::for_lang(Lang::En);
    let values = parse_pairs("page=2&name=Ada");
    match submit_step(&form, &values, &t, &known("k"), SubmitEvent::Posted) {
        SubmitStep::Reject { page_index, errors, next } => {
            assert_eq!(page_index, 2);
            assert_eq!(errors, vec!["“nps” is required."]);
            assert_eq!(next, "/s1");
        }
        _ => panic!("expected a rejection"),
    }
}

#[test]
fn submit_stores_valid_answers() {
    let form = survey(false);
    let t = T::for_lang(Lang::En);
    let values = parse_pairs("name=Ada&nps=9&tags=a");
    match submit_step(&form, &values, &t, &known("k"), SubmitEvent::Posted) {
        SubmitStep::Store { data } => {
            let expected = build_data(&form, &values);
            assert_eq!(data.entries().len(), expected.entries().len());
        }
        _ => panic!("expected a store"),
    }
    let fresh = ClientId { id: "n".to_string(), fresh: true };
    match submit_step(&form, &values, &t, &fresh, SubmitEvent::Stored(Ok(1))) {
        SubmitStep::Done { location, set_cookie } => {
            assert_eq!(location, "/s1/submitted");
            assert_eq!(set_cookie, Some(client_id_header("n")));
        }
        _ => panic!("expected done"),
    }
    match submit_step(&form, &values, &t, &fresh, SubmitEvent::Stored(Err("disk".to_string()))) {
        SubmitStep::Fail { message } => assert_eq!(message, "disk"),
        _ => panic!("expected a failure"),
    }
}

#[test]
fn single_submission_checks_the_visitor() {
    let form = survey(true);
    let t = T::for_lang(Lang::En);
    let values = parse_pairs("name=Ada&nps=9");
    assert!(matches!(
        submit_step(&form, &values, &t, &known("k"), SubmitEvent::Posted),
        SubmitStep::CheckVisitor
    ));
    match submit_step(&form, &values, &t, &known("k"), SubmitEvent::VisitorChecked(Ok(true))) {
        SubmitStep::Reject { errors, page_index, .. } => {
            assert_eq!(errors, vec!["You have already submitted this form."]);
            assert_eq!(page_index, 0);
        }
        _ => panic!("expected a rejection"),
    }
    assert!(matches!(
        submit_step(&form, &values, &t, &known("k"), SubmitEvent::VisitorChecked(Ok(false))),
        SubmitStep::Store { .. }
    ));
    match submit_step(&form, &values, &t, &known("k"), SubmitEvent::VisitorChecked(Err("e".to_string()))) {
        SubmitStep::Fail { message } => assert_eq!(message, "e"),
        _ => panic!("expected a failure"),
    }
}

#[test]
fn page_navigation() {
    let form = survey(false);
    let t = T::for_lang(Lang::En);
    assert_eq!(nav_direction("next"), Some(false));
    assert_eq!(nav_direction("back"), Some(true));
    assert_eq!(nav_direction("sideways"), None);
    match page_nav_reply(&form, 0, false, &parse_pairs("name=Ada"), &t) {
        PageNavReply::Show { page_index, next } => {
            assert_eq!(page_index, 1);
            assert_eq!(next, "/s1?page=1");
        }
        _ => panic!("expected page 1"),
    }
    match page_nav_reply(&form, 0, false, &parse_pairs("name="), &t) {
        PageNavReply::Reject { page_index, errors, next } => {
            assert_eq!(page_index, 0);
            assert_eq!(errors, vec!["“Name” is required."]);
            assert_eq!(next, "/s1?page=0");
        }
        _ => panic!("expected a rejection"),
    }
    match page_nav_reply(&form, 1, true, &parse_pairs("nps=3"), &t) {
        PageNavReply::Show { page_index, .. } => assert_eq!(page_index, 1),
        _ => panic!("expected page 1"),
    }
    assert!(matches!(page_nav_reply(&form, 5, false, &parse_pairs(""), &t), PageNavReply::Submit));
    assert!(matches!(
        page_nav_reply(&form, 5, true, &parse_pairs(""), &t),
        PageNavReply::Show { page_index: 2, .. }
    ));
}

#[test]
fn admin_gate_and_auth() {
    let key = signing_key("pw");
    let token = make_token(&key, 1000);
    assert!(matches!(admin_gate(false, &key, Some(&token), 0), AdminGate::NotConfigured));
    assert!(matches!(admin_gate(true, &key, Some(&token), 999), AdminGate::Submissions));
    assert!(matches!(admin_gate(true, &key, Some(&token), 1000), AdminGate::Login));
    assert!(matches!(admin_gate(true, &key, None, 0), AdminGate::Login));
    assert!(matches!(admin_auth("s1", None, "pw", &key, 0), AdminAuth::NotConfigured));
    assert!(matches!(admin_auth("s1", Some("pw"), "nope", &key, 0), AdminAuth::Denied));
    match admin_auth("s1", Some("pw"), "pw", &key, 100) {
        AdminAuth::Granted { location, set_cookie } => {
            assert_eq!(location, "/s1?admin=true");
            let granted = make_token(&key, 100 + 28800);
            assert_eq!(set_cookie, admin_cookie_header(&granted, 28800));
            assert!(matches!(admin_gate(true, &key, Some(&granted), 28899), AdminGate::Submissions));
            assert!(matches!(admin_gate(true, &key, Some(&granted), 28900), AdminGate::Login));
        }
        _ => panic!("expected access"),
    }
}

#[test]
fn submission_table() {
    let form = survey(false);
    let data = build_data(&form, &parse_pairs("name=Ada&nps=9&tags=x&tags=y"));
    let raw = RawSubmission { data: "{}".to_string(), created_at: "2024-01-01 10:00:00".to_string() };
    let rows = vec![
        StoredSubmission { data, created_at: raw.created_at.clone() },
        StoredSubmission { data: StoredRecord::new(), created_at: "later".to_string() },
    ];
    let (columns, table) = build_submission_view(&form, &rows);
    assert_eq!(columns, vec!["Name", "nps", "Tags"]);
    assert_eq!(table.len(), 2);
    assert_eq!(table[0].values(), &["Ada".to_string(), "9".to_string(), "x, y".to_string()]);
    assert_eq!(table[0].created_at, "2024-01-01 10:00:00");
    assert_eq!(table[1].values(), &["".to_string(), "".to_string(), "".to_string()]);
}
