use oxideforms::i18n::{accept_language_entries, preferred_language, resolve_lang, Lang, T};

fn weights_of(header: &str) -> (Vec<oxideforms::i18n::AcceptEntry>, Vec<Option<u32>>) {
    let entries = accept_language_entries(header);
    let weights = entries
        .iter()
        .map(|e| e.weight.as_ref().and_then(|w| w.parse::<f32>().ok()).map(f32::to_bits))
        .collect();
    (entries, weights)
}

fn accept(header: &str) -> Option<Lang> {
    let (entries, weights) = weights_of(header);
    preferred_language(&entries, &weights)
}

#[test]
fn lang_codes_and_names() {
    assert_eq!(Lang::En.code(), "en-US");
    assert_eq!(Lang::Pt.code(), "pt-BR");
    assert_eq!(Lang::Zh.endonym(), "中文");
    assert_eq!(Lang::Pt.endonym(), "Português (BR)");
}

#[test]
fn lang_parse_aliases() {
    assert_eq!(Lang::parse("de"), Some(Lang::De));
    assert_eq!(Lang::parse(" PT_BR "), Some(Lang::Pt));
    assert_eq!(Lang::parse("zh-Hant"), Some(Lang::Zh));
    assert_eq!(Lang::parse("es-MX"), Some(Lang::Es));
    assert_eq!(Lang::parse("en-GB"), Some(Lang::En));
    assert_eq!(Lang::parse("fr-CA"), Some(Lang::Fr));
    assert_eq!(Lang::parse("it"), None);
    assert_eq!(Lang::parse(""), None);
}

#[test]
fn accept_language_entries_split() {
    let entries = accept_language_entries(" fr-CH, fr;q=0.9 , , en;Q=2, *;q=0.5");
    let got: Vec<(String, Option<String>)> =
        entries.into_iter().map(|e| (e.code, e.weight)).collect();
    assert_eq!(
        got,
        vec![
            ("fr-CH".to_string(), None),
            ("fr".to_string(), Some("0.9".to_string())),
            ("en".to_string(), None),
            ("*".to_string(), Some("0.5".to_string())),
        ]
    );
}

#[test]
fn accept_language_prefers_highest_weight() {
    assert_eq!(accept("de;q=0.5, fr;q=0.8, en;q=0.1"), Some(Lang::Fr));
    assert_eq!(accept("it, de;q=0.7"), Some(Lang::De));
    assert_eq!(accept("en, de"), Some(Lang::En));
    assert_eq!(accept("de;q=0, *"), None);
    assert_eq!(accept("xx;q=1, es;q=0.2"), Some(Lang::Es));
    assert_eq!(accept("fr;q=abc, de;q=0.9"), Some(Lang::Fr));
    assert_eq!(accept(""), None);
}

#[test]
fn resolve_lang_order() {
    assert_eq!(resolve_lang(Some("pt-BR"), Some(Lang::De)), Lang::Pt);
    assert_eq!(resolve_lang(Some("klingon"), Some(Lang::De)), Lang::De);
    assert_eq!(resolve_lang(None, Some(Lang::Zh)), Lang::Zh);
    assert_eq!(resolve_lang(None, None), Lang::En);
    assert_eq!(resolve_lang(None, accept("es-AR;q=0.4")), Lang::Es);
}

#[test]
fn string_tables() {
    let en = T::for_lang(Lang::En);
    assert_eq!(en.lang, Lang::En);
    assert_eq!(en.code, "en-US");
    assert_eq!(en.submit, "Submit response");
    assert_eq!(en.already_submitted, "You have already submitted this form.");
    let de = T::for_lang(Lang::De);
    assert_eq!(de.back, "Zurück");
    assert_eq!(de.code, "de");
    let zh = T::for_lang(Lang::Zh);
    assert_eq!(zh.wrong_password, "密码错误。请重试。");
    assert_eq!(en.languages(), &[Lang::En, Lang::Pt, Lang::De, Lang::Fr, Lang::Zh, Lang::Es]);
}

#[test]
fn formatted_strings() {
    let en = T::for_lang(Lang::En);
    assert_eq!(en.required_error("Name"), "“Name” is required.");
    assert_eq!(T::for_lang(Lang::Fr).required_error("Nom"), "« Nom » est obligatoire.");
    assert_eq!(en.thanks("Survey"), "Thanks — your response to Survey has been recorded.");
    assert_eq!(en.not_found_body("abc"), "There is no form at /abc.");
    assert_eq!(
        T::for_lang(Lang::De).admin_prompt("X"),
        "Gib das Admin-Passwort ein, um die Antworten für “X” zu sehen."
    );
    assert_eq!(en.submissions_subtitle("Survey", 1), "Survey · 1 response");
    assert_eq!(en.submissions_subtitle("Survey", 3), "Survey · 3 responses");
    assert_eq!(T::for_lang(Lang::De).submissions_subtitle("S", 2), "S · 2 Antworten");
    assert_eq!(T::for_lang(Lang::Zh).submissions_subtitle("S", 2), "S · 2 条回答");
}
