use oxideforms::forms::{Field, FormDefinition, Page};
use oxideforms::i18n::{Lang, T};
use oxideforms::templates::FormPage;
use oxideforms::values::parse_pairs;
use oxideforms::watch::{dir_signature, note_signature, signature_line, sort_lines, text_less};

fn field(id: &str, kind: &str, placeholder: Option<&str>) -> Field {
    Field::new(id.to_string(), kind.to_string(), id.to_string(), false, Vec::new(), placeholder.map(str::to_string))
}

fn form(pages: usize) -> FormDefinition {
    let pages = (0..pages)
        .map(|i| Page::new(None, None, vec![field(&format!("f{i}"), "text", None)]))
        .collect();
    FormDefinition::new("u1".to_string(), "T".to_string(), None, false, pages)
}

#[test]
fn form_page_navigation_paths() {
    let f = form(3);
    let values = parse_pairs("");
    let page = FormPage { form: &f, page_index: 1, errors: &[], values: &values, t: T::for_lang(Lang::En), next: "/u1" };
    assert!(!page.is_last_page());
    assert_eq!(page.page_number(), 2);
    assert_eq!(page.page_count(), 3);
    assert_eq!(page.indices(), vec![0, 1, 2]);
    assert!(page.multi_page());
    assert_eq!(page.action(), "/u1/page/1/next");
    assert_eq!(page.back_action(), "/u1/page/0/back");
    assert_eq!(page.pages_before().len(), 1);
    assert_eq!(page.current_page().fields()[0].id, "f1");
    let last = FormPage { page_index: 2, ..page };
    assert!(last.is_last_page());
    assert_eq!(last.action(), "/u1");
    let first = FormPage { page_index: 0, ..last };
    assert_eq!(first.back_action(), "/u1/page/0/back");
    assert_eq!(first.pages_before().len(), 0);
}

#[test]
fn single_page_form() {
    let f = form(1);
    let values = parse_pairs("");
    let page = FormPage { form: &f, page_index: 0, errors: &[], values: &values, t: T::for_lang(Lang::De), next: "/u1" };
    assert!(page.is_last_page());
    assert!(!page.multi_page());
    assert_eq!(page.action(), "/u1");
    let own = field("m", "textarea", Some("Your text"));
    let none = field("m", "textarea", None);
    let empty = field("m", "textarea", Some(""));
    assert_eq!(page.textarea_placeholder(&own), "Your text");
    assert_eq!(page.textarea_placeholder(&none), "Gib deine Antwort ein…");
    assert_eq!(page.textarea_placeholder(&empty), "Gib deine Antwort ein…");
}

#[test]
fn directory_signature() {
    assert_eq!(signature_line("forms/a.json", 12), "forms/a.json:12");
    let lines = vec!["b:2".to_string(), "a:9".to_string(), "ab:1".to_string(), "a:10".to_string()];
    assert_eq!(sort_lines(&lines), vec!["a:10", "a:9", "ab:1", "b:2"]);
    assert_eq!(dir_signature(&lines), "a:10\na:9\nab:1\nb:2");
    let mut std_sorted = lines.clone();
    std_sorted.sort();
    assert_eq!(sort_lines(&lines), std_sorted);
    assert_eq!(dir_signature(&Vec::new()), "");
    assert!(text_less("a", "b"));
    assert!(text_less("a", "ab"));
    assert!(!text_less("ab", "a"));
    assert!(!text_less("a", "a"));
    assert!(text_less("Z", "a"));
}

#[test]
fn watcher_reloads_only_on_change() {
    let mut last = String::new();
    assert!(note_signature(&mut last, "a:1".to_string()));
    assert_eq!(last, "a:1");
    assert!(!note_signature(&mut last, "a:1".to_string()));
    assert_eq!(last, "a:1");
    assert!(note_signature(&mut last, "a:2".to_string()));
    assert_eq!(last, "a:2");
    assert!(note_signature(&mut last, String::new()));
    assert_eq!(last, "");
}
