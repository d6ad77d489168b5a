//! The UI languages and their strings.
//!
//! Only the application's own strings (headings, buttons, labels, prompts,
//! hints) are translated. Form content from the definition files (titles,
//! descriptions, field labels, option values, placeholders) is rendered
//! verbatim.
//!
//! The active language comes from the `oxideforms_lang` cookie when it names a
//! supported language, else from the `Accept-Language` header, else English.

use vstd::prelude::*;
use crate::text::{
    concat3, is_blank, replace_char, ascii_lower, split_once, starts_with, str_eq, trim,
};
use crate::num::decimal;

verus! {

/// The UI languages OxideForms ships translations for.
#[derive(Clone, Copy, PartialEq, Eq, Debug, Structural)]
pub enum Lang {
    /// `en-US`, the default language.
    En,
    /// `pt-BR`
    Pt,
    /// `de`
    De,
    /// `fr`
    Fr,
    /// `zh` (Simplified Chinese)
    Zh,
    /// `es`
    Es,
}

/// The code used in `<html lang>`, the language cookie and the switcher.
pub open spec fn lang_code(lang: Lang) -> Seq<char> {
    match lang {
        Lang::En => "en-US"@,
        Lang::Pt => "pt-BR"@,
        Lang::De => "de"@,
        Lang::Fr => "fr"@,
        Lang::Zh => "zh"@,
        Lang::Es => "es"@,
    }
}

/// The language's own name, as the header switcher shows it.
pub open spec fn lang_endonym(lang: Lang) -> Seq<char> {
    match lang {
        Lang::En => "English"@,
        Lang::Pt => "Português (BR)"@,
        Lang::De => "Deutsch"@,
        Lang::Fr => "Français"@,
        Lang::Zh => "中文"@,
        Lang::Es => "Español"@,
    }
}

/// The form in which a language tag is looked up: trimmed, ASCII lower-case,
/// with `_` read as `-`.
pub open spec fn normal_tag(code: Seq<char>) -> Seq<char> {
    replace_char(ascii_lower(trim(code)), '_', '-')
}

/// The language a normalised tag names, if any.
pub open spec fn lang_of_tag(t: Seq<char>) -> Option<Lang> {
    if t == "en"@ || t == "en-us"@ || t == "en-gb"@ || t == "en-au"@ || t == "en-ca"@ {
        Some(Lang::En)
    } else if t == "pt"@ || t == "pt-br"@ || t == "pt-pt"@ {
        Some(Lang::Pt)
    } else if t == "de"@ || t == "de-de"@ || t == "de-at"@ || t == "de-ch"@ {
        Some(Lang::De)
    } else if t == "fr"@ || t == "fr-fr"@ || t == "fr-be"@ || t == "fr-ca"@ || t == "fr-ch"@ {
        Some(Lang::Fr)
    } else if t == "zh"@ || t == "zh-cn"@ || t == "zh-sg"@ || t == "zh-hans"@ || t == "zh-tw"@ || t == "zh-hant"@ {
        Some(Lang::Zh)
    } else if t == "es"@ || t == "es-es"@ || t == "es-mx"@ || t == "es-ar"@ || t == "es-us"@ {
        Some(Lang::Es)
    } else {
        None
    }
}

/// A language's own code names it: the language a visitor picks, stored as its
/// code in the language cookie, is the language read back from it.
pub proof fn lemma_parse_lang_code(lang: Lang)
    ensures
        parse_lang(lang_code(lang)) == Some(lang),
{
    reveal_strlit("en-US");
    reveal_strlit("pt-BR");
    reveal_strlit("de");
    reveal_strlit("fr");
    reveal_strlit("zh");
    reveal_strlit("es");
    reveal_strlit("en");
    reveal_strlit("en-us");
    reveal_strlit("en-gb");
    reveal_strlit("en-au");
    reveal_strlit("en-ca");
    reveal_strlit("pt");
    reveal_strlit("pt-br");
    reveal_strlit("pt-pt");
    reveal_strlit("de-de");
    reveal_strlit("de-at");
    reveal_strlit("de-ch");
    reveal_strlit("fr-fr");
    reveal_strlit("fr-be");
    reveal_strlit("fr-ca");
    reveal_strlit("fr-ch");
    reveal_strlit("zh-cn");
    reveal_strlit("zh-sg");
    reveal_strlit("zh-hans");
    reveal_strlit("zh-tw");
    reveal_strlit("zh-hant");
    reveal_strlit("es-es");
    reveal_strlit("es-mx");
    reveal_strlit("es-ar");
    reveal_strlit("es-us");
    let c = lang_code(lang);
    crate::text::lemma_trim_plain(c);
    let lowered = ascii_lower(c);
    let normal = replace_char(lowered, '_', '-');
    assert(normal_tag(c) == normal);
    assert(parse_lang(c) == lang_of_tag(normal));
    assert("en"@[0] == 'e');
    assert("en-us"@[0] == 'e');
    assert("en-gb"@[0] == 'e');
    assert("en-au"@[0] == 'e');
    assert("en-ca"@[0] == 'e');
    assert("pt"@[0] == 'p');
    assert("pt-br"@[0] == 'p');
    assert("pt-pt"@[0] == 'p');
    assert("de"@[0] == 'd');
    assert("de-de"@[0] == 'd');
    assert("de-at"@[0] == 'd');
    assert("de-ch"@[0] == 'd');
    assert("fr"@[0] == 'f');
    assert("fr-fr"@[0] == 'f');
    assert("fr-be"@[0] == 'f');
    assert("fr-ca"@[0] == 'f');
    assert("fr-ch"@[0] == 'f');
    assert("zh"@[0] == 'z');
    assert("zh-cn"@[0] == 'z');
    assert("zh-sg"@[0] == 'z');
    assert("zh-hans"@[0] == 'z');
    assert("zh-tw"@[0] == 'z');
    assert("zh-hant"@[0] == 'z');
    assert("es"@[0] == 'e');
    assert("es-es"@[0] == 'e');
    assert("es-mx"@[0] == 'e');
    assert("es-ar"@[0] == 'e');
    assert("es-us"@[0] == 'e');
    assert("en"@[1] == 'n');
    assert(normal[0] == c[0] && normal[1] == ascii_lower(c)[1]);
    match lang {
        Lang::En => {
            assert(normal =~= "en-us"@);
            assert(normal != "en"@);
            assert(lang_of_tag(normal) == Some(Lang::En));
        },
        Lang::Pt => {
            assert(normal =~= "pt-br"@);
            assert(normal != "pt"@);
            assert(lang_of_tag(normal) == Some(Lang::Pt));
        },
        Lang::De => {
            assert(normal =~= c);
            assert(lang_of_tag(normal) == Some(Lang::De));
        },
        Lang::Fr => {
            assert(normal =~= c);
            assert(lang_of_tag(normal) == Some(Lang::Fr));
        },
        Lang::Zh => {
            assert(normal =~= c);
            assert(lang_of_tag(normal) == Some(Lang::Zh));
        },
        Lang::Es => {
            assert(normal =~= c);
            assert(lang_of_tag(normal) == Some(Lang::Es));
        },
    }
}

/// A tag names the language of its primary subtag: whatever tag is read as
/// a language starts with that language's own two-letter code, followed by
/// the end of the tag or a `-` (so `es-ES` is Spanish and never Portuguese).
pub proof fn lemma_parse_lang_primary_subtag(code: Seq<char>)
    ensures
        match parse_lang(code) {
            Some(l) => {
                let t = normal_tag(code);
                &&& t.len() >= 2
                &&& t.take(2) == lang_code(l).take(2)
                &&& (t.len() == 2 || t[2] == '-')
            },
            None => true,
        },
{
    reveal_strlit("en-US");
    reveal_strlit("pt-BR");
    reveal_strlit("de");
    reveal_strlit("fr");
    reveal_strlit("zh");
    reveal_strlit("es");
    reveal_strlit("en");
    reveal_strlit("en-us");
    reveal_strlit("en-gb");
    reveal_strlit("en-au");
    reveal_strlit("en-ca");
    reveal_strlit("pt");
    reveal_strlit("pt-br");
    reveal_strlit("pt-pt");
    reveal_strlit("de-de");
    reveal_strlit("de-at");
    reveal_strlit("de-ch");
    reveal_strlit("fr-fr");
    reveal_strlit("fr-be");
    reveal_strlit("fr-ca");
    reveal_strlit("fr-ch");
    reveal_strlit("zh-cn");
    reveal_strlit("zh-sg");
    reveal_strlit("zh-hans");
    reveal_strlit("zh-tw");
    reveal_strlit("zh-hant");
    reveal_strlit("es-es");
    reveal_strlit("es-mx");
    reveal_strlit("es-ar");
    reveal_strlit("es-us");
    let t = normal_tag(code);
    match lang_of_tag(t) {
        Some(l) => {
            let c = lang_code(l);
            assert(t.len() >= 2 && t[0] == c[0] && t[1] == c[1] && (t.len() == 2 || t[2] == '-'));
            assert(t.take(2) =~= c.take(2));
        },
        None => {},
    }
}

/// The language a code (a cookie value or a switcher value) names, if any.
pub open spec fn parse_lang(code: Seq<char>) -> Option<Lang> {
    lang_of_tag(normal_tag(code))
}

/// Every supported language, in the order the header switcher lists them.
pub open spec fn all_langs() -> Seq<Lang> {
    seq![Lang::En, Lang::Pt, Lang::De, Lang::Fr, Lang::Zh, Lang::Es]
}

impl Lang {
    /// Every supported language, in the order the header switcher lists them.
    pub const ALL: [Lang; 6] = [Lang::En, Lang::Pt, Lang::De, Lang::Fr, Lang::Zh, Lang::Es];

    /// BCP-47-ish code used in `<html lang="...">`, the cookie and the switcher.
    pub fn code(self) -> (r: &'static str)
        ensures
            r@ == lang_code(self),
    {
        match self {
            Lang::En => "en-US",
            Lang::Pt => "pt-BR",
            Lang::De => "de",
            Lang::Fr => "fr",
            Lang::Zh => "zh",
            Lang::Es => "es",
        }
    }

    /// The language's own name, as shown in the header switcher.
    pub fn endonym(self) -> (r: &'static str)
        ensures
            r@ == lang_endonym(self),
    {
        match self {
            Lang::En => "English",
            Lang::Pt => "Português (BR)",
            Lang::De => "Deutsch",
            Lang::Fr => "Français",
            Lang::Zh => "中文",
            Lang::Es => "Español",
        }
    }

    /// Best-effort parse of a language code (a cookie value or a switcher
    /// value). Accepts bare tags (`de`), region tags (`pt-BR`) and common
    /// aliases.
    pub fn parse(code: &str) -> (r: Option<Lang>)
        ensures
            r == parse_lang(code@),
    {
        let lowered = crate::text::to_ascii_lower(crate::text::trim_str(code));
        let c = crate::text::replace_char_str(lowered.as_str(), '_', '-');
        let c = c.as_str();
        if str_eq(c, "en") || str_eq(c, "en-us") || str_eq(c, "en-gb") || str_eq(c, "en-au") || str_eq(c, "en-ca") {
            Some(Lang::En)
        } else if str_eq(c, "pt") || str_eq(c, "pt-br") || str_eq(c, "pt-pt") {
            Some(Lang::Pt)
        } else if str_eq(c, "de") || str_eq(c, "de-de") || str_eq(c, "de-at") || str_eq(c, "de-ch") {
            Some(Lang::De)
        } else if str_eq(c, "fr") || str_eq(c, "fr-fr") || str_eq(c, "fr-be") || str_eq(c, "fr-ca") || str_eq(c, "fr-ch") {
            Some(Lang::Fr)
        } else if str_eq(c, "zh") || str_eq(c, "zh-cn") || str_eq(c, "zh-sg") || str_eq(c, "zh-hans") || str_eq(c, "zh-tw") || str_eq(c, "zh-hant") {
            Some(Lang::Zh)
        } else if str_eq(c, "es") || str_eq(c, "es-es") || str_eq(c, "es-mx") || str_eq(c, "es-ar") || str_eq(c, "es-us") {
            Some(Lang::Es)
        } else {
            None
        }
    }
}

/// One comma-separated item of an `Accept-Language` header: the language
/// code and, when the item carries a `q=` weight, the weight's text.
pub struct AcceptEntry {
    pub code: String,
    pub weight: Option<String>,
}

impl View for AcceptEntry {
    type V = (Seq<char>, Option<Seq<char>>);

    open spec fn view(&self) -> (Seq<char>, Option<Seq<char>>) {
        (
            self.code@,
            match self.weight {
                Some(w) => Some(w@),
                None => None,
            },
        )
    }
}

/// The views of a list of entries.
pub open spec fn entries_view(v: Seq<AcceptEntry>) -> Seq<(Seq<char>, Option<Seq<char>>)> {
    v.map_values(|e: AcceptEntry| e@)
}

/// The text of a `q=` weight: present when the (trimmed) parameter starts
/// with `q=`, and then the trimmed rest.
pub open spec fn weight_text(q: Seq<char>) -> Option<Seq<char>> {
    let t = trim(q);
    if starts_with(t, "q="@) {
        Some(trim(t.skip(2)))
    } else {
        None
    }
}

/// The entry of one non-blank, trimmed item.
pub open spec fn item_entry(part: Seq<char>) -> (Seq<char>, Option<Seq<char>>) {
    match split_once(part, ';') {
        Some((code, q)) => (trim(code), weight_text(q)),
        None => (part, None),
    }
}

/// The entries of one comma-separated piece: none for a blank piece.
pub open spec fn piece_entries(piece: Seq<char>) -> Seq<(Seq<char>, Option<Seq<char>>)> {
    if is_blank(piece) {
        seq![]
    } else {
        seq![item_entry(trim(piece))]
    }
}

/// The entries of an `Accept-Language` header, in order.
pub open spec fn accept_entries(h: Seq<char>) -> Seq<(Seq<char>, Option<Seq<char>>)>
    decreases h.len(),
{
    match split_once(h, ',') {
        Some((a, b)) => if b.len() < h.len() {
            piece_entries(a) + accept_entries(b)
        } else {
            piece_entries(a)
        },
        None => piece_entries(h),
    }
}

/// The bit pattern of the `f32` value `1.0`, the weight of an item without a
/// readable `q=` weight.
pub open spec fn one_bits() -> u32 {
    0x3f80_0000
}

/// The `f32` weight (as bits) of an item: its parsed weight, or `1.0`.
pub open spec fn weight_bits(w: Option<u32>) -> u32 {
    match w {
        Some(b) => b,
        None => one_bits(),
    }
}

/// An `f32` bit pattern that is a NaN.
pub open spec fn f32_is_nan(b: u32) -> bool {
    b % 0x8000_0000 > 0x7f80_0000
}

/// A number that orders non-NaN `f32` bit patterns as their values order
/// (`-0.0` and `0.0` both map to 0).
pub open spec fn f32_order_key(b: u32) -> int {
    if b >= 0x8000_0000 {
        -((b - 0x8000_0000) as int)
    } else {
        b as int
    }
}

/// `a <= 0.0` for the `f32` with bits `a` (false for a NaN).
pub open spec fn f32_le_zero(a: u32) -> bool {
    !f32_is_nan(a) && f32_order_key(a) <= 0
}

/// `a > b` for the `f32`s with bits `a` and `b` (false when either is NaN).
pub open spec fn f32_gt(a: u32, b: u32) -> bool {
    !f32_is_nan(a) && !f32_is_nan(b) && f32_order_key(a) > f32_order_key(b)
}

/// The supported languages of the entries, each with its weight, skipping `*`
/// and items weighted zero or less.
pub open spec fn scored(
    entries: Seq<(Seq<char>, Option<Seq<char>>)>,
    weights: Seq<Option<u32>>,
) -> Seq<(u32, Lang)>
    decreases entries.len(),
{
    if entries.len() == 0 {
        seq![]
    } else {
        let prev = scored(entries.drop_last(), weights);
        let e = entries.last();
        let w = weight_bits(weights[entries.len() - 1]);
        if e.0 == "*"@ || f32_le_zero(w) {
            prev
        } else {
            match parse_lang(e.0) {
                Some(l) => prev.push((w, l)),
                None => prev,
            }
        }
    }
}

/// The first of the highest-weighted entries, scanning left to right: a later
/// entry replaces the pick only when its weight is strictly greater.
pub open spec fn best_scored(s: Seq<(u32, Lang)>) -> Option<(u32, Lang)>
    decreases s.len(),
{
    if s.len() == 0 {
        None
    } else {
        match best_scored(s.drop_last()) {
            None => Some(s.last()),
            Some(b) => if f32_gt(s.last().0, b.0) {
                Some(s.last())
            } else {
                Some(b)
            },
        }
    }
}

/// The language an `Accept-Language` header prefers, given the `f32` weights
/// (as bits) read from its entries.
pub open spec fn preferred_lang(
    entries: Seq<(Seq<char>, Option<Seq<char>>)>,
    weights: Seq<Option<u32>>,
) -> Option<Lang> {
    match best_scored(scored(entries, weights)) {
        Some(p) => Some(p.1),
        None => None,
    }
}

/// The language of a request: the cookie's language when it names one, else
/// the header's preference, else English.
pub open spec fn resolve_lang_spec(cookie: Option<Seq<char>>, accepted: Option<Lang>) -> Lang {
    match cookie {
        Some(c) if parse_lang(c).is_some() => parse_lang(c).unwrap(),
        _ => match accepted {
            Some(l) => l,
            None => Lang::En,
        },
    }
}

fn piece_entry(piece: &str, out: &mut Vec<AcceptEntry>)
    ensures
        entries_view(final(out)@) == entries_view(old(out)@) + piece_entries(piece@),
{
    let part = crate::text::trim_str(piece);
    if part.unicode_len() == 0 {
        assert(entries_view(old(out)@) + piece_entries(piece@) =~= entries_view(old(out)@));
        return;
    }
    let e = match crate::text::split_once_str(part, ';') {
        Some((code, q)) => {
            let t = crate::text::trim_str(q);
            proof {
                reveal_strlit("q=");
            }
            let weight = if crate::text::str_starts_with(t, "q=") {
                let n = t.unicode_len();
                let w = crate::text::trim_str(t.substring_char(2, n));
                assert(t@.subrange(2, n as int) =~= t@.skip(2));
                Some(crate::text::to_owned_string(w))
            } else {
                None
            };
            AcceptEntry { code: crate::text::to_owned_string(crate::text::trim_str(code)), weight }
        },
        None => AcceptEntry { code: crate::text::to_owned_string(part), weight: None },
    };
    let ghost before = out@;
    out.push(e);
    assert(entries_view(out@) =~= entries_view(before) + piece_entries(piece@));
}

/// The entries of an `Accept-Language` header: its non-blank comma-separated
/// items, each as its trimmed language code and the text of its `q=` weight.
pub fn accept_language_entries(header: &str) -> (r: Vec<AcceptEntry>)
    ensures
        entries_view(r@) == accept_entries(header@),
{
    let mut out: Vec<AcceptEntry> = Vec::new();
    let mut rest: &str = header;
    assert(entries_view(out@) =~= Seq::<(Seq<char>, Option<Seq<char>>)>::empty());
    loop
        invariant
            entries_view(out@) + accept_entries(rest@) == accept_entries(header@),
        decreases rest@.len(),
    {
        match crate::text::split_once_str(rest, ',') {
            Some((a, b)) => {
                proof {
                    crate::text::lemma_split_once_shorter(rest@, ',');
                }
                let ghost prev = entries_view(out@);
                piece_entry(a, &mut out);
                assert(prev + accept_entries(rest@) == prev + (piece_entries(a@) + accept_entries(b@)));
                assert(prev + (piece_entries(a@) + accept_entries(b@)) =~= (prev + piece_entries(a@)) + accept_entries(b@));
                rest = b;
            },
            None => {
                let ghost prev = entries_view(out@);
                piece_entry(rest, &mut out);
                assert(entries_view(out@) =~= prev + accept_entries(rest@));
                return out;
            },
        }
    }
}

fn f32_is_nan_bits(b: u32) -> (r: bool)
    ensures
        r == f32_is_nan(b),
{
    b % 0x8000_0000 > 0x7f80_0000
}

fn f32_order_key_bits(b: u32) -> (r: i64)
    ensures
        r == f32_order_key(b),
{
    if b >= 0x8000_0000 {
        -((b - 0x8000_0000) as i64)
    } else {
        b as i64
    }
}

/// The language the header's entries prefer: skipping `*` and items whose
/// weight is zero or less, the first supported language among the highest
/// weights. `weights[i]` is the `f32` (as bits) parsed from entry `i`'s
/// weight text, `None` when it has none or it does not parse (weight `1.0`).
pub fn preferred_language(entries: &Vec<AcceptEntry>, weights: &Vec<Option<u32>>) -> (r: Option<
    Lang,
>)
    requires
        weights@.len() == entries@.len(),
    ensures
        r == preferred_lang(entries_view(entries@), weights@),
{
    let ghost ev = entries_view(entries@);
    let mut best: Option<(u32, Lang)> = None;
    let mut i: usize = 0;
    while i < entries.len()
        invariant
            weights@.len() == entries@.len(),
            ev == entries_view(entries@),
            ev.len() == entries@.len(),
            i <= entries@.len(),
            best == best_scored(scored(ev.take(i as int), weights@)),
        decreases entries@.len() - i,
    {
        let ghost before = scored(ev.take(i as int), weights@);
        assert(ev.take(i + 1).drop_last() =~= ev.take(i as int));
        assert(ev.take(i + 1).last() == entries@[i as int]@);
        let e = &entries[i];
        let w = match weights[i] {
            Some(b) => b,
            None => 0x3f80_0000,
        };
        proof {
            reveal_strlit("*");
        }
        let skip = str_eq(e.code.as_str(), "*") || (!f32_is_nan_bits(w) && f32_order_key_bits(w)
            <= 0);
        if !skip {
            match Lang::parse(e.code.as_str()) {
                Some(l) => {
                    assert(scored(ev.take(i + 1), weights@) == before.push((w, l)));
                    assert(before.push((w, l)).drop_last() =~= before);
                    best = match best {
                        None => Some((w, l)),
                        Some(b) => {
                            if !f32_is_nan_bits(w) && !f32_is_nan_bits(b.0) && f32_order_key_bits(w)
                                > f32_order_key_bits(b.0) {
                                Some((w, l))
                            } else {
                                Some(b)
                            }
                        },
                    };
                },
                None => {},
            }
        }
        i = i + 1;
    }
    assert(ev.take(entries@.len() as int) =~= ev);
    match best {
        Some(p) => Some(p.1),
        None => None,
    }
}

/// Resolve the language to use for a request:
///
/// 1. the remembered `oxideforms_lang` cookie, if it holds a supported language;
/// 2. otherwise the language the `Accept-Language` header prefers (`accepted`,
///    see [`preferred_language`]);
/// 3. otherwise English (`en-US`).
pub fn resolve_lang(cookie: Option<&str>, accepted: Option<Lang>) -> (r: Lang)
    ensures
        r == resolve_lang_spec(
            match cookie {
                Some(c) => Some(c@),
                None => None,
            },
            accepted,
        ),
{
    if let Some(c) = cookie {
        if let Some(l) = Lang::parse(c) {
            return l;
        }
    }
    match accepted {
        Some(l) => l,
        None => Lang::En,
    }
}

/// All the translatable UI strings for one language, plus helpers for strings
/// that depend on a runtime value (form title, uuid, count).
#[derive(Clone, Copy)]
pub struct T {

    pub lang: Lang,
    /// Value for the `<html lang="…">` attribute and the language cookie.
    pub code: &'static str,
    /// Accessible label for the header language switcher.
    pub lang_label: &'static str,

    // footer
    pub footer_source: &'static str,
    pub footer_made_by: &'static str,
    pub github_aria: &'static str,

    // form page
    pub fix_below: &'static str,
    pub required_hint: &'static str,
    pub submit: &'static str,
    pub next: &'static str,
    pub back: &'static str,
    /// Shown in a textarea that didn't define its own placeholder.
    pub default_textarea_placeholder: &'static str,
    pub already_submitted: &'static str,

    // success page
    pub received_word: &'static str,
    pub success_heading: &'static str,
    pub submit_another: &'static str,
    pub view_submissions: &'static str,

    // admin login page
    pub admin_word: &'static str,
    pub admin_heading: &'static str,
    pub admin_password_label: &'static str,
    pub unlock: &'static str,
    pub back_to_form: &'static str,
    pub admin_not_configured_view: &'static str,
    pub admin_not_configured: &'static str,
    pub wrong_password: &'static str,

    // submissions (admin) page
    pub submissions_word: &'static str,
    pub refresh: &'static str,
    pub log_out: &'static str,
    pub view_form: &'static str,
    pub no_submissions: &'static str,
    pub no_submissions_hint: &'static str,
    pub submitted_col: &'static str,

    // not-found page
    pub not_found_word: &'static str,
    pub not_found_heading: &'static str,
    pub view_on_github: &'static str,
}

/// The UI strings of each language.
pub open spec fn strings_of(lang: Lang) -> T {
    match lang {
        Lang::En => T {
            lang: Lang::En,
            code: "en-US",
            lang_label: "Language",
            footer_source: "source code",
            footer_made_by: "made by",
            github_aria: "View the GitHub repository",
            fix_below: "Please fix the following:",
            required_hint: "Fields marked * are required.",
            submit: "Submit response",
            next: "Next",
            back: "Back",
            default_textarea_placeholder: "Type your answer…",
            already_submitted: "You have already submitted this form.",
            received_word: "Received",
            success_heading: "Response received",
            submit_another: "Submit another",
            view_submissions: "View submissions",
            admin_word: "Admin",
            admin_heading: "Administrator access",
            admin_password_label: "Admin password",
            unlock: "Unlock",
            back_to_form: "← Back to form",
            admin_not_configured_view: "Admin is not configured. Set the ADMIN_PASSWORD environment variable to enable this view.",
            admin_not_configured: "Admin is not configured. Set the ADMIN_PASSWORD environment variable.",
            wrong_password: "Incorrect password. Please try again.",
            submissions_word: "Submissions",
            refresh: "↻ Refresh",
            log_out: "Log out",
            view_form: "View form",
            no_submissions: "No submissions yet",
            no_submissions_hint: "Responses will appear here as soon as someone submits the form.",
            submitted_col: "Submitted",
            not_found_word: "Not found",
            not_found_heading: "Form not found",
            view_on_github: "View on GitHub",
        },
        Lang::Pt => T {
            lang: Lang::Pt,
            code: "pt-BR",
            lang_label: "Idioma",
            footer_source: "código-fonte",
            footer_made_by: "feito por",
            github_aria: "Ver o repositório no GitHub",
            fix_below: "Corrija os itens abaixo:",
            required_hint: "Campos marcados com * são obrigatórios.",
            submit: "Enviar resposta",
            next: "Próximo",
            back: "Voltar",
            default_textarea_placeholder: "Digite sua resposta…",
            already_submitted: "Você já enviou este formulário.",
            received_word: "Recebido",
            success_heading: "Resposta recebida",
            submit_another: "Enviar outra",
            view_submissions: "Ver respostas",
            admin_word: "Admin",
            admin_heading: "Acesso de administrador",
            admin_password_label: "Senha do administrador",
            unlock: "Desbloquear",
            back_to_form: "← Voltar ao formulário",
            admin_not_configured_view: "O admin não está configurado. Defina a variável de ambiente ADMIN_PASSWORD para habilitar esta visão.",
            admin_not_configured: "O admin não está configurado. Defina a variável de ambiente ADMIN_PASSWORD.",
            wrong_password: "Senha incorreta. Tente novamente.",
            submissions_word: "Respostas",
            refresh: "↻ Atualizar",
            log_out: "Sair",
            view_form: "Ver formulário",
            no_submissions: "Nenhuma resposta ainda",
            no_submissions_hint: "As respostas aparecerão aqui assim que alguém enviar o formulário.",
            submitted_col: "Enviada",
            not_found_word: "Não encontrado",
            not_found_heading: "Formulário não encontrado",
            view_on_github: "Ver no GitHub",
        },
        Lang::De => T {
            lang: Lang::De,
            code: "de",
            lang_label: "Sprache",
            footer_source: "Quellcode",
            footer_made_by: "entwickelt von",
            github_aria: "GitHub-Repository ansehen",
            fix_below: "Bitte behebe das Folgende:",
            required_hint: "Felder mit * sind Pflichtfelder.",
            submit: "Antwort absenden",
            next: "Weiter",
            back: "Zurück",
            default_textarea_placeholder: "Gib deine Antwort ein…",
            already_submitted: "Du hast dieses Formular bereits abgeschickt.",
            received_word: "Empfangen",
            success_heading: "Antwort erhalten",
            submit_another: "Weitere Antwort senden",
            view_submissions: "Antworten ansehen",
            admin_word: "Admin",
            admin_heading: "Administrator-Zugriff",
            admin_password_label: "Admin-Passwort",
            unlock: "Entsperren",
            back_to_form: "← Zurück zum Formular",
            admin_not_configured_view: "Admin ist nicht konfiguriert. Setze die Umgebungsvariable ADMIN_PASSWORD, um diese Ansicht zu aktivieren.",
            admin_not_configured: "Admin ist nicht konfiguriert. Setze die Umgebungsvariable ADMIN_PASSWORD.",
            wrong_password: "Falsches Passwort. Bitte versuche es erneut.",
            submissions_word: "Antworten",
            refresh: "↻ Aktualisieren",
            log_out: "Abmelden",
            view_form: "Formular ansehen",
            no_submissions: "Noch keine Antworten",
            no_submissions_hint: "Antworten erscheinen hier, sobald jemand das Formular absendet.",
            submitted_col: "Gesendet",
            not_found_word: "Nicht gefunden",
            not_found_heading: "Formular nicht gefunden",
            view_on_github: "Auf GitHub ansehen",
        },
        Lang::Fr => T {
            lang: Lang::Fr,
            code: "fr",
            lang_label: "Langue",
            footer_source: "code source",
            footer_made_by: "créé par",
            github_aria: "Voir le dépôt GitHub",
            fix_below: "Veuillez corriger ce qui suit :",
            required_hint: "Les champs marqués d'un * sont obligatoires.",
            submit: "Envoyer la réponse",
            next: "Suivant",
            back: "Retour",
            default_textarea_placeholder: "Saisissez votre réponse…",
            already_submitted: "Vous avez déjà soumis ce formulaire.",
            received_word: "Reçu",
            success_heading: "Réponse reçue",
            submit_another: "Envoyer une autre",
            view_submissions: "Voir les réponses",
            admin_word: "Admin",
            admin_heading: "Accès administrateur",
            admin_password_label: "Mot de passe administrateur",
            unlock: "Déverrouiller",
            back_to_form: "← Retour au formulaire",
            admin_not_configured_view: "L'administration n'est pas configurée. Définissez la variable d'environnement ADMIN_PASSWORD pour activer cette vue.",
            admin_not_configured: "L'administration n'est pas configurée. Définissez la variable d'environnement ADMIN_PASSWORD.",
            wrong_password: "Mot de passe incorrect. Veuillez réessayer.",
            submissions_word: "Réponses",
            refresh: "↻ Actualiser",
            log_out: "Se déconnecter",
            view_form: "Voir le formulaire",
            no_submissions: "Aucune réponse pour le moment",
            no_submissions_hint: "Les réponses apparaîtront ici dès que quelqu'un soumettra le formulaire.",
            submitted_col: "Soumise",
            not_found_word: "Non trouvé",
            not_found_heading: "Formulaire introuvable",
            view_on_github: "Voir sur GitHub",
        },
        Lang::Zh => T {
            lang: Lang::Zh,
            code: "zh",
            lang_label: "语言",
            footer_source: "源代码",
            footer_made_by: "由",
            github_aria: "查看 GitHub 仓库",
            fix_below: "请修正以下问题：",
            required_hint: "标有 * 的字段为必填项。",
            submit: "提交回答",
            next: "下一页",
            back: "返回",
            default_textarea_placeholder: "请输入您的回答…",
            already_submitted: "您已提交过此表单。",
            received_word: "已接收",
            success_heading: "已收到回答",
            submit_another: "再次提交",
            view_submissions: "查看回答",
            admin_word: "管理员",
            admin_heading: "管理员访问",
            admin_password_label: "管理员密码",
            unlock: "解锁",
            back_to_form: "← 返回表单",
            admin_not_configured_view: "未配置管理员。请设置 ADMIN_PASSWORD 环境变量以启用此视图。",
            admin_not_configured: "未配置管理员。请设置 ADMIN_PASSWORD 环境变量。",
            wrong_password: "密码错误。请重试。",
            submissions_word: "回答",
            refresh: "↻ 刷新",
            log_out: "退出",
            view_form: "查看表单",
            no_submissions: "暂无回答",
            no_submissions_hint: "当有人提交表单后，回答将显示在此处。",
            submitted_col: "提交时间",
            not_found_word: "未找到",
            not_found_heading: "未找到表单",
            view_on_github: "在 GitHub 查看",
        },
        Lang::Es => T {
            lang: Lang::Es,
            code: "es",
            lang_label: "Idioma",
            footer_source: "código fuente",
            footer_made_by: "hecho por",
            github_aria: "Ver el repositorio en GitHub",
            fix_below: "Por favor, corrige lo siguiente:",
            required_hint: "Los campos marcados con * son obligatorios.",
            submit: "Enviar respuesta",
            next: "Siguiente",
            back: "Atrás",
            default_textarea_placeholder: "Escribe tu respuesta…",
            already_submitted: "Ya has enviado este formulario.",
            received_word: "Recibido",
            success_heading: "Respuesta recibida",
            submit_another: "Enviar otra",
            view_submissions: "Ver respuestas",
            admin_word: "Admin",
            admin_heading: "Acceso de administrador",
            admin_password_label: "Contraseña de administrador",
            unlock: "Desbloquear",
            back_to_form: "← Volver al formulario",
            admin_not_configured_view: "El admin no está configurado. Define la variable de entorno ADMIN_PASSWORD para habilitar esta vista.",
            admin_not_configured: "El admin no está configurado. Define la variable de entorno ADMIN_PASSWORD.",
            wrong_password: "Contraseña incorrecta. Inténtalo de nuevo.",
            submissions_word: "Respuestas",
            refresh: "↻ Actualizar",
            log_out: "Cerrar sesión",
            view_form: "Ver formulario",
            no_submissions: "Aún no hay respuestas",
            no_submissions_hint: "Las respuestas aparecerán aquí en cuanto alguien envíe el formulario.",
            submitted_col: "Enviada",
            not_found_word: "No encontrado",
            not_found_heading: "Formulario no encontrado",
            view_on_github: "Ver en GitHub",
        },
    }
}

/// The text of `T::thanks` for `title`.
pub open spec fn thanks_text(lang: Lang, title: Seq<char>) -> Seq<char> {
    match lang {
        Lang::En => "Thanks — your response to "@ + title + " has been recorded."@,
        Lang::Pt => "Obrigado — sua resposta para "@ + title + " foi registrada."@,
        Lang::De => "Danke — deine Antwort zu "@ + title + " wurde erfasst."@,
        Lang::Fr => "Merci — votre réponse à "@ + title + " a été enregistrée."@,
        Lang::Zh => "谢谢 — 您对 "@ + title + " 的回答已记录。"@,
        Lang::Es => "Gracias — tu respuesta a "@ + title + " ha sido registrada."@,
    }
}

/// The text of `T::admin_prompt` for `title`.
pub open spec fn admin_prompt_text(lang: Lang, title: Seq<char>) -> Seq<char> {
    match lang {
        Lang::En => "Enter the admin password to view submissions for “"@ + title + "”."@,
        Lang::Pt => "Digite a senha do administrador para ver as respostas de “"@ + title + "”."@,
        Lang::De => "Gib das Admin-Passwort ein, um die Antworten für “"@ + title + "” zu sehen."@,
        Lang::Fr => "Saisissez le mot de passe administrateur pour voir les réponses de « "@ + title + " »."@,
        Lang::Zh => "请输入管理员密码以查看“"@ + title + "”的回答。"@,
        Lang::Es => "Introduce la contraseña de administrador para ver las respuestas de “"@ + title + "”."@,
    }
}

/// The text of `T::not_found_body` for `uuid`.
pub open spec fn not_found_body_text(lang: Lang, uuid: Seq<char>) -> Seq<char> {
    match lang {
        Lang::En => "There is no form at /"@ + uuid + "."@,
        Lang::Pt => "Não há nenhum formulário em /"@ + uuid + "."@,
        Lang::De => "Unter /"@ + uuid + " existiert kein Formular."@,
        Lang::Fr => "Aucun formulaire à /"@ + uuid + "."@,
        Lang::Zh => "/"@ + uuid + " 不存在表单。"@,
        Lang::Es => "No hay ningún formulario en /"@ + uuid + "."@,
    }
}

/// The text of `T::required_error` for `label`.
pub open spec fn required_error_text(lang: Lang, label: Seq<char>) -> Seq<char> {
    match lang {
        Lang::En => "“"@ + label + "” is required."@,
        Lang::Pt => "“"@ + label + "” é obrigatório."@,
        Lang::De => "„"@ + label + "“ ist ein Pflichtfeld."@,
        Lang::Fr => "« "@ + label + " » est obligatoire."@,
        Lang::Zh => "“"@ + label + "” 为必填项。"@,
        Lang::Es => "“"@ + label + "” es obligatorio."@,
    }
}

/// The plural ending of the response count in a language.
pub open spec fn responses_suffix(lang: Lang, n: nat) -> Seq<char> {
    match lang {
        Lang::En => if n == 1 { ""@ } else { "s"@ },
        Lang::Pt => if n == 1 { ""@ } else { "s"@ },
        Lang::De => if n == 1 { ""@ } else { "en"@ },
        Lang::Fr => if n == 1 { ""@ } else { "s"@ },
        Lang::Zh => ""@,
        Lang::Es => if n == 1 { ""@ } else { "s"@ },
    }
}

/// The word after the response count in a language.
pub open spec fn responses_word(lang: Lang) -> Seq<char> {
    match lang {
        Lang::En => " response"@,
        Lang::Pt => " resposta"@,
        Lang::De => " Antwort"@,
        Lang::Fr => " réponse"@,
        Lang::Zh => " 条回答"@,
        Lang::Es => " respuesta"@,
    }
}

/// `"{title} · {n} response(s)"`, the subtitle of the submissions page.
pub open spec fn submissions_subtitle_text(lang: Lang, title: Seq<char>, n: nat) -> Seq<char> {
    title + " · "@ + decimal(n) + responses_word(lang) + responses_suffix(lang, n)
}

impl T {
    /// Build the table of UI strings for `lang`.
    pub fn for_lang(lang: Lang) -> (r: T)
        ensures
            r == strings_of(lang),
            r.lang == lang,
            r.code@ == lang_code(lang),
    {
        match lang {
            Lang::En => T {
                lang: Lang::En,
                code: "en-US",
                lang_label: "Language",
                footer_source: "source code",
                footer_made_by: "made by",
                github_aria: "View the GitHub repository",
                fix_below: "Please fix the following:",
                required_hint: "Fields marked * are required.",
                submit: "Submit response",
                next: "Next",
                back: "Back",
                default_textarea_placeholder: "Type your answer…",
                already_submitted: "You have already submitted this form.",
                received_word: "Received",
                success_heading: "Response received",
                submit_another: "Submit another",
                view_submissions: "View submissions",
                admin_word: "Admin",
                admin_heading: "Administrator access",
                admin_password_label: "Admin password",
                unlock: "Unlock",
                back_to_form: "← Back to form",
                admin_not_configured_view: "Admin is not configured. Set the ADMIN_PASSWORD environment variable to enable this view.",
                admin_not_configured: "Admin is not configured. Set the ADMIN_PASSWORD environment variable.",
                wrong_password: "Incorrect password. Please try again.",
                submissions_word: "Submissions",
                refresh: "↻ Refresh",
                log_out: "Log out",
                view_form: "View form",
                no_submissions: "No submissions yet",
                no_submissions_hint: "Responses will appear here as soon as someone submits the form.",
                submitted_col: "Submitted",
                not_found_word: "Not found",
                not_found_heading: "Form not found",
                view_on_github: "View on GitHub",
            },
            Lang::Pt => T {
                lang: Lang::Pt,
                code: "pt-BR",
                lang_label: "Idioma",
                footer_source: "código-fonte",
                footer_made_by: "feito por",
                github_aria: "Ver o repositório no GitHub",
                fix_below: "Corrija os itens abaixo:",
                required_hint: "Campos marcados com * são obrigatórios.",
                submit: "Enviar resposta",
                next: "Próximo",
                back: "Voltar",
                default_textarea_placeholder: "Digite sua resposta…",
                already_submitted: "Você já enviou este formulário.",
                received_word: "Recebido",
                success_heading: "Resposta recebida",
                submit_another: "Enviar outra",
                view_submissions: "Ver respostas",
                admin_word: "Admin",
                admin_heading: "Acesso de administrador",
                admin_password_label: "Senha do administrador",
                unlock: "Desbloquear",
                back_to_form: "← Voltar ao formulário",
                admin_not_configured_view: "O admin não está configurado. Defina a variável de ambiente ADMIN_PASSWORD para habilitar esta visão.",
                admin_not_configured: "O admin não está configurado. Defina a variável de ambiente ADMIN_PASSWORD.",
                wrong_password: "Senha incorreta. Tente novamente.",
                submissions_word: "Respostas",
                refresh: "↻ Atualizar",
                log_out: "Sair",
                view_form: "Ver formulário",
                no_submissions: "Nenhuma resposta ainda",
                no_submissions_hint: "As respostas aparecerão aqui assim que alguém enviar o formulário.",
                submitted_col: "Enviada",
                not_found_word: "Não encontrado",
                not_found_heading: "Formulário não encontrado",
                view_on_github: "Ver no GitHub",
            },
            Lang::De => T {
                lang: Lang::De,
                code: "de",
                lang_label: "Sprache",
                footer_source: "Quellcode",
                footer_made_by: "entwickelt von",
                github_aria: "GitHub-Repository ansehen",
                fix_below: "Bitte behebe das Folgende:",
                required_hint: "Felder mit * sind Pflichtfelder.",
                submit: "Antwort absenden",
                next: "Weiter",
                back: "Zurück",
                default_textarea_placeholder: "Gib deine Antwort ein…",
                already_submitted: "Du hast dieses Formular bereits abgeschickt.",
                received_word: "Empfangen",
                success_heading: "Antwort erhalten",
                submit_another: "Weitere Antwort senden",
                view_submissions: "Antworten ansehen",
                admin_word: "Admin",
                admin_heading: "Administrator-Zugriff",
                admin_password_label: "Admin-Passwort",
                unlock: "Entsperren",
                back_to_form: "← Zurück zum Formular",
                admin_not_configured_view: "Admin ist nicht konfiguriert. Setze die Umgebungsvariable ADMIN_PASSWORD, um diese Ansicht zu aktivieren.",
                admin_not_configured: "Admin ist nicht konfiguriert. Setze die Umgebungsvariable ADMIN_PASSWORD.",
                wrong_password: "Falsches Passwort. Bitte versuche es erneut.",
                submissions_word: "Antworten",
                refresh: "↻ Aktualisieren",
                log_out: "Abmelden",
                view_form: "Formular ansehen",
                no_submissions: "Noch keine Antworten",
                no_submissions_hint: "Antworten erscheinen hier, sobald jemand das Formular absendet.",
                submitted_col: "Gesendet",
                not_found_word: "Nicht gefunden",
                not_found_heading: "Formular nicht gefunden",
                view_on_github: "Auf GitHub ansehen",
            },
            Lang::Fr => T {
                lang: Lang::Fr,
                code: "fr",
                lang_label: "Langue",
                footer_source: "code source",
                footer_made_by: "créé par",
                github_aria: "Voir le dépôt GitHub",
                fix_below: "Veuillez corriger ce qui suit :",
                required_hint: "Les champs marqués d'un * sont obligatoires.",
                submit: "Envoyer la réponse",
                next: "Suivant",
                back: "Retour",
                default_textarea_placeholder: "Saisissez votre réponse…",
                already_submitted: "Vous avez déjà soumis ce formulaire.",
                received_word: "Reçu",
                success_heading: "Réponse reçue",
                submit_another: "Envoyer une autre",
                view_submissions: "Voir les réponses",
                admin_word: "Admin",
                admin_heading: "Accès administrateur",
                admin_password_label: "Mot de passe administrateur",
                unlock: "Déverrouiller",
                back_to_form: "← Retour au formulaire",
                admin_not_configured_view: "L'administration n'est pas configurée. Définissez la variable d'environnement ADMIN_PASSWORD pour activer cette vue.",
                admin_not_configured: "L'administration n'est pas configurée. Définissez la variable d'environnement ADMIN_PASSWORD.",
                wrong_password: "Mot de passe incorrect. Veuillez réessayer.",
                submissions_word: "Réponses",
                refresh: "↻ Actualiser",
                log_out: "Se déconnecter",
                view_form: "Voir le formulaire",
                no_submissions: "Aucune réponse pour le moment",
                no_submissions_hint: "Les réponses apparaîtront ici dès que quelqu'un soumettra le formulaire.",
                submitted_col: "Soumise",
                not_found_word: "Non trouvé",
                not_found_heading: "Formulaire introuvable",
                view_on_github: "Voir sur GitHub",
            },
            Lang::Zh => T {
                lang: Lang::Zh,
                code: "zh",
                lang_label: "语言",
                footer_source: "源代码",
                footer_made_by: "由",
                github_aria: "查看 GitHub 仓库",
                fix_below: "请修正以下问题：",
                required_hint: "标有 * 的字段为必填项。",
                submit: "提交回答",
                next: "下一页",
                back: "返回",
                default_textarea_placeholder: "请输入您的回答…",
                already_submitted: "您已提交过此表单。",
                received_word: "已接收",
                success_heading: "已收到回答",
                submit_another: "再次提交",
                view_submissions: "查看回答",
                admin_word: "管理员",
                admin_heading: "管理员访问",
                admin_password_label: "管理员密码",
                unlock: "解锁",
                back_to_form: "← 返回表单",
                admin_not_configured_view: "未配置管理员。请设置 ADMIN_PASSWORD 环境变量以启用此视图。",
                admin_not_configured: "未配置管理员。请设置 ADMIN_PASSWORD 环境变量。",
                wrong_password: "密码错误。请重试。",
                submissions_word: "回答",
                refresh: "↻ 刷新",
                log_out: "退出",
                view_form: "查看表单",
                no_submissions: "暂无回答",
                no_submissions_hint: "当有人提交表单后，回答将显示在此处。",
                submitted_col: "提交时间",
                not_found_word: "未找到",
                not_found_heading: "未找到表单",
                view_on_github: "在 GitHub 查看",
            },
            Lang::Es => T {
                lang: Lang::Es,
                code: "es",
                lang_label: "Idioma",
                footer_source: "código fuente",
                footer_made_by: "hecho por",
                github_aria: "Ver el repositorio en GitHub",
                fix_below: "Por favor, corrige lo siguiente:",
                required_hint: "Los campos marcados con * son obligatorios.",
                submit: "Enviar respuesta",
                next: "Siguiente",
                back: "Atrás",
                default_textarea_placeholder: "Escribe tu respuesta…",
                already_submitted: "Ya has enviado este formulario.",
                received_word: "Recibido",
                success_heading: "Respuesta recibida",
                submit_another: "Enviar otra",
                view_submissions: "Ver respuestas",
                admin_word: "Admin",
                admin_heading: "Acceso de administrador",
                admin_password_label: "Contraseña de administrador",
                unlock: "Desbloquear",
                back_to_form: "← Volver al formulario",
                admin_not_configured_view: "El admin no está configurado. Define la variable de entorno ADMIN_PASSWORD para habilitar esta vista.",
                admin_not_configured: "El admin no está configurado. Define la variable de entorno ADMIN_PASSWORD.",
                wrong_password: "Contraseña incorrecta. Inténtalo de nuevo.",
                submissions_word: "Respuestas",
                refresh: "↻ Actualizar",
                log_out: "Cerrar sesión",
                view_form: "Ver formulario",
                no_submissions: "Aún no hay respuestas",
                no_submissions_hint: "Las respuestas aparecerán aquí en cuanto alguien envíe el formulario.",
                submitted_col: "Enviada",
                not_found_word: "No encontrado",
                not_found_heading: "Formulario no encontrado",
                view_on_github: "Ver en GitHub",
            },
        }
    }

    /// The list of languages offered by the header switcher.
    pub fn languages(&self) -> (r: &'static [Lang])
        ensures
            r@ == all_langs(),
    {
        let r: &'static [Lang] = &Lang::ALL;
        assert(r@ =~= all_langs());
        r
    }

    /// "Thanks, your response to `{title}` has been recorded."
    pub fn thanks(&self, title: &str) -> (r: String)
        ensures
            r@ == thanks_text(self.lang, title@),
    {
        match self.lang {
            Lang::En => concat3("Thanks — your response to ", title, " has been recorded."),
            Lang::Pt => concat3("Obrigado — sua resposta para ", title, " foi registrada."),
            Lang::De => concat3("Danke — deine Antwort zu ", title, " wurde erfasst."),
            Lang::Fr => concat3("Merci — votre réponse à ", title, " a été enregistrée."),
            Lang::Zh => concat3("谢谢 — 您对 ", title, " 的回答已记录。"),
            Lang::Es => concat3("Gracias — tu respuesta a ", title, " ha sido registrada."),
        }
    }

    /// "Enter the admin password to view submissions for `{title}`."
    pub fn admin_prompt(&self, title: &str) -> (r: String)
        ensures
            r@ == admin_prompt_text(self.lang, title@),
    {
        match self.lang {
            Lang::En => concat3("Enter the admin password to view submissions for “", title, "”."),
            Lang::Pt => concat3("Digite a senha do administrador para ver as respostas de “", title, "”."),
            Lang::De => concat3("Gib das Admin-Passwort ein, um die Antworten für “", title, "” zu sehen."),
            Lang::Fr => concat3("Saisissez le mot de passe administrateur pour voir les réponses de « ", title, " »."),
            Lang::Zh => concat3("请输入管理员密码以查看“", title, "”的回答。"),
            Lang::Es => concat3("Introduce la contraseña de administrador para ver las respuestas de “", title, "”."),
        }
    }

    /// "There is no form at `/{uuid}`."
    pub fn not_found_body(&self, uuid: &str) -> (r: String)
        ensures
            r@ == not_found_body_text(self.lang, uuid@),
    {
        match self.lang {
            Lang::En => concat3("There is no form at /", uuid, "."),
            Lang::Pt => concat3("Não há nenhum formulário em /", uuid, "."),
            Lang::De => concat3("Unter /", uuid, " existiert kein Formular."),
            Lang::Fr => concat3("Aucun formulaire à /", uuid, "."),
            Lang::Zh => concat3("/", uuid, " 不存在表单。"),
            Lang::Es => concat3("No hay ningún formulario en /", uuid, "."),
        }
    }

    /// "`{label}` is required."
    pub fn required_error(&self, label: &str) -> (r: String)
        ensures
            r@ == required_error_text(self.lang, label@),
    {
        match self.lang {
            Lang::En => concat3("“", label, "” is required."),
            Lang::Pt => concat3("“", label, "” é obrigatório."),
            Lang::De => concat3("„", label, "“ ist ein Pflichtfeld."),
            Lang::Fr => concat3("« ", label, " » est obligatoire."),
            Lang::Zh => concat3("“", label, "” 为必填项。"),
            Lang::Es => concat3("“", label, "” es obligatorio."),
        }
    }

    /// "{title} · {n} response(s)", the subtitle line of the submissions page.
    pub fn submissions_subtitle(&self, title: &str, n: usize) -> (r: String)
        ensures
            r@ == submissions_subtitle_text(self.lang, title@, n as nat),
    {
        let count = crate::num::usize_to_string(n);
        let (word, suffix): (&str, &str) = match self.lang {
            Lang::En => (" response", if n == 1 { "" } else { "s" }),
            Lang::Pt => (" resposta", if n == 1 { "" } else { "s" }),
            Lang::De => (" Antwort", if n == 1 { "" } else { "en" }),
            Lang::Fr => (" réponse", if n == 1 { "" } else { "s" }),
            Lang::Zh => (" 条回答", ""),
            Lang::Es => (" respuesta", if n == 1 { "" } else { "s" }),
        };
        let head = concat3(title, " · ", count.as_str());
        concat3(head.as_str(), word, suffix)
    }
}

} // verus!
