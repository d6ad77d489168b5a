//! The decisions of the web front end: reading cookies and parameters,
//! building cookie headers, and what each request is answered with. The HTTP
//! plumbing, storage and page rendering around them run outside this library
//! and hand their results in.

use vstd::prelude::*;
use crate::auth::{spec_token, token_valid_at, passwords_match};
use crate::forms::{
    FormDefinition, FormView, StoredRecord, built, fields_view, first_value,
    missing_errors, shown,
};
use crate::i18n::{lang_code, Lang, T};
use crate::num::{decimal, parse_usize};
use crate::templates::{form_path, Row};
use crate::text::{split_once, starts_with, trim};
use crate::values::{lookup, FormValues, ValuesView};

verus! {

/// The cookie that holds the signed admin session.
pub open spec fn admin_cookie_name() -> Seq<char> {
    "forms_admin"@
}

/// The cookie that remembers a visitor's preferred UI language.
pub open spec fn lang_cookie_name() -> Seq<char> {
    "oxideforms_lang"@
}

/// The cookie that ties a visitor to their submissions (used to enforce
/// single-submission forms; anonymous visitors have no account to rely on).
pub open spec fn client_id_cookie_name() -> Seq<char> {
    "oxideforms_cid"@
}

/// How long a valid admin session lasts: 8 hours.
pub const SESSION_TTL: u32 = 28800;

/// How long the language preference is remembered: 1 year.
pub const LANG_TTL: u32 = 31536000;

/// How long the visitor identity is remembered: 10 years, so a "single
/// submission" stays single across browser restarts.
pub const CLIENT_ID_TTL: u32 = 315360000;

/// The value of cookie `name` in one `name=value` item, if it is that cookie.
pub open spec fn cookie_in_item(item: Seq<char>, name: Seq<char>) -> Option<Seq<char>> {
    match split_once(trim(item), '=') {
        Some((k, v)) => if k == name {
            Some(v)
        } else {
            None
        },
        None => None,
    }
}

/// The value of cookie `name` in one `Cookie` header (`;`-separated items),
/// from its first item that sets it.
pub open spec fn cookie_in_header(h: Seq<char>, name: Seq<char>) -> Option<Seq<char>>
    decreases h.len(),
{
    match split_once(h, ';') {
        Some((a, b)) => match cookie_in_item(a, name) {
            Some(v) => Some(v),
            None => if b.len() < h.len() {
                cookie_in_header(b, name)
            } else {
                None
            },
        },
        None => cookie_in_item(h, name),
    }
}

/// The value of cookie `name` in the request's `Cookie` headers, from the
/// first that sets it; headers that are not text (`None`) are skipped.
pub open spec fn cookie_in_headers(hs: Seq<Option<Seq<char>>>, name: Seq<char>) -> Option<
    Seq<char>,
>
    decreases hs.len(),
{
    if hs.len() == 0 {
        None
    } else {
        let rest = cookie_in_headers(hs.drop_first(), name);
        match hs[0] {
            Some(h) => match cookie_in_header(h, name) {
                Some(v) => Some(v),
                None => rest,
            },
            None => rest,
        }
    }
}

/// The views of a request's `Cookie` headers.
pub open spec fn headers_view(hs: Seq<Option<String>>) -> Seq<Option<Seq<char>>> {
    hs.map_values(|h: Option<String>| crate::forms::opt_view(h))
}

fn cookie_in_item_str(item: &str, name: &str) -> (r: Option<String>)
    ensures
        match r {
            Some(v) => cookie_in_item(item@, name@) == Some(v@),
            None => cookie_in_item(item@, name@).is_none(),
        },
{
    let part = crate::text::trim_str(item);
    match crate::text::split_once_str(part, '=') {
        Some((k, v)) => {
            if crate::text::str_eq(k, name) {
                Some(crate::text::to_owned_string(v))
            } else {
                None
            }
        },
        None => None,
    }
}

fn cookie_in_header_str(h: &str, name: &str) -> (r: Option<String>)
    ensures
        match r {
            Some(v) => cookie_in_header(h@, name@) == Some(v@),
            None => cookie_in_header(h@, name@).is_none(),
        },
{
    let mut rest: &str = h;
    loop
        invariant
            cookie_in_header(h@, name@) == cookie_in_header(rest@, name@),
        decreases rest@.len(),
    {
        match crate::text::split_once_str(rest, ';') {
            Some((a, b)) => {
                proof {
                    crate::text::lemma_split_once_shorter(rest@, ';');
                }
                match cookie_in_item_str(a, name) {
                    Some(v) => {
                        return Some(v);
                    },
                    None => {},
                }
                rest = b;
            },
            None => {
                return cookie_in_item_str(rest, name);
            },
        }
    }
}

/// Pull the value of a single named cookie out of the request's `Cookie`
/// headers (`None` marks a header that is not valid text).
pub fn cookie_value(cookie_headers: &[Option<String>], name: &str) -> (r: Option<String>)
    ensures
        match r {
            Some(v) => cookie_in_headers(headers_view(cookie_headers@), name@) == Some(v@),
            None => cookie_in_headers(headers_view(cookie_headers@), name@).is_none(),
        },
{
    let ghost hv = headers_view(cookie_headers@);
    let mut i: usize = 0;
    assert(hv.skip(0) =~= hv);
    while i < cookie_headers.len()
        invariant
            i <= cookie_headers@.len(),
            hv == headers_view(cookie_headers@),
            cookie_in_headers(hv, name@) == cookie_in_headers(hv.skip(i as int), name@),
        decreases cookie_headers@.len() - i,
    {
        let ghost s = hv.skip(i as int);
        assert(s.drop_first() =~= hv.skip(i + 1));
        assert(s[0] == crate::forms::opt_view(cookie_headers@[i as int]));
        match &cookie_headers[i] {
            Some(h) => {
                match cookie_in_header_str(h.as_str(), name) {
                    Some(v) => {
                        return Some(v);
                    },
                    None => {},
                }
            },
            None => {},
        }
        i = i + 1;
    }
    assert(hv.skip(cookie_headers@.len() as int) =~= Seq::<Option<Seq<char>>>::empty());
    None
}

/// The `?page=` parameter: the first `page` value, trimmed and parsed (0 when
/// absent or unreadable), clamped to the form's pages.
pub open spec fn page_param_spec(values: ValuesView, form: FormView) -> int {
    let n: int = match parse_usize(trim(first_value(values, "page"@))) {
        Some(n) => n as int,
        None => 0,
    };
    form.clamp_page(n)
}

/// The `?page=` parameter, parsed and clamped to the form's page range.
pub fn page_param(values: &FormValues, form: &FormDefinition) -> (r: usize)
    ensures
        r == page_param_spec(values@, form@),
{
    let raw = match values.get("page") {
        Some(v) => {
            if v.len() > 0 {
                v[0].clone()
            } else {
                String::new()
            }
        },
        None => String::new(),
    };
    assert(raw@ == first_value(values@, "page"@));
    let n: usize = match crate::num::parse_usize_str(crate::text::trim_str(raw.as_str())) {
        Some(n) => n,
        None => 0,
    };
    let count = form.page_count();
    let last = if count > 0 {
        count - 1
    } else {
        0
    };
    if n < last {
        n
    } else {
        last
    }
}

/// The page a request selects always exists: for a form with pages, the
/// `?page=` parameter names one of them whatever its text.
pub proof fn lemma_page_param_in_range(values: ValuesView, form: FormView)
    requires
        form.pages.len() > 0,
    ensures
        0 <= page_param_spec(values, form) < form.pages.len(),
{
}

/// A relative, same-origin target: the trimmed `next` when it is `/` alone or
/// `/` followed by a character other than `/` and `\` (a browser reads both
/// `//` and `/\` as the start of another host), else `/`.
pub open spec fn sanitized_next(next: Seq<char>) -> Seq<char> {
    let t = trim(next);
    if t.len() >= 1 && t[0] == '/' && (t.len() == 1 || (t[1] != '/' && t[1] != '\\')) {
        t
    } else {
        "/"@
    }
}

/// Only allow relative, same-origin `next` targets so the language switcher
/// can never turn into an open redirect.
pub fn sanitize_next(next: &str) -> (r: String)
    ensures
        r@ == sanitized_next(next@),
{
    let trimmed = crate::text::trim_str(next);
    let n = trimmed.unicode_len();
    let local = if n >= 1 && trimmed.get_char(0) == '/' {
        if n == 1 {
            true
        } else {
            let second = trimmed.get_char(1);
            second != '/' && second != '\\'
        }
    } else {
        false
    };
    if local {
        crate::text::to_owned_string(trimmed)
    } else {
        crate::text::to_owned_string("/")
    }
}

/// A redirect target chosen from `next` is always a path on this site: it
/// starts with `/`, and neither with `//` nor with `/\\` (which a browser would
/// read as another host).
pub proof fn lemma_sanitized_next_is_local(next: Seq<char>)
    ensures
        starts_with(sanitized_next(next), "/"@),
        !starts_with(sanitized_next(next), "//"@),
        !starts_with(sanitized_next(next), "/\\"@),
{
    reveal_strlit("/");
    reveal_strlit("//");
    reveal_strlit("/\\");
    let r = sanitized_next(next);
    if r == trim(next) {
        assert(r.take(1) =~= "/"@);
        if r.len() >= 2 {
            assert(r.take(2)[1] == r[1]);
            assert(r.take(2) != "//"@);
            assert(r.take(2) != "/\\"@);
        }
    } else {
        assert(r == seq!['/']);
        assert(r.take(1) =~= r);
    }
}

/// `Set-Cookie` value that grants (or, with a zero `max_age`, revokes) admin.
pub open spec fn admin_cookie_text(token: Seq<char>, max_age: nat) -> Seq<char> {
    admin_cookie_name() + seq!['='] + token + "; Path=/; HttpOnly; SameSite=Lax; Max-Age="@
        + decimal(max_age)
}

/// `Set-Cookie` value that binds a visitor identity to the browser.
pub open spec fn client_id_cookie_text(value: Seq<char>) -> Seq<char> {
    client_id_cookie_name() + seq!['='] + value + "; Path=/; HttpOnly; SameSite=Lax; Max-Age="@
        + decimal(CLIENT_ID_TTL as nat)
}

/// `Set-Cookie` value that remembers a UI language.
pub open spec fn lang_cookie_text(lang: Lang) -> Seq<char> {
    lang_cookie_name() + seq!['='] + lang_code(lang) + "; Path=/; SameSite=Lax; Max-Age="@
        + decimal(LANG_TTL as nat)
}

fn cookie_text(name: &str, value: &str, attrs: &str, max_age: u32) -> (r: String)
    ensures
        r@ == name@ + seq!['='] + value@ + attrs@ + decimal(max_age as nat),
{
    proof {
        reveal_strlit("=");
    }
    let head = crate::text::concat3(name, "=", value);
    let num = crate::num::usize_to_string(max_age as usize);
    crate::text::concat3(head.as_str(), attrs, num.as_str())
}

/// The `Set-Cookie` header value that grants (or revokes, with a zero TTL)
/// admin.
pub fn admin_cookie_header(token: &str, max_age: u32) -> (r: String)
    ensures
        r@ == admin_cookie_text(token@, max_age as nat),
{
    cookie_text("forms_admin", token, "; Path=/; HttpOnly; SameSite=Lax; Max-Age=", max_age)
}

/// The `Set-Cookie` header value that binds a visitor identity to the
/// browser.
pub fn client_id_header(value: &str) -> (r: String)
    ensures
        r@ == client_id_cookie_text(value@),
{
    cookie_text("oxideforms_cid", value, "; Path=/; HttpOnly; SameSite=Lax; Max-Age=", CLIENT_ID_TTL)
}

/// The `Set-Cookie` header value that remembers a UI language.
pub fn lang_cookie_header(lang: Lang) -> (r: String)
    ensures
        r@ == lang_cookie_text(lang),
{
    cookie_text("oxideforms_lang", lang.code(), "; Path=/; SameSite=Lax; Max-Age=", LANG_TTL)
}

/// A language switch sticks: the `name=value` item that the language cookie
/// starts with, sent back in a `Cookie` header, is read as the language that
/// was picked, whatever the `Accept-Language` header prefers.
pub proof fn lemma_lang_cookie_read_back(lang: Lang, accepted: Option<Lang>)
    ensures
        split_once(lang_cookie_text(lang), ';') matches Some((pair, _)) && {
            &&& cookie_in_headers(seq![Some(pair)], lang_cookie_name()) == Some(lang_code(lang))
            &&& crate::i18n::resolve_lang_spec(
                cookie_in_headers(seq![Some(pair)], lang_cookie_name()),
                accepted,
            ) == lang
        },
{
    reveal_strlit("oxideforms_lang");
    reveal_strlit("; Path=/; SameSite=Lax; Max-Age=");
    reveal_strlit("en-US");
    reveal_strlit("pt-BR");
    reveal_strlit("de");
    reveal_strlit("fr");
    reveal_strlit("zh");
    reveal_strlit("es");
    let name = lang_cookie_name();
    let code = lang_code(lang);
    let pair = name + seq!['='] + code;
    let attrs = "; Path=/; SameSite=Lax; Max-Age="@;
    let tail = attrs.skip(1) + decimal(LANG_TTL as nat);
    assert(code.len() >= 2 && !code.contains(';') && !code.contains('=')) by {
        match lang {
            Lang::En => {},
            Lang::Pt => {},
            Lang::De => {},
            Lang::Fr => {},
            Lang::Zh => {},
            Lang::Es => {},
        }
    }
    assert(!name.contains(';') && !name.contains('='));
    assert(!pair.contains(';')) by {
        assert forall|j: int| 0 <= j < pair.len() implies pair[j] != ';' by {
            if j < name.len() {
                assert(pair[j] == name[j]);
            } else if j > name.len() {
                assert(pair[j] == code[j - name.len() - 1]);
            }
        }
    }
    assert(lang_cookie_text(lang) =~= pair + seq![';'] + tail);
    crate::text::lemma_split_once_concat(pair, ';', tail);
    crate::text::lemma_split_once_absent(pair, ';');
    crate::text::lemma_trim_plain(pair);
    crate::text::lemma_split_once_concat(name, '=', code);
    assert(cookie_in_item(pair, name) == Some(code));
    assert(cookie_in_header(pair, name) == Some(code));
    assert(seq![Some(pair)].drop_first() =~= Seq::<Option<Seq<char>>>::empty());
    assert(cookie_in_headers(seq![Some(pair)], name) == Some(code));
    crate::i18n::lemma_parse_lang_code(lang);
}

/// A lower-case hexadecimal digit.
pub open spec fn is_lower_hex(c: char) -> bool {
    ||| 48 <= c as u32 <= 57
    ||| 97 <= c as u32 <= 102
}

/// The hyphenated text of a random (version 4, RFC 4122 variant) UUID:
/// 36 characters in groups of 8-4-4-4-12 lower-case hex digits joined by
/// `-`, with the version digit `4` at 14 and one of `8 9 a b` at 19.
pub open spec fn is_uuid_v4_text(s: Seq<char>) -> bool {
    &&& s.len() == 36
    &&& forall|i: int|
        0 <= i < 36 ==> if i == 8 || i == 13 || i == 18 || i == 23 {
            #[trigger] s[i] == '-'
        } else {
            is_lower_hex(s[i])
        }
    &&& s[14] == '4'
    &&& (s[19] == '8' || s[19] == '9' || s[19] == 'a' || s[19] == 'b')
}

/// `uuid::Uuid::new_v4()` as text: a random identifier. Its value is left
/// open, since it is random; its shape is fixed: `new_v4` sets the version
/// nibble to 4 and the variant bits to `10`, and `Display` writes the
/// hyphenated lower-case form.
#[verifier::external_body]
fn fresh_uuid() -> (r: String)
    ensures
        is_uuid_v4_text(r@),
{
    uuid::Uuid::new_v4().to_string()
}

/// A visitor's identity and whether it was minted for this request.
pub struct ClientId {
    pub id: String,
    pub fresh: bool,
}

/// The visitor's persistent client id: the remembered cookie when present
/// and not blank, or a freshly minted random one otherwise.
pub fn client_id(cookie_headers: &[Option<String>]) -> (r: ClientId)
    ensures
        match cookie_in_headers(headers_view(cookie_headers@), client_id_cookie_name()) {
            Some(v) if !crate::text::is_blank(v) => r.id@ == v && !r.fresh,
            _ => r.fresh && is_uuid_v4_text(r.id@),
        },
{
    match cookie_value(cookie_headers, "oxideforms_cid") {
        Some(v) => {
            if crate::text::str_is_blank(v.as_str()) {
                ClientId { id: fresh_uuid(), fresh: true }
            } else {
                ClientId { id: v, fresh: false }
            }
        },
        None => ClientId { id: fresh_uuid(), fresh: true },
    }
}

/// The `Set-Cookie` value for a visitor id minted now, `None` for a known one.
pub open spec fn client_cookie_if_fresh(id: Seq<char>, fresh: bool) -> Option<Seq<char>> {
    if fresh {
        Some(client_id_cookie_text(id))
    } else {
        None
    }
}

fn client_cookie(client: &ClientId) -> (r: Option<String>)
    ensures
        crate::forms::opt_view(r) == client_cookie_if_fresh(client.id@, client.fresh),
{
    if client.fresh {
        Some(client_id_header(client.id.as_str()))
    } else {
        None
    }
}

/// Whether a form request asks for the admin view (`?admin=true`).
pub open spec fn wants_admin_spec(values: ValuesView) -> bool {
    match lookup(values, "admin"@) {
        Some(vs) => vs.len() > 0 && vs[0] == "true"@,
        None => false,
    }
}

/// Whether a form request asks for the admin view (`?admin=true`).
pub fn wants_admin(values: &FormValues) -> (r: bool)
    ensures
        r == wants_admin_spec(values@),
{
    match values.get("admin") {
        Some(v) => v.len() > 0 && crate::text::str_eq(v[0].as_str(), "true"),
        None => false,
    }
}

/// The language switcher's answer: a 303 redirect to the sanitized `next`,
/// remembering the language when `lang` names a supported one.
pub struct LangSwitch {
    pub location: String,
    pub set_cookie: Option<String>,
}

/// Choose the UI language: remember the pick in a cookie, then bounce back
/// to the page the visitor came from.
pub fn set_lang(lang: &str, next: &str) -> (r: LangSwitch)
    ensures
        r.location@ == sanitized_next(next@),
        crate::forms::opt_view(r.set_cookie) == match crate::i18n::parse_lang(lang@) {
            Some(l) => Some(lang_cookie_text(l)),
            None => None,
        },
{
    let location = sanitize_next(next);
    let set_cookie = match Lang::parse(lang) {
        Some(l) => Some(lang_cookie_header(l)),
        None => None,
    };
    LangSwitch { location, set_cookie }
}

/// The link back to a form page: `/<uuid>?page=<i>` for a later page of a
/// multi-page form, `/<uuid>` otherwise.
pub open spec fn form_page_link(uuid: Seq<char>, page_count: nat, page_index: nat) -> Seq<char> {
    if page_count > 1 && page_index > 0 {
        form_path(uuid) + "?page="@ + decimal(page_index)
    } else {
        form_path(uuid)
    }
}

/// `/<uuid>/submitted`, the thank-you page of a form.
pub open spec fn submitted_path(uuid: Seq<char>) -> Seq<char> {
    form_path(uuid) + "/submitted"@
}

/// `/<uuid>?admin=true`, the admin view of a form.
pub open spec fn admin_path(uuid: Seq<char>) -> Seq<char> {
    form_path(uuid) + "?admin=true"@
}

fn path_of(uuid: &str) -> (r: String)
    ensures
        r@ == form_path(uuid@),
{
    proof {
        reveal_strlit("/");
    }
    crate::text::concat2("/", uuid)
}

fn path_with(uuid: &str, tail: &str) -> (r: String)
    ensures
        r@ == form_path(uuid@) + tail@,
{
    proof {
        reveal_strlit("/");
    }
    crate::text::concat3("/", uuid, tail)
}

fn page_link(uuid: &str, page_index: usize) -> (r: String)
    ensures
        r@ == form_path(uuid@) + "?page="@ + decimal(page_index as nat),
{
    let num = crate::num::usize_to_string(page_index);
    let head = path_with(uuid, "?page=");
    crate::text::concat2(head.as_str(), num.as_str())
}

/// `/<uuid>/submitted`.
pub fn submitted_location(uuid: &str) -> (r: String)
    ensures
        r@ == submitted_path(uuid@),
{
    path_with(uuid, "/submitted")
}

/// `/<uuid>?admin=true`.
pub fn admin_location(uuid: &str) -> (r: String)
    ensures
        r@ == admin_path(uuid@),
{
    path_with(uuid, "?admin=true")
}

/// `/<uuid>`.
pub fn form_location(uuid: &str) -> (r: String)
    ensures
        r@ == form_path(uuid@),
{
    path_of(uuid)
}

/// What a GET of a form page is answered with.
pub enum FormPageReply {
    /// A single-submission form already answered by this visitor: redirect
    /// (303) to the thank-you page.
    AlreadyAnswered { location: String, set_cookie: Option<String> },
    /// Show page `page_index` of the form.
    Show { page_index: usize, next: String, set_cookie: Option<String> },
}

/// What a GET of a form page is answered with, given the visitor and (for a
/// single-submission form) whether the store holds an answer of theirs.
pub fn form_page_reply(
    form: &FormDefinition,
    values: &FormValues,
    client: &ClientId,
    already_answered: bool,
) -> (r: FormPageReply)
    ensures
        ({
            let cookie = client_cookie_if_fresh(client.id@, client.fresh);
            match r {
                FormPageReply::AlreadyAnswered { location, set_cookie } => {
                    &&& form@.single_submission && already_answered
                    &&& location@ == submitted_path(form@.uuid)
                    &&& crate::forms::opt_view(set_cookie) == cookie
                },
                FormPageReply::Show { page_index, next, set_cookie } => {
                    let i = page_param_spec(values@, form@);
                    &&& !(form@.single_submission && already_answered)
                    &&& page_index == i
                    &&& next@ == form_page_link(form@.uuid, form@.pages.len(), i as nat)
                    &&& crate::forms::opt_view(set_cookie) == if form@.single_submission {
                        cookie
                    } else {
                        None
                    }
                },
            }
        }),
{
    let page_index = page_param(values, form);
    if form.single_submission && already_answered {
        return FormPageReply::AlreadyAnswered {
            location: submitted_location(form.uuid.as_str()),
            set_cookie: client_cookie(client),
        };
    }
    let next = if form.page_count() > 1 && page_index > 0 {
        page_link(form.uuid.as_str(), page_index)
    } else {
        path_of(form.uuid.as_str())
    };
    let set_cookie = if form.single_submission {
        client_cookie(client)
    } else {
        None
    };
    FormPageReply::Show { page_index, next, set_cookie }
}

/// What the final submit of a form asks for next.
pub enum SubmitStep {
    /// Show the posted page again with these errors (status 422).
    Reject { page_index: usize, errors: Vec<String>, next: String },
    /// Ask the store whether this visitor has already answered the form.
    CheckVisitor,
    /// Store this answer under the visitor's id.
    Store { data: StoredRecord },
    /// Show an internal error.
    Fail { message: String },
    /// Redirect (303) to the thank-you page.
    Done { location: String, set_cookie: Option<String> },
}

/// What happened since the submit began.
pub enum SubmitEvent {
    /// The answers were just posted.
    Posted,
    /// The store said whether the visitor has answered before.
    VisitorChecked(Result<bool, String>),
    /// The store saved the answer (under a new row id) or failed.
    Stored(Result<i64, String>),
}

/// The final step of any form (single-page, or the last page of a
/// multi-page one), one event at a time: validate everything; for a
/// single-submission form check the visitor; store; redirect to the
/// thank-you page. On a validation failure, or a repeat answer, the posted
/// page is shown again with the errors.
pub fn submit_step(
    form: &FormDefinition,
    values: &FormValues,
    t: &T,
    client: &ClientId,
    event: SubmitEvent,
) -> (r: SubmitStep)
    ensures
        ({
            let errors = missing_errors(form@.fields(), values@, t.lang);
            let i = page_param_spec(values@, form@);
            match event {
                SubmitEvent::Posted => if errors.len() > 0 {
                    r matches SubmitStep::Reject { page_index, errors: es, next } && page_index == i
                        && es.deep_view() == errors && next@ == form_path(form@.uuid)
                } else if form@.single_submission {
                    r is CheckVisitor
                } else {
                    r matches SubmitStep::Store { data } && forall|k: Seq<char>|
                        lookup(data@, k) == built(form@.fields(), values@, k)
                },
                SubmitEvent::VisitorChecked(Ok(true)) => r matches SubmitStep::Reject {
                    page_index,
                    errors: es,
                    next,
                } && page_index == i && es.deep_view() == seq![t.already_submitted@] && next@
                    == form_path(form@.uuid),
                SubmitEvent::VisitorChecked(Ok(false)) => r matches SubmitStep::Store { data }
                    && forall|k: Seq<char>| lookup(data@, k) == built(form@.fields(), values@, k),
                SubmitEvent::VisitorChecked(Err(m)) => r matches SubmitStep::Fail { message }
                    && message@ == m@,
                SubmitEvent::Stored(Ok(_)) => r matches SubmitStep::Done { location, set_cookie }
                    && location@ == submitted_path(form@.uuid) && crate::forms::opt_view(set_cookie)
                    == client_cookie_if_fresh(client.id@, client.fresh),
                SubmitEvent::Stored(Err(m)) => r matches SubmitStep::Fail { message } && message@
                    == m@,
            }
        }),
{
    match event {
        SubmitEvent::Posted => {
            let errors = crate::forms::validate_submission(form, values, t);
            if errors.len() > 0 {
                let page_index = page_param(values, form);
                SubmitStep::Reject { page_index, errors, next: path_of(form.uuid.as_str()) }
            } else if form.single_submission {
                SubmitStep::CheckVisitor
            } else {
                SubmitStep::Store { data: crate::forms::build_data(form, values) }
            }
        },
        SubmitEvent::VisitorChecked(Ok(true)) => {
            let page_index = page_param(values, form);
            let mut errors: Vec<String> = Vec::new();
            errors.push(crate::text::to_owned_string(t.already_submitted));
            assert(errors.deep_view() =~= seq![t.already_submitted@]);
            SubmitStep::Reject { page_index, errors, next: path_of(form.uuid.as_str()) }
        },
        SubmitEvent::VisitorChecked(Ok(false)) => SubmitStep::Store {
            data: crate::forms::build_data(form, values),
        },
        SubmitEvent::VisitorChecked(Err(m)) => SubmitStep::Fail { message: m },
        SubmitEvent::Stored(Ok(_)) => SubmitStep::Done {
            location: submitted_location(form.uuid.as_str()),
            set_cookie: client_cookie(client),
        },
        SubmitEvent::Stored(Err(m)) => SubmitStep::Fail { message: m },
    }
}

/// Whether a page-navigation direction is `back` (`Some(true)`), `next`
/// (`Some(false)`), or neither (`None`).
pub fn nav_direction(dir: &str) -> (r: Option<bool>)
    ensures
        r == if dir@ == "back"@ {
            Some(true)
        } else if dir@ == "next"@ {
            Some(false)
        } else {
            None
        },
{
    if crate::text::str_eq(dir, "back") {
        Some(true)
    } else if crate::text::str_eq(dir, "next") {
        Some(false)
    } else {
        None
    }
}

/// What a page-navigation post is answered with.
pub enum PageNavReply {
    /// The last page was posted forward: run the final submit.
    Submit,
    /// Show page `page_index` again with these errors (status 422).
    Reject { page_index: usize, errors: Vec<String>, next: String },
    /// Show page `page_index`.
    Show { page_index: usize, next: String },
}

/// Multi-page navigation: page `n` (clamped to the form) was posted, going
/// forward (validate page `n`, show page `n + 1`) or back (validate page
/// `n`, show it again). Posting the last page forward is the final submit.
pub fn page_nav_reply(
    form: &FormDefinition,
    n: usize,
    is_back: bool,
    values: &FormValues,
    t: &T,
) -> (r: PageNavReply)
    requires
        form@.pages.len() > 0,
    ensures
        ({
            let k = form@.clamp_page(n as int);
            let last = form@.pages.len() - 1;
            let errors = missing_errors(form@.pages[k].fields, values@, t.lang);
            if k == last && !is_back {
                r is Submit
            } else if errors.len() > 0 {
                r matches PageNavReply::Reject { page_index, errors: es, next } && page_index == k
                    && es.deep_view() == errors && next@ == form_path(form@.uuid) + "?page="@
                    + decimal(k as nat)
            } else {
                let target = if is_back {
                    k
                } else {
                    k + 1
                };
                r matches PageNavReply::Show { page_index, next } && page_index == target && next@
                    == form_path(form@.uuid) + "?page="@ + decimal(target as nat)
            }
        }),
{
    let count = form.page_count();
    let last = count - 1;
    let k = if n < last {
        n
    } else {
        last
    };
    if k == last && !is_back {
        return PageNavReply::Submit;
    }
    let page = form.page(k);
    let errors = crate::forms::validate_fields(page.fields(), values, t);
    if errors.len() > 0 {
        return PageNavReply::Reject { page_index: k, errors, next: page_link(form.uuid.as_str(), k) };
    }
    let target = if is_back {
        k
    } else {
        k + 1
    };
    PageNavReply::Show { page_index: target, next: page_link(form.uuid.as_str(), target) }
}

/// What the admin view of a form is answered with.
pub enum AdminGate {
    /// No admin password is configured (status 503).
    NotConfigured,
    /// The session is valid: show the submissions.
    Submissions,
    /// Show the password prompt.
    Login,
}

/// Shared admin logic: the submissions when the session cookie holds a
/// token valid at `now`, otherwise the password prompt (or an "admin not
/// configured" notice).
pub fn admin_gate(configured: bool, key: &[u8], token: Option<&str>, now: i64) -> (r: AdminGate)
    ensures
        r == if !configured {
            AdminGate::NotConfigured
        } else {
            match token {
                Some(tk) => if token_valid_at(key@, tk@, now) {
                    AdminGate::Submissions
                } else {
                    AdminGate::Login
                },
                None => AdminGate::Login,
            }
        },
{
    if !configured {
        return AdminGate::NotConfigured;
    }
    match token {
        Some(tk) => {
            if crate::auth::verify_token_at(key, tk, now) {
                AdminGate::Submissions
            } else {
                AdminGate::Login
            }
        },
        None => AdminGate::Login,
    }
}

/// What the admin password form is answered with.
pub enum AdminAuth {
    /// No admin password is configured (status 503).
    NotConfigured,
    /// The password is right: redirect (303) to the admin view with a session
    /// cookie.
    Granted { location: String, set_cookie: String },
    /// The password is wrong: show the prompt again.
    Denied,
}

/// Handle the admin password form at time `now`. On success, the session
/// cookie holds a token valid for [`SESSION_TTL`] seconds.
pub fn admin_auth(uuid: &str, admin_password: Option<&str>, provided: &str, key: &[u8], now: i64) -> (r:
    AdminAuth)
    requires
        now <= i64::MAX - SESSION_TTL,
    ensures
        match admin_password {
            None => r is NotConfigured,
            Some(pw) => if passwords_match(pw@, provided@) {
                r matches AdminAuth::Granted { location, set_cookie } && location@ == admin_path(
                    uuid@,
                ) && set_cookie@ == admin_cookie_text(
                    spec_token(key@, (now + SESSION_TTL) as i64),
                    SESSION_TTL as nat,
                )
            } else {
                r is Denied
            },
        },
{
    match admin_password {
        None => AdminAuth::NotConfigured,
        Some(pw) => {
            if crate::auth::check_password(pw, provided) {
                let expiry = now + SESSION_TTL as i64;
                let token = crate::auth::make_token(key, expiry);
                AdminAuth::Granted {
                    location: admin_location(uuid),
                    set_cookie: admin_cookie_header(token.as_str(), SESSION_TTL),
                }
            } else {
                AdminAuth::Denied
            }
        },
    }
}

/// The cookie that ends an admin session: the admin cookie, emptied, with a
/// zero lifetime.
pub fn admin_logout_cookie() -> (r: String)
    ensures
        r@ == admin_cookie_text(seq![], 0),
{
    proof {
        reveal_strlit("");
    }
    admin_cookie_header("", 0)
}

/// A session granted by the password form is accepted by the admin view
/// until it expires, under the same key.
pub proof fn lemma_granted_session_opens_admin(key: Seq<u8>, granted_at: i64, later: i64)
    requires
        granted_at <= i64::MAX - SESSION_TTL,
    ensures
        token_valid_at(key, spec_token(key, (granted_at + SESSION_TTL) as i64), later) == (later
            < granted_at + SESSION_TTL),
{
    crate::auth::lemma_token_roundtrip(key, (granted_at + SESSION_TTL) as i64, later);
}

/// A stored submission with its answers read back from their JSON text (an
/// unreadable text reads as no answers).
pub struct StoredSubmission {
    pub data: StoredRecord,
    pub created_at: String,
}

/// The column heading of a field: its label, or its id when the label is
/// blank.
pub open spec fn column_of(f: crate::forms::FieldView) -> Seq<char> {
    f.display_label()
}

/// The column headings of a form's fields.
pub open spec fn columns_of(fields: Seq<crate::forms::FieldView>) -> Seq<Seq<char>> {
    fields.map_values(|f: crate::forms::FieldView| column_of(f))
}

/// The answers of a stored submission, one per field.
pub open spec fn row_of(fields: Seq<crate::forms::FieldView>, data: Seq<(Seq<char>, crate::forms::JsonView)>) -> Seq<Seq<char>> {
    fields.map_values(|f: crate::forms::FieldView| shown(lookup(data, f.id)))
}

/// Turn stored submissions into the (columns, rows) shape the table expects:
/// one column per field, and per submission one answer per field, in field
/// order.
pub fn build_submission_view(form: &FormDefinition, raws: &[StoredSubmission]) -> (r: (
    Vec<String>,
    Vec<Row>,
))
    ensures
        r.0.deep_view() == columns_of(form@.fields()),
        r.1@.len() == raws@.len(),
        forall|i: int|
            0 <= i < raws@.len() ==> {
                &&& (#[trigger] r.1@[i]).created_at@ == raws@[i].created_at@
                &&& r.1@[i].values.deep_view() == row_of(form@.fields(), raws@[i].data@)
            },
{
    let fields = form.fields();
    let ghost fv = fields_view(fields@);
    let mut columns: Vec<String> = Vec::new();
    let mut j: usize = 0;
    while j < fields.len()
        invariant
            j <= fields@.len(),
            fv == fields_view(fields@),
            columns.deep_view() == columns_of(fv.take(j as int)),
        decreases fields@.len() - j,
    {
        let f = &fields[j];
        let label = if crate::text::str_is_blank(f.label.as_str()) {
            f.id.clone()
        } else {
            f.label.clone()
        };
        let ghost before = columns.deep_view();
        assert(label@ == column_of(fv[j as int]));
        columns.push(label);
        j = j + 1;
        assert(columns.deep_view() =~= before.push(label@));
        assert(columns_of(fv.take(j as int)) =~= columns_of(fv.take(j - 1)).push(column_of(fv[j - 1])));
    }
    assert(fv.take(fields@.len() as int) =~= fv);
    let mut rows: Vec<Row> = Vec::new();
    let mut i: usize = 0;
    while i < raws.len()
        invariant
            i <= raws@.len(),
            fv == fields_view(fields@),
            fv == form@.fields(),
            rows@.len() == i,
            forall|k: int|
                0 <= k < i ==> {
                    &&& (#[trigger] rows@[k]).created_at@ == raws@[k].created_at@
                    &&& rows@[k].values.deep_view() == row_of(fv, raws@[k].data@)
                },
        decreases raws@.len() - i,
    {
        let raw = &raws[i];
        let mut values: Vec<String> = Vec::new();
        let mut j: usize = 0;
        while j < fields.len()
            invariant
                j <= fields@.len(),
                fv == fields_view(fields@),
                values.deep_view() == row_of(fv.take(j as int), raw.data@),
            decreases fields@.len() - j,
        {
            let v = crate::forms::format_value(&fields[j], &raw.data);
            let ghost before = values.deep_view();
            assert(fields@[j as int]@ == fv[j as int]);
            values.push(v);
            j = j + 1;
            assert(values.deep_view() =~= before.push(v@));
            assert(row_of(fv.take(j as int), raw.data@) =~= row_of(fv.take(j - 1), raw.data@).push(shown(lookup(raw.data@, fv[j - 1].id))));
        }
        assert(fv.take(fields@.len() as int) =~= fv);
        rows.push(Row { values, created_at: raw.created_at.clone() });
        i = i + 1;
    }
    (columns, rows)
}

} // verus!
