//! Form definitions, validation of submissions, and the stored answers.
//!
//! Each form is one `.json` file in the forms directory. The file's name (e.g.
//! `8f14e45f-....json`) is the form's UUID and therefore its route, unless the
//! file declares a non-blank `"uuid"`, which takes precedence.

use vstd::prelude::*;
use crate::i18n::{required_error_text, Lang, T};
use crate::text::{is_blank, join};
use crate::values::{lemma_lookup_absent, lemma_lookup_push, lemma_lookup_update, lookup, FormValues, ValuesView};

verus! {

/// One question on a form.
#[derive(Debug, Clone)]
pub struct Field {
    /// Stable identifier; used as the HTML `name` and as the key in stored data.
    pub id: String,
    /// Input kind: `text | email | number | url | date | textarea | select |
    /// radio | checkbox`. Unknown values are treated as plain text.
    pub kind: String,
    pub label: String,
    pub required: bool,
    /// Choices for `select` / `radio` / `checkbox` fields.
    pub options: Vec<String>,
    pub placeholder: Option<String>,
}

/// The mathematical model of a [`Field`].
pub struct FieldView {
    pub id: Seq<char>,
    pub kind: Seq<char>,
    pub label: Seq<char>,
    pub required: bool,
    pub options: Seq<Seq<char>>,
    pub placeholder: Option<Seq<char>>,
}

impl View for Field {
    type V = FieldView;

    open spec fn view(&self) -> FieldView {
        FieldView {
            id: self.id@,
            kind: self.kind@,
            label: self.label@,
            required: self.required,
            options: self.options.deep_view(),
            placeholder: opt_view(self.placeholder),
        }
    }
}

impl FieldView {
    /// Whether this field is a checkbox group.
    pub open spec fn multi(self) -> bool {
        self.kind == "checkbox"@
    }

    /// The label shown for this field: its label, or its id when the label is
    /// blank.
    pub open spec fn display_label(self) -> Seq<char> {
        if is_blank(self.label) {
            self.id
        } else {
            self.label
        }
    }
}

/// The views of a list of fields.
pub open spec fn fields_view(fields: Seq<Field>) -> Seq<FieldView> {
    fields.map_values(|f: Field| f@)
}

/// The view of an optional text.
pub open spec fn opt_view(o: Option<String>) -> Option<Seq<char>> {
    match o {
        Some(s) => Some(s@),
        None => None,
    }
}

/// The input kind a kind name stands for (unknown names fall back to plain
/// text).
pub open spec fn input_kind_of(kind: Seq<char>) -> Seq<char> {
    if kind == "email"@ {
        "email"@
    } else if kind == "number"@ {
        "number"@
    } else if kind == "url"@ {
        "url"@
    } else if kind == "date"@ {
        "date"@
    } else if kind == "textarea"@ {
        "textarea"@
    } else if kind == "select"@ {
        "select"@
    } else if kind == "radio"@ {
        "radio"@
    } else if kind == "checkbox"@ {
        "checkbox"@
    } else {
        "text"@
    }
}

/// The values posted for a field, none when it was not posted.
pub open spec fn posted(values: ValuesView, id: Seq<char>) -> Seq<Seq<char>> {
    match lookup(values, id) {
        Some(vs) => vs,
        None => seq![],
    }
}

/// The first value posted for a field, empty when none was.
pub open spec fn first_value(values: ValuesView, id: Seq<char>) -> Seq<char> {
    if posted(values, id).len() > 0 {
        posted(values, id)[0]
    } else {
        seq![]
    }
}

/// A required field counts as answered when some posted value is not blank.
pub open spec fn answered(values: ValuesView, id: Seq<char>) -> bool {
    exists|i: int| 0 <= i < posted(values, id).len() && !is_blank(#[trigger] posted(values, id)[i])
}

impl Field {
    /// A field. `options` are the choices of `select` / `radio` / `checkbox`
    /// fields.
    pub fn new(
        id: String,
        kind: String,
        label: String,
        required: bool,
        options: Vec<String>,
        placeholder: Option<String>,
    ) -> (r: Field)
        ensures
            r@ == (FieldView {
                id: id@,
                kind: kind@,
                label: label@,
                required,
                options: options.deep_view(),
                placeholder: opt_view(placeholder),
            }),
    {
        Field { id, kind, label, required, options, placeholder }
    }

    /// An identical copy of this field.
    pub fn duplicate(&self) -> (r: Field)
        ensures
            r@ == self@,
    {
        let options = self.options.clone();
        assert(options.deep_view() =~= self.options.deep_view());
        Field {
            id: self.id.clone(),
            kind: self.kind.clone(),
            label: self.label.clone(),
            required: self.required,
            options,
            placeholder: match &self.placeholder {
                Some(p) => Some(p.clone()),
                None => None,
            },
        }
    }

    /// Normalised input kind (unknown values fall back to plain text).
    pub fn input_kind(&self) -> (r: &'static str)
        ensures
            r@ == input_kind_of(self.kind@),
    {
        let k = self.kind.as_str();
        if crate::text::str_eq(k, "email") {
            "email"
        } else if crate::text::str_eq(k, "number") {
            "number"
        } else if crate::text::str_eq(k, "url") {
            "url"
        } else if crate::text::str_eq(k, "date") {
            "date"
        } else if crate::text::str_eq(k, "textarea") {
            "textarea"
        } else if crate::text::str_eq(k, "select") {
            "select"
        } else if crate::text::str_eq(k, "radio") {
            "radio"
        } else if crate::text::str_eq(k, "checkbox") {
            "checkbox"
        } else {
            "text"
        }
    }

    /// The field's choices.
    pub fn options(&self) -> (r: &[String])
        ensures
            r@ == self.options@,
    {
        self.options.as_slice()
    }

    /// Whether this field can carry more than one value (checkbox groups).
    pub fn is_multi(&self) -> (r: bool)
        ensures
            r == self@.multi(),
    {
        crate::text::str_eq(self.kind.as_str(), "checkbox")
    }

    /// The placeholder text ("" when the field has none).
    pub fn placeholder(&self) -> (r: &str)
        ensures
            r@ == match self.placeholder {
                Some(p) => p@,
                None => seq![],
            },
    {
        match &self.placeholder {
            Some(p) => p.as_str(),
            None => {
                proof {
                    reveal_strlit("");
                }
                ""
            },
        }
    }

    /// First submitted value for this field ("" when absent), used to
    /// re-populate the form after a validation error.
    pub fn prefill(&self, values: &FormValues) -> (r: String)
        ensures
            r@ == first_value(values@, self.id@),
    {
        match values.get(self.id.as_str()) {
            Some(v) => {
                if v.len() > 0 {
                    v[0].clone()
                } else {
                    String::new()
                }
            },
            None => String::new(),
        }
    }

    /// Every submitted value for this field (empty when absent), used to build
    /// the hidden inputs that carry earlier pages' answers through a
    /// multi-page form.
    pub fn all_values<'a>(&self, values: &'a FormValues) -> (r: &'a [String])
        ensures
            r@.map_values(|s: String| s@) == posted(values@, self.id@),
    {
        match values.get(self.id.as_str()) {
            Some(v) => {
                assert(v@.map_values(|s: String| s@) =~= v.deep_view());
                v.as_slice()
            },
            None => {
                let e: &'a [String] = &[];
                assert(e@.map_values(|s: String| s@) =~= Seq::<Seq<char>>::empty());
                e
            },
        }
    }

    /// Whether a specific option is selected/checked in the given submission.
    pub fn is_checked(&self, values: &FormValues, option: &str) -> (r: bool)
        ensures
            r == posted(values@, self.id@).contains(option@),
    {
        match values.get(self.id.as_str()) {
            Some(v) => {
                let mut i: usize = 0;
                while i < v.len()
                    invariant
                        i <= v@.len(),
                        v.deep_view() == posted(values@, self.id@),
                        forall|j: int| 0 <= j < i ==> v.deep_view()[j] != option@,
                    decreases v@.len() - i,
                {
                    if crate::text::str_eq(v[i].as_str(), option) {
                        assert(v.deep_view()[i as int] == option@);
                        return true;
                    }
                    i = i + 1;
                }
                false
            },
            None => false,
        }
    }
}

/// One page (section) of a multi-page form: shown one at a time with
/// back/next navigation.
#[derive(Debug, Clone)]
pub struct Page {
    pub title: Option<String>,
    pub description: Option<String>,
    pub fields: Vec<Field>,
}

/// The mathematical model of a [`Page`].
pub struct PageView {
    pub title: Option<Seq<char>>,
    pub description: Option<Seq<char>>,
    pub fields: Seq<FieldView>,
}

impl View for Page {
    type V = PageView;

    open spec fn view(&self) -> PageView {
        PageView {
            title: opt_view(self.title),
            description: opt_view(self.description),
            fields: fields_view(self.fields@),
        }
    }
}

/// The views of a list of pages.
pub open spec fn pages_view(pages: Seq<Page>) -> Seq<PageView> {
    pages.map_values(|p: Page| p@)
}

impl Page {
    /// A page with the given fields.
    pub fn new(title: Option<String>, description: Option<String>, fields: Vec<Field>) -> (r: Page)
        ensures
            r@ == (PageView {
                title: opt_view(title),
                description: opt_view(description),
                fields: fields_view(fields@),
            }),
    {
        Page { title, description, fields }
    }

    /// The page's fields, in order.
    pub fn fields(&self) -> (r: &[Field])
        ensures
            r@ == self.fields@,
    {
        self.fields.as_slice()
    }
}

/// Every field of every page, in page order.
pub open spec fn all_fields(pages: Seq<PageView>) -> Seq<FieldView>
    decreases pages.len(),
{
    if pages.len() == 0 {
        seq![]
    } else {
        all_fields(pages.drop_last()) + pages.last().fields
    }
}

/// A fully-resolved form ready to be rendered or stored against.
#[derive(Debug, Clone)]
pub struct FormDefinition {
    pub uuid: String,
    pub title: String,
    pub description: Option<String>,
    /// When `true`, a visitor may submit this form only once.
    pub single_submission: bool,
    pub pages: Vec<Page>,
}

/// The mathematical model of a [`FormDefinition`].
pub struct FormView {
    pub uuid: Seq<char>,
    pub title: Seq<char>,
    pub description: Option<Seq<char>>,
    pub single_submission: bool,
    pub pages: Seq<PageView>,
}

impl View for FormDefinition {
    type V = FormView;

    open spec fn view(&self) -> FormView {
        FormView {
            uuid: self.uuid@,
            title: self.title@,
            description: opt_view(self.description),
            single_submission: self.single_submission,
            pages: pages_view(self.pages@),
        }
    }
}

impl FormView {
    /// Every field of every page, in order.
    pub open spec fn fields(self) -> Seq<FieldView> {
        all_fields(self.pages)
    }

    /// The page index `i` clamped to the form's pages.
    pub open spec fn clamp_page(self, i: int) -> int {
        let last = if self.pages.len() > 0 {
            self.pages.len() - 1
        } else {
            0
        };
        if i < last {
            i
        } else {
            last
        }
    }
}

impl FormDefinition {
    /// A form with the given pages.
    pub fn new(
        uuid: String,
        title: String,
        description: Option<String>,
        single_submission: bool,
        pages: Vec<Page>,
    ) -> (r: FormDefinition)
        ensures
            r@ == (FormView {
                uuid: uuid@,
                title: title@,
                description: opt_view(description),
                single_submission,
                pages: pages_view(pages@),
            }),
    {
        FormDefinition { uuid, title, description, single_submission, pages }
    }

    /// All pages, in order. A form without explicit `pages` has a single page.
    pub fn pages(&self) -> (r: &[Page])
        ensures
            r@ == self.pages@,
    {
        self.pages.as_slice()
    }

    /// The number of pages.
    pub fn page_count(&self) -> (r: usize)
        ensures
            r == self@.pages.len(),
    {
        self.pages.len()
    }

    /// The page at `i`, clamped to the valid range.
    pub fn page(&self, i: usize) -> (r: &Page)
        requires
            self@.pages.len() > 0,
        ensures
            r@ == self@.pages[self@.clamp_page(i as int)],
    {
        let last = self.page_count() - 1;
        let k = if i < last {
            i
        } else {
            last
        };
        &self.pages[k]
    }

    /// Every field of every page, in order. Validation, persistence and the
    /// admin table are page-agnostic, so they all work off this view.
    pub fn fields(&self) -> (r: Vec<Field>)
        ensures
            fields_view(r@) == self@.fields(),
    {
        let ghost pv = pages_view(self.pages@);
        let mut out: Vec<Field> = Vec::new();
        let mut p: usize = 0;
        assert(fields_view(out@) =~= all_fields(pv.take(0)));
        while p < self.pages.len()
            invariant
                p <= self.pages@.len(),
                pv == pages_view(self.pages@),
                fields_view(out@) == all_fields(pv.take(p as int)),
            decreases self.pages@.len() - p,
        {
            let page = &self.pages[p];
            let ghost before = fields_view(out@);
            let mut j: usize = 0;
            assert(before =~= before + fields_view(page.fields@).take(0));
            while j < page.fields.len()
                invariant
                    j <= page.fields@.len(),
                    fields_view(out@) == before + fields_view(page.fields@).take(j as int),
                decreases page.fields@.len() - j,
            {
                let ghost prev = out@;
                out.push(page.fields[j].duplicate());
                j = j + 1;
                assert(fields_view(out@) =~= fields_view(prev).push(page.fields@[j - 1]@));
                assert(fields_view(out@) =~= before + fields_view(page.fields@).take(j as int));
            }
            p = p + 1;
            assert(pv.take(p as int).drop_last() =~= pv.take(p - 1));
            assert(pv.take(p as int).last() == page@);
            assert(fields_view(page.fields@).take(page.fields@.len() as int) =~= fields_view(
                page.fields@,
            ));
        }
        assert(pv.take(self.pages@.len() as int) =~= pv);
        out
    }

    /// Whether the form has at least one required field (drives the
    /// "required" hint).
    pub fn has_required(&self) -> (r: bool)
        ensures
            r == exists|i: int|
                0 <= i < self@.fields().len() && (#[trigger] self@.fields()[i]).required,
    {
        let fields = self.fields();
        let mut i: usize = 0;
        while i < fields.len()
            invariant
                i <= fields@.len(),
                fields_view(fields@) == self@.fields(),
                forall|j: int| 0 <= j < i ==> !self@.fields()[j].required,
            decreases fields@.len() - i,
        {
            assert(self@.fields()[i as int] == fields@[i as int]@);
            if fields[i].required {
                return true;
            }
            i = i + 1;
        }
        false
    }
}

/// The error messages for the required fields among `fields` that were not
/// answered, in field order.
pub open spec fn missing_errors(fields: Seq<FieldView>, values: ValuesView, lang: Lang) -> Seq<
    Seq<char>,
>
    decreases fields.len(),
{
    if fields.len() == 0 {
        seq![]
    } else {
        let prev = missing_errors(fields.drop_last(), values, lang);
        let f = fields.last();
        if f.required && !answered(values, f.id) {
            prev.push(required_error_text(lang, f.display_label()))
        } else {
            prev
        }
    }
}

/// Validate a set of fields against the submitted values: one message per
/// required field without a non-blank value, in the language of `t` (the
/// field label itself is form content and is left as written).
pub fn validate_fields(fields: &[Field], values: &FormValues, t: &T) -> (r: Vec<String>)
    ensures
        r.deep_view() == missing_errors(fields_view(fields@), values@, t.lang),
{
    let ghost fv = fields_view(fields@);
    let mut errors: Vec<String> = Vec::new();
    let mut i: usize = 0;
    while i < fields.len()
        invariant
            i <= fields@.len(),
            fv == fields_view(fields@),
            errors.deep_view() == missing_errors(fv.take(i as int), values@, t.lang),
        decreases fields@.len() - i,
    {
        let field = &fields[i];
        assert(fv.take(i + 1).drop_last() =~= fv.take(i as int));
        assert(fv.take(i + 1).last() == field@);
        if field.required {
            let present = match values.get(field.id.as_str()) {
                Some(v) => {
                    let mut found = false;
                    let mut j: usize = 0;
                    while j < v.len()
                        invariant
                            j <= v@.len(),
                            v.deep_view() == posted(values@, field.id@),
                            found == exists|k: int| 0 <= k < j && !is_blank(#[trigger] v.deep_view()[k]),
                        decreases v@.len() - j,
                    {
                        if !crate::text::str_is_blank(v[j].as_str()) {
                            assert(!is_blank(v.deep_view()[j as int]));
                            found = true;
                        }
                        j = j + 1;
                    }
                    found
                },
                None => false,
            };
            if !present {
                let label = if crate::text::str_is_blank(field.label.as_str()) {
                    field.id.as_str()
                } else {
                    field.label.as_str()
                };
                let msg = t.required_error(label);
                let ghost before = errors.deep_view();
                errors.push(msg);
                assert(errors.deep_view() =~= before.push(msg@));
            }
        }
        i = i + 1;
    }
    assert(fv.take(fields@.len() as int) =~= fv);
    errors
}

/// Validate a parsed submission against all of the form's required fields.
pub fn validate_submission(form: &FormDefinition, values: &FormValues, t: &T) -> (r: Vec<String>)
    ensures
        r.deep_view() == missing_errors(form@.fields(), values@, t.lang),
{
    let fields = form.fields();
    validate_fields(fields.as_slice(), values, t)
}

/// A submission passes validation exactly when every required field has a
/// non-blank value.
pub proof fn lemma_valid_iff_answered(fields: Seq<FieldView>, values: ValuesView, lang: Lang)
    ensures
        missing_errors(fields, values, lang).len() == 0 <==> forall|i: int|
            0 <= i < fields.len() && (#[trigger] fields[i]).required ==> answered(
                values,
                fields[i].id,
            ),
    decreases fields.len(),
{
    if fields.len() > 0 {
        let init = fields.drop_last();
        lemma_valid_iff_answered(init, values, lang);
        lemma_missing_errors_len(init, values, lang);
        assert forall|i: int| 0 <= i < init.len() implies init[i] == fields[i] by {}
    }
}

proof fn lemma_missing_errors_len(fields: Seq<FieldView>, values: ValuesView, lang: Lang)
    ensures
        missing_errors(fields, values, lang).len() <= fields.len(),
    decreases fields.len(),
{
    if fields.len() > 0 {
        lemma_missing_errors_len(fields.drop_last(), values, lang);
    }
}

/// One stored answer, as the JSON value it is persisted as: a string, an
/// array (of which only the string items are kept as text; other items are
/// `None`), or any other JSON value, kept as its JSON text.
#[derive(Debug, Clone)]
pub enum JsonValue {
    Str(String),
    Array(Vec<Option<String>>),
    Other(String),
}

/// The mathematical model of a [`JsonValue`].
pub enum JsonView {
    Str(Seq<char>),
    Array(Seq<Option<Seq<char>>>),
    Other(Seq<char>),
}

impl View for JsonValue {
    type V = JsonView;

    open spec fn view(&self) -> JsonView {
        match self {
            JsonValue::Str(s) => JsonView::Str(s@),
            JsonValue::Array(items) => JsonView::Array(items_view(items@)),
            JsonValue::Other(t) => JsonView::Other(t@),
        }
    }
}

/// The views of array items.
pub open spec fn items_view(items: Seq<Option<String>>) -> Seq<Option<Seq<char>>> {
    items.map_values(|o: Option<String>| opt_view(o))
}

/// Texts as array items.
pub open spec fn as_items(vs: Seq<Seq<char>>) -> Seq<Option<Seq<char>>> {
    vs.map_values(|v: Seq<char>| Some(v))
}

/// A stored submission: the JSON object of answers keyed by field id.
#[derive(Debug, Clone)]
pub struct StoredRecord {
    entries: Vec<(String, JsonValue)>,
}

impl View for StoredRecord {
    type V = Seq<(Seq<char>, JsonView)>;

    closed spec fn view(&self) -> Seq<(Seq<char>, JsonView)> {
        self.entries@.map_values(|e: (String, JsonValue)| (e.0@, e.1@))
    }
}

impl StoredRecord {
    /// Well-formed: each key is set once.
    pub open spec fn wf(&self) -> bool {
        crate::values::keys_unique(self@)
    }

    /// An empty object.
    pub fn new() -> (r: StoredRecord)
        ensures
            forall|k: Seq<char>| lookup(r@, k).is_none(),
            r.wf(),
    {
        let r = StoredRecord { entries: Vec::new() };
        assert(r@ =~= Seq::<(Seq<char>, JsonView)>::empty());
        r
    }

    /// Set the answer under `key`, replacing any earlier one.
    pub fn insert(&mut self, key: String, value: JsonValue)
        requires
            old(self).wf(),
        ensures
            final(self).wf(),
            forall|k: Seq<char>|
                lookup(final(self)@, k) == if k == key@ {
                    Some(value@)
                } else {
                    lookup(old(self)@, k)
                },
    {
        let ghost before = self@;
        let ghost kv = key@;
        let ghost vv = value@;
        let mut i: usize = 0;
        while i < self.entries.len()
            invariant
                i <= self.entries@.len(),
                before == self@,
                before == old(self)@,
                crate::values::keys_unique(before),
                kv == key@,
                vv == value@,
                self@.len() == self.entries@.len(),
                forall|j: int| 0 <= j < i ==> self@[j].0 != key@,
            decreases self.entries@.len() - i,
        {
            assert(self@[i as int] == (self.entries@[i as int].0@, self.entries@[i as int].1@));
            if crate::text::str_eq(self.entries[i].0.as_str(), key.as_str()) {
                let ghost old_entries = self.entries@;
                let pair = (key, value);
                let ghost gp = pair;
                self.entries.set(i, pair);
                proof {
                    assert(self.entries@ == old_entries.update(i as int, gp));
                    assert(gp.0@ == kv && gp.1@ == vv);
                    assert(self@ =~= before.update(i as int, (kv, vv)));
                    assert(crate::values::keys_unique(self@));
                    assert forall|k: Seq<char>|
                        lookup(self@, k) == if k == kv {
                            Some(vv)
                        } else {
                            lookup(before, k)
                        } by {
                        lemma_lookup_update(before, i as int, kv, vv, k);
                    }
                }
                return;
            }
            i = i + 1;
        }
        proof {
            lemma_lookup_absent(before, kv);
        }
        self.entries.push((key, value));
        proof {
            assert(self@ =~= before.push((kv, vv)));
            assert(crate::values::keys_unique(self@));
            assert forall|k: Seq<char>|
                lookup(self@, k) == if k == kv {
                    Some(vv)
                } else {
                    lookup(before, k)
                } by {
                lemma_lookup_push(before, kv, vv, k);
            }
        }
    }

    /// The answer stored under `key`, if any.
    pub fn get(&self, key: &str) -> (r: Option<&JsonValue>)
        ensures
            match r {
                Some(v) => lookup(self@, key@) == Some(v@),
                None => lookup(self@, key@).is_none(),
            },
    {
        let mut i: usize = 0;
        while i < self.entries.len()
            invariant
                i <= self.entries@.len(),
                self@.len() == self.entries@.len(),
                forall|j: int| 0 <= j < i ==> self@[j].0 != key@,
            decreases self.entries@.len() - i,
        {
            if crate::text::str_eq(self.entries[i].0.as_str(), key) {
                proof {
                    assert(self@[i as int] == (self.entries@[i as int].0@, self.entries@[i as int].1@));
                    lemma_lookup_update(self@, i as int, key@, self@[i as int].1, key@);
                }
                return Some(&self.entries[i].1);
            }
            i = i + 1;
        }
        proof {
            lemma_lookup_absent(self@, key@);
        }
        None
    }

    /// The stored answers, in the order they were first set.
    pub fn entries(&self) -> (r: &[(String, JsonValue)])
        ensures
            r@.map_values(|e: (String, JsonValue)| (e.0@, e.1@)) == self@,
    {
        self.entries.as_slice()
    }
}

/// How a field's answer is stored: checkbox groups as an array of every
/// posted value, other fields as the first posted value ("" when none).
pub open spec fn stored_value_of(f: FieldView, values: ValuesView) -> JsonView {
    if f.multi() {
        JsonView::Array(as_items(posted(values, f.id)))
    } else {
        JsonView::Str(first_value(values, f.id))
    }
}

/// The answer stored under `key` for a submission of `fields`: that of the
/// last field with that id.
pub open spec fn built(fields: Seq<FieldView>, values: ValuesView, key: Seq<char>) -> Option<
    JsonView,
>
    decreases fields.len(),
{
    if fields.len() == 0 {
        None
    } else if fields.last().id == key {
        Some(stored_value_of(fields.last(), values))
    } else {
        built(fields.drop_last(), values, key)
    }
}

/// The string items of an array, in order.
pub open spec fn string_items(items: Seq<Option<Seq<char>>>) -> Seq<Seq<char>>
    decreases items.len(),
{
    if items.len() == 0 {
        seq![]
    } else {
        match items.last() {
            Some(s) => string_items(items.drop_last()).push(s),
            None => string_items(items.drop_last()),
        }
    }
}

/// How a stored answer reads in the submissions table: an array's string
/// items joined with `", "`, a string as itself, any other value as its JSON
/// text, nothing when absent.
pub open spec fn shown(v: Option<JsonView>) -> Seq<char> {
    match v {
        Some(JsonView::Array(items)) => join(string_items(items), ", "@),
        Some(JsonView::Str(s)) => s,
        Some(JsonView::Other(t)) => t,
        None => seq![],
    }
}

/// Collapse a parsed submission into the object that gets persisted: one
/// entry per field id; single-value fields as strings, checkbox groups as
/// arrays.
pub fn build_data(form: &FormDefinition, values: &FormValues) -> (r: StoredRecord)
    ensures
        r.wf(),
        forall|k: Seq<char>| lookup(r@, k) == built(form@.fields(), values@, k),
{
    let fields = form.fields();
    let ghost fv = fields_view(fields@);
    let mut obj = StoredRecord::new();
    let mut i: usize = 0;
    while i < fields.len()
        invariant
            i <= fields@.len(),
            fv == fields_view(fields@),
            fv == form@.fields(),
            obj.wf(),
            forall|k: Seq<char>| lookup(obj@, k) == built(fv.take(i as int), values@, k),
        decreases fields@.len() - i,
    {
        let field = &fields[i];
        let value = match values.get(field.id.as_str()) {
            Some(vs) => {
                if field.is_multi() {
                    let mut items: Vec<Option<String>> = Vec::new();
                    let mut j: usize = 0;
                    while j < vs.len()
                        invariant
                            j <= vs@.len(),
                            items_view(items@) == as_items(vs.deep_view().take(j as int)),
                        decreases vs@.len() - j,
                    {
                        let ghost prev = items@;
                        let item = vs[j].clone();
                        assert(item@ == vs.deep_view()[j as int]);
                        items.push(Some(item));
                        assert(items@ == prev.push(Some(item)));
                        j = j + 1;
                        assert(vs.deep_view().take(j as int) =~= vs.deep_view().take(j - 1).push(item@));
                        assert(items_view(items@) =~= items_view(prev).push(Some(item@)));
                        assert(as_items(vs.deep_view().take(j as int)) =~= as_items(vs.deep_view().take(j - 1)).push(Some(item@)));
                    }
                    assert(vs.deep_view().take(vs@.len() as int) =~= vs.deep_view());
                    JsonValue::Array(items)
                } else if vs.len() > 0 {
                    JsonValue::Str(vs[0].clone())
                } else {
                    JsonValue::Str(String::new())
                }
            },
            None => {
                if field.is_multi() {
                    let items: Vec<Option<String>> = Vec::new();
                    assert(items_view(items@) =~= as_items(Seq::<Seq<char>>::empty()));
                    JsonValue::Array(items)
                } else {
                    JsonValue::Str(String::new())
                }
            },
        };
        assert(value@ == stored_value_of(field@, values@));
        let ghost before = obj@;
        obj.insert(field.id.clone(), value);
        proof {
            assert(fv.take(i + 1).drop_last() =~= fv.take(i as int));
            assert(fv.take(i + 1).last() == field@);
            assert forall|k: Seq<char>| lookup(obj@, k) == built(fv.take(i + 1), values@, k) by {
                assert(lookup(before, k) == built(fv.take(i as int), values@, k));
            }
        }
        i = i + 1;
    }
    assert(fv.take(fields@.len() as int) =~= fv);
    obj
}

/// Render a stored answer for a field as a human-friendly string (for the
/// submissions table).
pub fn format_value(field: &Field, data: &StoredRecord) -> (r: String)
    ensures
        r@ == shown(lookup(data@, field.id@)),
{
    match data.get(field.id.as_str()) {
        Some(JsonValue::Array(items)) => {
            let ghost iv = items_view(items@);
            let mut parts: Vec<String> = Vec::new();
            let mut j: usize = 0;
            while j < items.len()
                invariant
                    j <= items@.len(),
                    iv == items_view(items@),
                    parts.deep_view() == string_items(iv.take(j as int)),
                decreases items@.len() - j,
            {
                assert(iv.take(j + 1).drop_last() =~= iv.take(j as int));
                assert(iv.take(j + 1).last() == opt_view(items@[j as int]));
                match &items[j] {
                    Some(s) => {
                        let ghost before = parts.deep_view();
                        parts.push(s.clone());
                        assert(parts.deep_view() =~= before.push(s@));
                    },
                    None => {},
                }
                j = j + 1;
            }
            assert(iv.take(items@.len() as int) =~= iv);
            proof {
                reveal_strlit(", ");
            }
            crate::text::join_strings(&parts, ", ")
        },
        Some(JsonValue::Str(s)) => s.clone(),
        Some(JsonValue::Other(t)) => t.clone(),
        None => String::new(),
    }
}

proof fn lemma_string_items_all(vs: Seq<Seq<char>>)
    ensures
        string_items(as_items(vs)) == vs,
    decreases vs.len(),
{
    if vs.len() > 0 {
        lemma_string_items_all(vs.drop_last());
        assert(as_items(vs).drop_last() =~= as_items(vs.drop_last()));
        assert(vs.drop_last().push(vs.last()) =~= vs);
    }
}

proof fn lemma_built_last(fields: Seq<FieldView>, values: ValuesView, i: int)
    requires
        0 <= i < fields.len(),
        forall|j: int| i < j < fields.len() ==> fields[j].id != fields[i].id,
    ensures
        built(fields, values, fields[i].id) == Some(stored_value_of(fields[i], values)),
    decreases fields.len(),
{
    if i < fields.len() - 1 {
        lemma_built_last(fields.drop_last(), values, i);
        assert(fields.drop_last()[i] == fields[i]);
    }
}

/// What the submissions table shows for a field is what was submitted for
/// it: for a checkbox group every posted value joined with `", "`, for any
/// other field the first posted value ("" when none), provided no later
/// field of the form reuses the field's id.
pub proof fn lemma_table_shows_submission(form: FormView, values: ValuesView, i: int)
    requires
        0 <= i < form.fields().len(),
        forall|j: int| i < j < form.fields().len() ==> form.fields()[j].id != form.fields()[i].id,
    ensures
        ({
            let f = form.fields()[i];
            shown(built(form.fields(), values, f.id)) == if f.multi() {
                join(posted(values, f.id), ", "@)
            } else {
                first_value(values, f.id)
            }
        }),
{
    let f = form.fields()[i];
    lemma_built_last(form.fields(), values, i);
    lemma_string_items_all(posted(values, f.id));
}

/// The stored object has an answer under exactly the ids of the form's
/// fields.
pub proof fn lemma_built_keys(fields: Seq<FieldView>, values: ValuesView, key: Seq<char>)
    ensures
        built(fields, values, key).is_some() <==> exists|i: int|
            0 <= i < fields.len() && (#[trigger] fields[i]).id == key,
    decreases fields.len(),
{
    if fields.len() > 0 {
        let init = fields.drop_last();
        lemma_built_keys(init, values, key);
        if built(init, values, key).is_some() {
            let i = choose|i: int| 0 <= i < init.len() && (#[trigger] init[i]).id == key;
            assert(fields[i] == init[i]);
        }
        if exists|i: int| 0 <= i < fields.len() && (#[trigger] fields[i]).id == key {
            let i = choose|i: int| 0 <= i < fields.len() && (#[trigger] fields[i]).id == key;
            if i < fields.len() - 1 {
                assert(init[i] == fields[i]);
            }
        }
    }
}

/// The raw shape of a form definition file.
pub struct FormFile {
    /// Overrides the file name as the form's route when present and not blank.
    pub uuid: Option<String>,
    pub title: String,
    pub description: Option<String>,
    pub single_submission: bool,
    /// The fields of a single-page form.
    pub fields: Vec<Field>,
    /// A multi-page layout; when present and non-empty it takes precedence
    /// over `fields`.
    pub pages: Option<Vec<Page>>,
}

/// The route of a form file: its non-blank `uuid`, else the file name.
pub open spec fn resolved_uuid(stem: Seq<char>, uuid: Option<Seq<char>>) -> Seq<char> {
    match uuid {
        Some(u) if !is_blank(u) => u,
        _ => stem,
    }
}

/// The title of a form file: its non-blank title, else the file name.
pub open spec fn resolved_title(stem: Seq<char>, title: Seq<char>) -> Seq<char> {
    if is_blank(title) {
        stem
    } else {
        title
    }
}

/// The pages of a form file: its non-empty `pages`, else one page holding its
/// `fields`.
pub open spec fn resolved_pages(fields: Seq<Field>, pages: Option<Seq<Page>>) -> Seq<PageView> {
    match pages {
        Some(ps) if ps.len() > 0 => pages_view(ps),
        _ => seq![PageView { title: None, description: None, fields: fields_view(fields) }],
    }
}

/// Resolve a form file named `stem` (its file name without `.json`) into the
/// form it defines.
pub fn resolve_form(stem: &str, file: FormFile) -> (r: FormDefinition)
    ensures
        r@ == (FormView {
            uuid: resolved_uuid(stem@, opt_view(file.uuid)),
            title: resolved_title(stem@, file.title@),
            description: opt_view(file.description),
            single_submission: file.single_submission,
            pages: resolved_pages(
                file.fields@,
                match file.pages {
                    Some(ps) => Some(ps@),
                    None => None,
                },
            ),
        }),
        r@.pages.len() > 0,
{
    let uuid = match &file.uuid {
        Some(u) => {
            if crate::text::str_is_blank(u.as_str()) {
                crate::text::to_owned_string(stem)
            } else {
                u.clone()
            }
        },
        None => crate::text::to_owned_string(stem),
    };
    let title = if crate::text::str_is_blank(file.title.as_str()) {
        crate::text::to_owned_string(stem)
    } else {
        file.title
    };
    let ghost fields_v = file.fields@;
    let ghost pages_v = match file.pages {
        Some(ref ps) => Some(ps@),
        None => None,
    };
    let pages = match file.pages {
        Some(ps) => {
            if ps.len() > 0 {
                ps
            } else {
                let mut v: Vec<Page> = Vec::new();
                v.push(Page::new(None, None, file.fields));
                v
            }
        },
        None => {
            let mut v: Vec<Page> = Vec::new();
            v.push(Page::new(None, None, file.fields));
            v
        },
    };
    assert(pages_view(pages@) =~= resolved_pages(fields_v, pages_v));
    FormDefinition::new(uuid, title, file.description, file.single_submission, pages)
}

/// The live set of forms, by UUID.
pub struct FormRegistry {
    forms: Vec<FormDefinition>,
}

impl View for FormRegistry {
    type V = Seq<(Seq<char>, FormView)>;

    closed spec fn view(&self) -> Seq<(Seq<char>, FormView)> {
        self.forms@.map_values(|f: FormDefinition| (f.uuid@, f@))
    }
}

impl FormRegistry {
    /// Well-formed: no two forms share a UUID.
    pub open spec fn wf(&self) -> bool {
        crate::values::keys_unique(self@)
    }

    /// No forms.
    pub fn new() -> (r: FormRegistry)
        ensures
            forall|k: Seq<char>| lookup(r@, k).is_none(),
            r.wf(),
    {
        let r = FormRegistry { forms: Vec::new() };
        assert(r@ =~= Seq::<(Seq<char>, FormView)>::empty());
        r
    }

    /// The number of forms.
    pub fn len(&self) -> (r: usize)
        ensures
            r == self@.len(),
    {
        self.forms.len()
    }

    /// Add a form, replacing one with the same UUID.
    pub fn insert(&mut self, form: FormDefinition)
        requires
            old(self).wf(),
        ensures
            final(self).wf(),
            forall|k: Seq<char>|
                lookup(final(self)@, k) == if k == form@.uuid {
                    Some(form@)
                } else {
                    lookup(old(self)@, k)
                },
    {
        let ghost before = self@;
        let ghost kv = form@.uuid;
        let ghost fv = form@;
        let mut i: usize = 0;
        while i < self.forms.len()
            invariant
                i <= self.forms@.len(),
                before == self@,
                before == old(self)@,
                crate::values::keys_unique(before),
                kv == form@.uuid,
                fv == form@,
                self@.len() == self.forms@.len(),
                forall|j: int| 0 <= j < i ==> self@[j].0 != kv,
            decreases self.forms@.len() - i,
        {
            assert(self@[i as int] == (self.forms@[i as int].uuid@, self.forms@[i as int]@));
            if crate::text::str_eq(self.forms[i].uuid.as_str(), form.uuid.as_str()) {
                let ghost old_forms = self.forms@;
                let ghost gf = form;
                self.forms.set(i, form);
                proof {
                    assert(self.forms@ == old_forms.update(i as int, gf));
                    assert(gf.uuid@ == kv && gf@ == fv);
                    assert(self@ =~= before.update(i as int, (kv, fv)));
                    assert(crate::values::keys_unique(self@));
                    assert forall|k: Seq<char>|
                        lookup(self@, k) == if k == kv {
                            Some(fv)
                        } else {
                            lookup(before, k)
                        } by {
                        lemma_lookup_update(before, i as int, kv, fv, k);
                    }
                }
                return;
            }
            i = i + 1;
        }
        proof {
            lemma_lookup_absent(before, kv);
        }
        self.forms.push(form);
        proof {
            assert(self@ =~= before.push((kv, fv)));
            assert(crate::values::keys_unique(self@));
            assert forall|k: Seq<char>|
                lookup(self@, k) == if k == kv {
                    Some(fv)
                } else {
                    lookup(before, k)
                } by {
                lemma_lookup_push(before, kv, fv, k);
            }
        }
    }

    /// The form with the given UUID, if any.
    pub fn get(&self, uuid: &str) -> (r: Option<&FormDefinition>)
        ensures
            match r {
                Some(f) => lookup(self@, uuid@) == Some(f@) && f@.uuid == uuid@,
                None => lookup(self@, uuid@).is_none(),
            },
    {
        let mut i: usize = 0;
        while i < self.forms.len()
            invariant
                i <= self.forms@.len(),
                self@.len() == self.forms@.len(),
                forall|j: int| 0 <= j < i ==> self@[j].0 != uuid@,
            decreases self.forms@.len() - i,
        {
            if crate::text::str_eq(self.forms[i].uuid.as_str(), uuid) {
                proof {
                    assert(self@[i as int] == (self.forms@[i as int].uuid@, self.forms@[i as int]@));
                    lemma_lookup_update(self@, i as int, uuid@, self@[i as int].1, uuid@);
                }
                return Some(&self.forms[i]);
            }
            i = i + 1;
        }
        proof {
            lemma_lookup_absent(self@, uuid@);
        }
        None
    }
}

/// A form read back after it was added is the form that was added.
pub proof fn lemma_registry_get_inserted(
    before: Seq<(Seq<char>, FormView)>,
    after: Seq<(Seq<char>, FormView)>,
    form: FormView,
    k: Seq<char>,
)
    requires
        forall|key: Seq<char>|
            lookup(after, key) == if key == form.uuid {
                Some(form)
            } else {
                lookup(before, key)
            },
    ensures
        lookup(after, form.uuid) == Some(form),
        k != form.uuid ==> lookup(after, k) == lookup(before, k),
{
}

/// The field types the form format documents.
pub open spec fn is_documented_kind(kind: Seq<char>) -> bool {
    ||| kind == "text"@
    ||| kind == "email"@
    ||| kind == "number"@
    ||| kind == "url"@
    ||| kind == "date"@
    ||| kind == "textarea"@
    ||| kind == "select"@
    ||| kind == "radio"@
    ||| kind == "checkbox"@
}

/// Each documented field type is rendered as the input of that very type,
/// and any other type as plain text; so a field's input kind is always a
/// documented type, and reading it again changes nothing.
pub proof fn lemma_input_kind_documented(kind: Seq<char>)
    ensures
        is_documented_kind(kind) ==> input_kind_of(kind) == kind,
        !is_documented_kind(kind) ==> input_kind_of(kind) == "text"@,
        is_documented_kind(input_kind_of(kind)),
        input_kind_of(input_kind_of(kind)) == input_kind_of(kind),
{
    reveal_strlit("text");
    reveal_strlit("email");
    reveal_strlit("number");
    reveal_strlit("url");
    reveal_strlit("date");
    reveal_strlit("textarea");
    reveal_strlit("select");
    reveal_strlit("radio");
    reveal_strlit("checkbox");
    assert("text"@[0] == 't' && "textarea"@[0] == 't' && "text"@.len() != "textarea"@.len());
    assert("email"@[0] == 'e' && "radio"@[0] == 'r' && "email"@.len() == "radio"@.len());
    assert("number"@[0] == 'n' && "select"@[0] == 's');
    assert("date"@[0] == 'd');
    assert("url"@[0] == 'u');
    assert("checkbox"@[0] == 'c');
}

/// Only checkbox groups carry several values: a field is multi-valued
/// exactly when its input kind is `checkbox`; a checkbox group's answer is
/// stored as an array of every value posted for it, and any other field's as
/// a string, the first value posted for it.
pub proof fn lemma_only_checkboxes_are_multi(f: FieldView, values: ValuesView)
    ensures
        f.multi() <==> input_kind_of(f.kind) == "checkbox"@,
        f.kind == "checkbox"@ ==> stored_value_of(f, values) == JsonView::Array(
            as_items(posted(values, f.id)),
        ),
        f.kind != "checkbox"@ ==> stored_value_of(f, values) == JsonView::Str(
            first_value(values, f.id),
        ),
{
    lemma_input_kind_documented(f.kind);
    reveal_strlit("text");
    reveal_strlit("checkbox");
    assert("text"@.len() != "checkbox"@.len());
}

/// A form file with no page layout, or an empty one, is a single-page form:
/// one untitled page holding exactly the file's `fields`, in order; a
/// non-empty layout is used as given.
pub proof fn lemma_flat_form_is_one_page(fields: Seq<Field>, pages: Option<Seq<Page>>)
    ensures
        resolved_pages(fields, None) == resolved_pages(fields, Some(Seq::<Page>::empty())),
        resolved_pages(fields, None).len() == 1,
        resolved_pages(fields, None)[0].title.is_none(),
        resolved_pages(fields, None)[0].description.is_none(),
        all_fields(resolved_pages(fields, None)) == fields.map_values(|f: Field| f@),
        match pages {
            Some(ps) => ps.len() > 0 ==> {
                &&& resolved_pages(fields, pages).len() == ps.len()
                &&& forall|i: int|
                    0 <= i < ps.len() ==> #[trigger] resolved_pages(fields, pages)[i] == ps[i]@
            },
            None => true,
        },
{
    let one = resolved_pages(fields, None);
    assert(one.drop_last() =~= Seq::<PageView>::empty());
    assert(all_fields(one.drop_last()) =~= Seq::<FieldView>::empty());
    assert(all_fields(one) =~= fields_view(fields));
}

} // verus!
