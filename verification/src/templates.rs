//! The data each page view is rendered from, with the computations the page
//! templates make on it.

use vstd::prelude::*;
use crate::forms::{FormDefinition, Field, Page};
use crate::i18n::T;
use crate::num::decimal;
use crate::values::FormValues;

verus! {

/// One row in the submissions table: the answer per field, in field order.
pub struct Row {
    pub values: Vec<String>,
    pub created_at: String,
}

impl Row {
    /// The answers, in field order.
    pub fn values(&self) -> (r: &[String])
        ensures
            r@ == self.values@,
    {
        self.values.as_slice()
    }
}

/// `/<uuid>`, the path of a form.
pub open spec fn form_path(uuid: Seq<char>) -> Seq<char> {
    seq!['/'] + uuid
}

/// `/<uuid>/page/<n>/<dir>`, the path that page navigation posts to.
pub open spec fn page_nav_path(uuid: Seq<char>, n: nat, dir: Seq<char>) -> Seq<char> {
    seq!['/'] + uuid + "/page/"@ + decimal(n) + seq!['/'] + dir
}

/// The form filling-in page, showing exactly one page (section) of the form.
pub struct FormPage<'a> {
    pub form: &'a FormDefinition,
    /// 0-based index of the page (section) being shown/submitted.
    pub page_index: usize,
    pub errors: &'a [String],
    pub values: &'a FormValues,
    pub t: T,
    pub next: &'a str,
}

impl<'a> FormPage<'a> {
    /// Whether the page shown is the form's last (or only) page.
    pub open spec fn last_page(&self) -> bool {
        self.page_index >= if self.form@.pages.len() > 0 {
            self.form@.pages.len() - 1
        } else {
            0
        }
    }

    /// The page (section) being shown/submitted.
    pub fn current_page(&self) -> (r: &Page)
        requires
            self.form@.pages.len() > 0,
        ensures
            r@ == self.form@.pages[self.form@.clamp_page(self.page_index as int)],
    {
        self.form.page(self.page_index)
    }

    /// Whether this is the last page.
    pub fn is_last_page(&self) -> (r: bool)
        ensures
            r == self.last_page(),
    {
        let count = self.form.page_count();
        let last = if count > 0 {
            count - 1
        } else {
            0
        };
        self.page_index >= last
    }

    /// The 1-based number of the page.
    pub fn page_number(&self) -> (r: usize)
        requires
            self.page_index < usize::MAX,
        ensures
            r == self.page_index + 1,
    {
        self.page_index + 1
    }

    /// The number of pages.
    pub fn page_count(&self) -> (r: usize)
        ensures
            r == self.form@.pages.len(),
    {
        self.form.page_count()
    }

    /// `0..page_count()`, the progress bar's segments.
    pub fn indices(&self) -> (r: Vec<usize>)
        ensures
            r@.len() == self.form@.pages.len(),
            forall|i: int| 0 <= i < r@.len() ==> r@[i] == i,
    {
        let n = self.page_count();
        let mut v: Vec<usize> = Vec::new();
        let mut i: usize = 0;
        while i < n
            invariant
                i <= n,
                n == self.form@.pages.len(),
                v@.len() == i,
                forall|j: int| 0 <= j < i ==> v@[j] == j,
            decreases n - i,
        {
            v.push(i);
            i = i + 1;
        }
        v
    }

    /// Whether the form has more than one page.
    pub fn multi_page(&self) -> (r: bool)
        ensures
            r == (self.form@.pages.len() > 1),
    {
        self.form.page_count() > 1
    }

    /// Where the page's form posts: validate this page and show the next one,
    /// or the form root for the final page (and single-page forms), which
    /// performs the actual submit.
    pub fn action(&self) -> (r: String)
        ensures
            r@ == if self.last_page() {
                form_path(self.form@.uuid)
            } else {
                page_nav_path(self.form@.uuid, self.page_index as nat, "next"@)
            },
    {
        if self.is_last_page() {
            proof {
                reveal_strlit("/");
            }
            crate::text::concat2("/", self.form.uuid.as_str())
        } else {
            page_path(self.form.uuid.as_str(), self.page_index, "next")
        }
    }

    /// Where the "Back" form posts: show the previous page again.
    pub fn back_action(&self) -> (r: String)
        ensures
            r@ == page_nav_path(
                self.form@.uuid,
                if self.page_index > 0 {
                    (self.page_index - 1) as nat
                } else {
                    0
                },
                "back"@,
            ),
    {
        let prev = if self.page_index > 0 {
            self.page_index - 1
        } else {
            0
        };
        page_path(self.form.uuid.as_str(), prev, "back")
    }

    /// A textarea's placeholder: the field's own, or the localized default.
    pub fn textarea_placeholder(&self, field: &Field) -> (r: String)
        ensures
            r@ == match field@.placeholder {
                Some(p) if p.len() > 0 => p,
                _ => self.t.default_textarea_placeholder@,
            },
    {
        let p = field.placeholder();
        if p.unicode_len() == 0 {
            crate::text::to_owned_string(self.t.default_textarea_placeholder)
        } else {
            crate::text::to_owned_string(p)
        }
    }

    /// The pages that precede the current one, rendered as hidden inputs so a
    /// later post carries their answers along.
    pub fn pages_before(&self) -> (r: &[Page])
        ensures
            r@ == self.form.pages@.take(
                if self.page_index < self.form@.pages.len() {
                    self.page_index as int
                } else {
                    self.form@.pages.len() as int
                },
            ),
    {
        let count = self.form.page_count();
        let k = if self.page_index < count {
            self.page_index
        } else {
            count
        };
        let all = self.form.pages();
        let r = &all[0..k];
        assert(r@ =~= self.form.pages@.take(k as int));
        r
    }
}

/// `/<uuid>/page/<n>/<dir>`.
fn page_path(uuid: &str, n: usize, dir: &str) -> (r: String)
    ensures
        r@ == page_nav_path(uuid@, n as nat, dir@),
{
    proof {
        reveal_strlit("/");
    }
    let head = crate::text::concat3("/", uuid, "/page/");
    let num = crate::num::usize_to_string(n);
    let s = crate::text::concat3(head.as_str(), num.as_str(), "/");
    crate::text::concat2(s.as_str(), dir)
}

/// The thank-you page.
pub struct SuccessPage<'a> {
    pub form: &'a FormDefinition,
    pub t: T,
    pub next: &'a str,
}

/// The admin password prompt.
pub struct AdminLoginPage<'a> {
    pub form: &'a FormDefinition,
    pub error: Option<&'a str>,
    pub t: T,
    pub next: &'a str,
}

/// The admin table of a form's submissions.
pub struct SubmissionsPage<'a> {
    pub form: &'a FormDefinition,
    pub columns: &'a [String],
    pub rows: &'a [Row],
    pub t: T,
    pub next: &'a str,
}

/// The page for an unknown form.
pub struct NotFoundPage<'a> {
    pub uuid: &'a str,
    pub t: T,
    pub next: &'a str,
}

} // verus!
