use vstd::prelude::*;
use crate::date::{date_text, CalendarDate, ToChronoDateFormatted};

verus! {

/// The text of an optional string.
pub open spec fn opt_text(o: Option<String>) -> Option<Seq<char>> {
    match o {
        Some(s) => Some(s@),
        None => None,
    }
}

/// Whether an optional date is a valid calendar day when present.
pub open spec fn opt_date_wf(o: Option<CalendarDate>) -> bool {
    o matches Some(d) ==> d.wf()
}

/// A stored quote: its text, who said it, and the day it was noted.
#[derive(Debug)]
pub struct Quote {
    pub quote: String,
    pub author: Option<String>,
    pub date: Option<CalendarDate>,
}

/// The mathematical content of a quote record.
pub struct QuoteView {
    pub text: Seq<char>,
    pub author: Option<Seq<char>>,
    pub date: Option<CalendarDate>,
}

impl View for Quote {
    type V = QuoteView;

    open spec fn view(&self) -> QuoteView {
        QuoteView { text: self.quote@, author: opt_text(self.author), date: self.date }
    }
}

impl QuoteView {
    /// A record holds non-empty text and, if dated, a whole valid day.
    pub open spec fn wf(self) -> bool {
        self.text.len() > 0 && (self.date matches Some(d) ==> d.wf())
    }
}

/// A copy of an optional string with the same text.
pub fn clone_opt_string(o: &Option<String>) -> (r: Option<String>)
    ensures
        opt_text(r) == opt_text(*o),
{
    match o {
        Some(s) => Some(s.clone()),
        None => None,
    }
}

impl Quote {
    pub open spec fn wf(&self) -> bool {
        self@.wf()
    }

    /// Whether this record holds non-empty text and, if dated, a valid day.
    pub fn is_well_formed(&self) -> (r: bool)
        ensures
            r == self.wf(),
    {
        let date_ok = match &self.date {
            Some(d) => d.is_valid(),
            None => true,
        };
        !self.quote.as_str().is_empty() && date_ok
    }

    /// A copy of this record with the same content.
    pub fn duplicate(&self) -> (r: Quote)
        ensures
            r@ == self@,
    {
        Quote { quote: self.quote.clone(), author: clone_opt_string(&self.author), date: self.date }
    }

    /// The display form of this record, as printed on its own.
    pub fn render(&self) -> (r: String)
        requires
            self.wf(),
        ensures
            r@ == rendered(debug_text(self.quote@), self@.author, self.date),
    {
        let quoted = debug_quoted(self.quote.as_str());
        render_with_quoted(quoted.as_str(), &self.author, &self.date)
    }
}

/// The text of `s` as Rust's `Debug` shows a string: inside double quotes,
/// with special characters escaped.
pub uninterp spec fn debug_text(s: Seq<char>) -> Seq<char>;

/// Relies on the `Debug` impl of `str` (through `format!("{:?}")`), whose
/// output depends on the characters of `s` alone.
#[verifier::external_body]
fn debug_quoted(s: &str) -> (r: String)
    ensures
        r@ == debug_text(s@),
{
    format!("{:?}", s)
}

/// The separator that closes each rendered record.
pub open spec fn separator_text() -> Seq<char> {
    "\n------------\n"@
}

/// A record rendered from its already quoted text: the text, then
/// `\n  - author` if there is an author, then ` on MM-DD-YYYY` if there is a
/// date, then a separator line of dashes.
pub open spec fn rendered(quoted: Seq<char>, author: Option<Seq<char>>, date: Option<CalendarDate>) -> Seq<char> {
    quoted + match author {
        Some(a) => "\n  - "@ + a,
        None => Seq::empty(),
    } + match date {
        Some(d) => " on "@ + date_text(d),
        None => Seq::empty(),
    } + separator_text()
}

/// Renders a record whose text has already been quoted.
pub fn render_with_quoted(quoted: &str, author: &Option<String>, date: &Option<CalendarDate>) -> (r: String)
    requires
        opt_date_wf(*date),
    ensures
        r@ == rendered(quoted@, opt_text(*author), *date),
{
    let mut out = String::from_str(quoted);
    let ghost after_text = out@;
    match author {
        Some(a) => {
            out.append("\n  - ");
            out.append(a.as_str());
        },
        None => {},
    }
    let ghost after_author = out@;
    match date {
        Some(d) => {
            out.append(" on ");
            let formatted = d.to_date_formatted();
            out.append(formatted.as_str());
        },
        None => {},
    }
    out.append("\n------------\n");
    proof {
        let a_part = match opt_text(*author) {
            Some(a) => "\n  - "@ + a,
            None => Seq::<char>::empty(),
        };
        let d_part = match *date {
            Some(d) => " on "@ + date_text(d),
            None => Seq::<char>::empty(),
        };
        assert(after_author =~= quoted@ + a_part);
        assert(out@ =~= quoted@ + a_part + d_part + separator_text());
    }
    out
}

} // verus!
