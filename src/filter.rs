use vstd::prelude::*;
use crate::date::CalendarDate;
use crate::quote::{clone_opt_string, opt_date_wf, opt_text, Quote, QuoteView};

verus! {

/// Why a list request was refused before any record was read.
#[derive(Clone, Copy, Debug, PartialEq, Eq, Structural)]
pub enum UsageError {
    /// An exact day was given together with a range bound.
    ExactDateWithRange,
    /// Both bounds were given and the upper one precedes the lower one.
    InvertedRange,
}

/// The message shown for a usage error.
pub open spec fn usage_message(e: UsageError) -> Seq<char> {
    match e {
        UsageError::ExactDateWithRange => "Cannot specify `on` date if using `before` or `after` filters"@,
        UsageError::InvertedRange => "Invalid range provided"@,
    }
}

impl UsageError {
    /// A message that tells the user what to change.
    pub fn message(&self) -> (r: &'static str)
        ensures
            r@ == usage_message(*self),
    {
        match self {
            UsageError::ExactDateWithRange => "Cannot specify `on` date if using `before` or `after` filters",
            UsageError::InvertedRange => "Invalid range provided",
        }
    }
}

/// A conjunction of predicates on records: author equal to, date equal to,
/// date at most, date at least. An absent field sets no predicate.
#[derive(Debug)]
pub struct Filter {
    pub author: Option<String>,
    pub on: Option<CalendarDate>,
    pub at_most: Option<CalendarDate>,
    pub at_least: Option<CalendarDate>,
}

pub struct FilterView {
    pub author: Option<Seq<char>>,
    pub on: Option<CalendarDate>,
    pub at_most: Option<CalendarDate>,
    pub at_least: Option<CalendarDate>,
}

impl View for Filter {
    type V = FilterView;

    open spec fn view(&self) -> FilterView {
        FilterView { author: opt_text(self.author), on: self.on, at_most: self.at_most, at_least: self.at_least }
    }
}

/// Whether a record meets every predicate of a filter. A date predicate is
/// never met by a record without a date.
pub open spec fn admits(f: FilterView, q: QuoteView) -> bool {
    &&& f.author matches Some(a) ==> q.author == Some(a)
    &&& f.on matches Some(d) ==> q.date == Some(d)
    &&& f.at_most matches Some(b) ==> (q.date matches Some(d) && !b.spec_before(d))
    &&& f.at_least matches Some(c) ==> (q.date matches Some(d) && !d.spec_before(c))
}

/// Whether a record is selected by an optional filter; no filter selects all.
pub open spec fn selects(f: Option<FilterView>, q: QuoteView) -> bool {
    match f {
        Some(f) => admits(f, q),
        None => true,
    }
}

/// The usage error of a date specification, if it has one: an exact day
/// next to a bound, or an upper bound before the lower bound.
pub open spec fn usage_error(
    on: Option<CalendarDate>,
    before: Option<CalendarDate>,
    after: Option<CalendarDate>,
) -> Option<UsageError> {
    if on is Some && (before is Some || after is Some) {
        Some(UsageError::ExactDateWithRange)
    } else if before matches Some(b) && after matches Some(a) && b.spec_before(a) {
        Some(UsageError::InvertedRange)
    } else {
        None
    }
}

/// Whether a list request sets no constraint at all.
pub open spec fn unconstrained(
    author: Option<Seq<char>>,
    on: Option<CalendarDate>,
    before: Option<CalendarDate>,
    after: Option<CalendarDate>,
) -> bool {
    author is None && on is None && before is None && after is None
}

/// The filter of a valid list request: `None` when it sets no constraint.
pub open spec fn filter_of(
    author: Option<Seq<char>>,
    on: Option<CalendarDate>,
    before: Option<CalendarDate>,
    after: Option<CalendarDate>,
) -> Option<FilterView> {
    if unconstrained(author, on, before, after) {
        None
    } else {
        Some(FilterView { author, on, at_most: before, at_least: after })
    }
}

/// The view of an optional filter.
pub open spec fn opt_filter_view(f: Option<Filter>) -> Option<FilterView> {
    match f {
        Some(f) => Some(f@),
        None => None,
    }
}

/// Checks the date specification of a list request and builds its filter:
/// `author = A`, `date <= before`, `date == on`, `date >= after`, or no
/// filter at all when nothing is constrained.
pub fn build_filter(
    author: &Option<String>,
    on: &Option<CalendarDate>,
    before: &Option<CalendarDate>,
    after: &Option<CalendarDate>,
) -> (r: Result<Option<Filter>, UsageError>)
    ensures
        usage_error(*on, *before, *after) matches Some(e) ==> r == Err::<Option<Filter>, UsageError>(e),
        usage_error(*on, *before, *after) is None ==> (r matches Ok(f) && opt_filter_view(f) == filter_of(
            opt_text(*author),
            *on,
            *before,
            *after,
        )),
{
    if on.is_some() && (before.is_some() || after.is_some()) {
        return Err(UsageError::ExactDateWithRange);
    }
    match (before, after) {
        (Some(b), Some(a)) => {
            if b.is_before(a) {
                return Err(UsageError::InvertedRange);
            }
        },
        _ => {},
    }
    if author.is_none() && on.is_none() && before.is_none() && after.is_none() {
        Ok(None)
    } else {
        Ok(Some(Filter { author: clone_opt_string(author), on: *on, at_most: *before, at_least: *after }))
    }
}

fn date_admits(date: &Option<CalendarDate>, on: &Option<CalendarDate>, at_most: &Option<CalendarDate>, at_least: &Option<CalendarDate>) -> (r: bool)
    ensures
        r == ((*on matches Some(d) ==> *date == Some(d))
            && (*at_most matches Some(b) ==> (*date matches Some(d) && !b.spec_before(d)))
            && (*at_least matches Some(c) ==> (*date matches Some(d) && !d.spec_before(c)))),
{
    match date {
        Some(d) => {
            let on_ok = match on {
                Some(o) => *o == *d,
                None => true,
            };
            let most_ok = match at_most {
                Some(b) => !b.is_before(d),
                None => true,
            };
            let least_ok = match at_least {
                Some(c) => !d.is_before(c),
                None => true,
            };
            on_ok && most_ok && least_ok
        },
        None => on.is_none() && at_most.is_none() && at_least.is_none(),
    }
}

impl Filter {
    /// Whether `q` meets every predicate of this filter.
    pub fn matches(&self, q: &Quote) -> (r: bool)
        ensures
            r == admits(self@, q@),
    {
        let author_ok = match (&self.author, &q.author) {
            (Some(a), Some(b)) => a.eq(b),
            (Some(_), None) => false,
            (None, _) => true,
        };
        author_ok && date_admits(&q.date, &self.on, &self.at_most, &self.at_least)
    }
}

} // verus!
