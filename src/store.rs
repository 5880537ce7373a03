use vstd::prelude::*;
use crate::date::{
    calendar_day, chrono_local_today, clock_day, date_text, four_digit_text, is_calendar_date, lemma_parse_formatted_date,
    parsed_date, two_digit_text, CalendarDate, DateError,
};
use crate::filter::{build_filter, filter_of, opt_filter_view, selects, usage_error, Filter, FilterView, UsageError};
use crate::listing::{listing, listing_text, rendered_records, views};
use crate::quote::{opt_date_wf, opt_text, Quote, QuoteView};

verus! {

/// The records that an optional filter selects, in store order.
pub open spec fn selected(s: Seq<QuoteView>, f: Option<FilterView>) -> Seq<QuoteView>
    decreases s.len(),
{
    if s.len() == 0 {
        Seq::empty()
    } else if selects(f, s.last()) {
        selected(s.drop_last(), f).push(s.last())
    } else {
        selected(s.drop_last(), f)
    }
}

/// A collection of quote records kept in insertion order. Records are
/// appended and read, never changed or removed.
#[derive(Debug)]
pub struct QuoteStore {
    records: Vec<Quote>,
}

impl View for QuoteStore {
    type V = Seq<QuoteView>;

    closed spec fn view(&self) -> Seq<QuoteView> {
        views(self.records@)
    }
}

impl QuoteStore {
    /// Every record held is well formed.
    pub closed spec fn wf(&self) -> bool {
        forall|i: int| 0 <= i < self.records@.len() ==> (#[trigger] self.records@[i]).wf()
    }

    /// An empty store.
    pub fn new() -> (r: QuoteStore)
        ensures
            r.wf(),
            r@ == Seq::<QuoteView>::empty(),
    {
        let r = QuoteStore { records: Vec::new() };
        assert(r@ =~= Seq::<QuoteView>::empty());
        r
    }

    /// Number of records held.
    pub fn len(&self) -> (r: usize)
        ensures
            r == self@.len(),
    {
        self.records.len()
    }

    /// Appends one record.
    pub fn insert(&mut self, q: Quote)
        requires
            old(self).wf(),
            q.wf(),
        ensures
            final(self).wf(),
            final(self)@ == old(self)@.push(q@),
    {
        self.records.push(q);
        assert(self@ =~= old(self)@.push(q@));
    }

    /// The records that `filter` selects, in store order; no filter
    /// selects every record.
    pub fn find(&self, filter: &Option<Filter>) -> (r: Vec<Quote>)
        requires
            self.wf(),
        ensures
            views(r@) == selected(self@, opt_filter_view(*filter)),
            forall|i: int| 0 <= i < r@.len() ==> (#[trigger] r@[i]).wf(),
    {
        let mut out: Vec<Quote> = Vec::new();
        let mut i: usize = 0;
        while i < self.records.len()
            invariant
                self.wf(),
                i <= self.records@.len(),
                views(out@) == selected(self@.subrange(0, i as int), opt_filter_view(*filter)),
                forall|j: int| 0 <= j < out@.len() ==> (#[trigger] out@[j]).wf(),
            decreases self.records@.len() - i,
        {
            let q = &self.records[i];
            let keep = match filter {
                Some(f) => f.matches(q),
                None => true,
            };
            let ghost prev = out@;
            if keep {
                out.push(q.duplicate());
                assert(views(out@) =~= views(prev).push(q@));
            }
            proof {
                let next = self@.subrange(0, i + 1);
                assert(next.drop_last() =~= self@.subrange(0, i as int));
                assert(next.last() == q@);
            }
            i = i + 1;
        }
        assert(self@.subrange(0, self@.len() as int) =~= self@);
        out
    }
}

/// Why a quote was not added.
#[derive(Clone, Copy, Debug, PartialEq, Eq, Structural)]
pub enum AddError {
    /// The quote text is empty.
    EmptyText,
    /// Today's year cannot be written with four digits.
    YearOutOfRange,
}

/// The record that an add creates.
pub open spec fn new_record(text: Seq<char>, author: Option<Seq<char>>, date: Option<CalendarDate>) -> QuoteView {
    QuoteView { text, author, date }
}

/// What building a record gives, for the clock's day (`year`, `month`,
/// `day`): empty text is refused; without `stamp` the record is undated;
/// with it, the record is dated with that day, unless its year does not have
/// four digits.
pub open spec fn stamped_record(
    text: Seq<char>,
    author: Option<Seq<char>>,
    stamp: bool,
    year: i32,
    month: u32,
    day: u32,
) -> Result<QuoteView, AddError> {
    if text.len() == 0 {
        Err(AddError::EmptyText)
    } else if !stamp {
        Ok(new_record(text, author, None))
    } else {
        match clock_day(year, month, day) {
            Ok(today) => Ok(new_record(text, author, Some(today))),
            Err(_) => Err(AddError::YearOutOfRange),
        }
    }
}

impl Quote {
    /// Lists the records of `store` that meet the given constraints and
    /// returns the text to print; refuses a bad date specification without
    /// reading the store.
    pub fn list_quotes(
        store: &QuoteStore,
        author: Option<String>,
        on: Option<CalendarDate>,
        before: Option<CalendarDate>,
        after: Option<CalendarDate>,
    ) -> (r: Result<String, UsageError>)
        requires
            store.wf(),
            opt_date_wf(on),
            opt_date_wf(before),
            opt_date_wf(after),
        ensures
            usage_error(on, before, after) matches Some(e) ==> r == Err::<String, UsageError>(e),
            usage_error(on, before, after) is None ==> (r matches Ok(t) && t@ == listing_text(
                selected(store@, filter_of(opt_text(author), on, before, after)),
                opt_text(author),
                on,
                before,
                after,
            )),
    {
        let filter = match build_filter(&author, &on, &before, &after) {
            Ok(f) => f,
            Err(e) => return Err(e),
        };
        let found = store.find(&filter);
        Ok(listing(&found, &author, &on, &before, &after))
    }

    /// The record for the given text, author and date; refuses empty text.
    pub fn new_dated(quote: String, author: Option<String>, date: Option<CalendarDate>) -> (r: Result<
        Quote,
        AddError,
    >)
        requires
            opt_date_wf(date),
        ensures
            quote@.len() == 0 ==> r == Err::<Quote, AddError>(AddError::EmptyText),
            quote@.len() > 0 ==> (r matches Ok(q) && q.wf() && q@ == new_record(quote@, opt_text(author), date)),
    {
        if quote.as_str().is_empty() {
            return Err(AddError::EmptyText);
        }
        Ok(Quote { quote, author, date })
    }

    /// The record for the given text and author, dated with the clock's day
    /// (`year`, `month`, `day`) when `stamp` is set.
    pub fn new_for_day(
        quote: String,
        author: Option<String>,
        stamp: bool,
        year: i32,
        month: u32,
        day: u32,
    ) -> (r: Result<Quote, AddError>)
        requires
            is_calendar_date(year as int, month as int, day as int),
        ensures
            r matches Ok(q) ==> q.wf() && stamped_record(quote@, opt_text(author), stamp, year, month, day)
                == Ok::<QuoteView, AddError>(q@),
            r matches Err(e) ==> stamped_record(quote@, opt_text(author), stamp, year, month, day) == Err::<
                QuoteView,
                AddError,
            >(e),
    {
        if quote.as_str().is_empty() {
            return Err(AddError::EmptyText);
        }
        if !stamp {
            return Quote::new_dated(quote, author, None);
        }
        match calendar_day(year, month, day) {
            Ok(today) => Quote::new_dated(quote, author, Some(today)),
            Err(_) => Err(AddError::YearOutOfRange),
        }
    }

    /// The record for the given text and author, dated today when `stamp`
    /// is set. Whatever the clock reads, the result is the record for some
    /// calendar day.
    pub fn new_stamped(quote: String, author: Option<String>, stamp: bool) -> (r: Result<Quote, AddError>)
        ensures
            quote@.len() == 0 ==> r == Err::<Quote, AddError>(AddError::EmptyText),
            quote@.len() > 0 ==> r != Err::<Quote, AddError>(AddError::EmptyText),
            r matches Err(e) ==> (e == AddError::YearOutOfRange ==> stamp),
            r matches Ok(q) ==> q.wf() && q@.text == quote@ && q@.author == opt_text(author) && (q.date is Some
                <==> stamp),
            !stamp && quote@.len() > 0 ==> r is Ok,
            exists|y: i32, m: u32, d: u32|
                is_calendar_date(y as int, m as int, d as int) && match r {
                    Ok(q) => #[trigger] stamped_record(quote@, opt_text(author), stamp, y, m, d) == Ok::<
                        QuoteView,
                        AddError,
                    >(q@),
                    Err(e) => stamped_record(quote@, opt_text(author), stamp, y, m, d) == Err::<
                        QuoteView,
                        AddError,
                    >(e),
                },
    {
        // The clock is read only when its day is used; any calendar day
        // stands in otherwise.
        let (year, month, day) = if quote.as_str().is_empty() || !stamp {
            (2000, 1, 1)
        } else {
            chrono_local_today()
        };
        let r = Quote::new_for_day(quote, author, stamp, year, month, day);
        assert(is_calendar_date(year as int, month as int, day as int) && match r {
            Ok(q) => stamped_record(quote@, opt_text(author), stamp, year, month, day) == Ok::<QuoteView, AddError>(q@),
            Err(e) => stamped_record(quote@, opt_text(author), stamp, year, month, day) == Err::<QuoteView, AddError>(e),
        });
        r
    }

    /// Adds a record with the given text, author and date.
    pub fn add_quote_dated(
        store: &mut QuoteStore,
        quote: String,
        author: Option<String>,
        date: Option<CalendarDate>,
    ) -> (r: Result<(), AddError>)
        requires
            old(store).wf(),
            opt_date_wf(date),
        ensures
            final(store).wf(),
            quote@.len() == 0 ==> r == Err::<(), AddError>(AddError::EmptyText),
            quote@.len() > 0 ==> r is Ok,
            r is Ok ==> final(store)@ == old(store)@.push(new_record(quote@, opt_text(author), date)),
            r is Err ==> final(store)@ == old(store)@,
    {
        let q = match Quote::new_dated(quote, author, date) {
            Ok(q) => q,
            Err(e) => return Err(e),
        };
        store.insert(q);
        Ok(())
    }

    /// Adds a record with the given text and author, dated today when
    /// `date` is set.
    pub fn add_quote(store: &mut QuoteStore, quote: String, author: Option<String>, date: bool) -> (r: Result<
        (),
        AddError,
    >)
        requires
            old(store).wf(),
        ensures
            final(store).wf(),
            quote@.len() == 0 ==> r == Err::<(), AddError>(AddError::EmptyText),
            quote@.len() > 0 ==> r != Err::<(), AddError>(AddError::EmptyText),
            r matches Err(e) ==> final(store)@ == old(store)@ && (e == AddError::YearOutOfRange ==> date),
            r is Ok ==> exists|d: Option<CalendarDate>|
                (d is Some <==> date) && opt_date_wf(d) && final(store)@ == old(store)@.push(
                    #[trigger] new_record(quote@, opt_text(author), d),
                ),
            !date && quote@.len() > 0 ==> r is Ok,
    {
        let q = match Quote::new_stamped(quote, author, date) {
            Ok(q) => q,
            Err(e) => return Err(e),
        };
        let ghost d = q.date;
        store.insert(q);
        assert(final(store)@ == old(store)@.push(new_record(q@.text, q@.author, d)));
        Ok(())
    }
}

/// With no filter, every record is selected, in store order.
pub proof fn lemma_unfiltered_selects_all(s: Seq<QuoteView>)
    ensures
        selected(s, None) == s,
    decreases s.len(),
{
    if s.len() > 0 {
        lemma_unfiltered_selects_all(s.drop_last());
        assert(s.drop_last().push(s.last()) =~= s);
    }
}

/// Adding a quote and then listing with no constraint shows every earlier
/// record and exactly one new record, last, with the given text and author,
/// and with a date exactly when one was stamped.
pub proof fn lemma_add_then_list_unfiltered(
    s: Seq<QuoteView>,
    text: Seq<char>,
    author: Option<Seq<char>>,
    date: Option<CalendarDate>,
)
    ensures
        ({
            let found = selected(s.push(new_record(text, author, date)), filter_of(None, None, None, None));
            &&& found == s.push(new_record(text, author, date))
            &&& found.len() == s.len() + 1
            &&& found.last().text == text
            &&& found.last().author == author
            &&& (found.last().date is Some <==> date is Some)
        }),
{
    lemma_unfiltered_selects_all(s.push(new_record(text, author, date)));
}

/// A stamped quote carries exactly the day that the clock read, whatever
/// the text and author: two quotes stamped on the same day get the same
/// date. That day is displayed as the clock's month, day and year, and the
/// displayed text reads back as the same day.
pub proof fn lemma_stamp_is_clock_day(
    text1: Seq<char>,
    author1: Option<Seq<char>>,
    text2: Seq<char>,
    author2: Option<Seq<char>>,
    year: i32,
    month: u32,
    day: u32,
)
    requires
        text1.len() > 0,
        text2.len() > 0,
        0 <= year <= 9999,
        is_calendar_date(year as int, month as int, day as int),
    ensures
        ({
            let today = CalendarDate { year, month, day };
            &&& stamped_record(text1, author1, true, year, month, day) == Ok::<QuoteView, AddError>(
                new_record(text1, author1, Some(today)),
            )
            &&& stamped_record(text2, author2, true, year, month, day) == Ok::<QuoteView, AddError>(
                new_record(text2, author2, Some(today)),
            )
            &&& date_text(today) == two_digit_text(month as int) + seq!['-'] + two_digit_text(day as int) + seq!['-']
                + four_digit_text(year as int)
            &&& parsed_date(date_text(today)) == Ok::<CalendarDate, DateError>(today)
        }),
{
    lemma_parse_formatted_date(CalendarDate { year, month, day });
}

/// Adding a quote built for the clock's day and then listing with no
/// constraint shows every earlier record and exactly one new record, last,
/// with the given text and author, dated with that day exactly when stamped.
pub proof fn lemma_stamped_add_then_list(
    s: Seq<QuoteView>,
    text: Seq<char>,
    author: Option<Seq<char>>,
    stamp: bool,
    year: i32,
    month: u32,
    day: u32,
)
    requires
        text.len() > 0,
        is_calendar_date(year as int, month as int, day as int),
        stamp ==> 0 <= year <= 9999,
    ensures
        stamped_record(text, author, stamp, year, month, day) matches Ok(q) && {
            let found = selected(s.push(q), filter_of(None, None, None, None));
            &&& found == s.push(q)
            &&& found.last().text == text
            &&& found.last().author == author
            &&& found.last().date == (if stamp { Some(CalendarDate { year, month, day }) } else { None })
        },
{
    let date = if stamp { Some(CalendarDate { year, month, day }) } else { None };
    lemma_add_then_list_unfiltered(s, text, author, date);
}

/// With no constraint and at least one record, a listing shows every record
/// in store order and nothing else.
pub proof fn lemma_unconstrained_listing_shows_all(s: Seq<QuoteView>)
    requires
        s.len() > 0,
    ensures
        listing_text(selected(s, filter_of(None, None, None, None)), None, None, None, None) == rendered_records(s),
{
    lemma_unfiltered_selects_all(s);
}

} // verus!
