use vstd::prelude::*;
use crate::date::{date_text, CalendarDate, ToChronoDateFormatted};
use crate::filter::unconstrained;
use crate::quote::{debug_text, opt_date_wf, opt_text, rendered, Quote, QuoteView};

verus! {

/// `word` followed by the date, or nothing when there is no date.
pub open spec fn date_phrase(word: Seq<char>, d: Option<CalendarDate>) -> Seq<char> {
    match d {
        Some(d) => word + date_text(d),
        None => Seq::empty(),
    }
}

/// ` by author`, or nothing when there is no author.
pub open spec fn author_phrase(author: Option<Seq<char>>) -> Seq<char> {
    match author {
        Some(a) => " by "@ + a,
        None => Seq::empty(),
    }
}

/// The hint shown when the journal is empty and nothing was asked for.
pub open spec fn creation_hint() -> Seq<char> {
    ". Try creating a quote with `quote-it <QUOTE>`"@
}

/// The message for a listing that found nothing: it names the author, the
/// exact day, the lower bound, ` and` when both bounds are set, and the upper
/// bound, each only when it is set; with no constraint at all it ends with a
/// hint to create a quote.
pub open spec fn no_match_text(
    author: Option<Seq<char>>,
    on: Option<CalendarDate>,
    before: Option<CalendarDate>,
    after: Option<CalendarDate>,
) -> Seq<char> {
    "No quotes found"@ + author_phrase(author) + date_phrase(" on "@, on) + date_phrase(" after "@, after) + (
    if before is Some && after is Some {
        " and"@
    } else {
        Seq::empty()
    }) + date_phrase(" before "@, before) + (if unconstrained(author, on, before, after) {
        creation_hint()
    } else {
        Seq::empty()
    })
}

/// Each record rendered and followed by an empty line, in order.
pub open spec fn rendered_records(s: Seq<QuoteView>) -> Seq<char>
    decreases s.len(),
{
    if s.len() == 0 {
        Seq::empty()
    } else {
        rendered_records(s.drop_last()) + rendered(debug_text(s.last().text), s.last().author, s.last().date)
            + "\n"@
    }
}

/// The output of a listing: the records found, or, when none was found, the
/// message line that names the constraints.
pub open spec fn listing_text(
    found: Seq<QuoteView>,
    author: Option<Seq<char>>,
    on: Option<CalendarDate>,
    before: Option<CalendarDate>,
    after: Option<CalendarDate>,
) -> Seq<char> {
    if found.len() == 0 {
        no_match_text(author, on, before, after) + "\n"@
    } else {
        rendered_records(found)
    }
}

fn append_date_phrase(out: &mut String, word: &str, d: &Option<CalendarDate>)
    requires
        opt_date_wf(*d),
    ensures
        final(out)@ == old(out)@ + date_phrase(word@, *d),
{
    match d {
        Some(d) => {
            out.append(word);
            let formatted = d.to_date_formatted();
            out.append(formatted.as_str());
            assert(final(out)@ =~= old(out)@ + (word@ + date_text(*d)));
        },
        None => {
            assert(out@ =~= old(out)@ + Seq::<char>::empty());
        },
    }
}

/// The message for a listing that found no record.
pub fn no_match_message(
    author: &Option<String>,
    on: &Option<CalendarDate>,
    before: &Option<CalendarDate>,
    after: &Option<CalendarDate>,
) -> (r: String)
    requires
        opt_date_wf(*on),
        opt_date_wf(*before),
        opt_date_wf(*after),
    ensures
        r@ == no_match_text(opt_text(*author), *on, *before, *after),
{
    let mut out = String::from_str("No quotes found");
    let ghost s0 = out@;
    match author {
        Some(a) => {
            out.append(" by ");
            out.append(a.as_str());
        },
        None => {},
    }
    let ghost s1 = out@;
    assert(s1 =~= s0 + author_phrase(opt_text(*author)));
    append_date_phrase(&mut out, " on ", on);
    append_date_phrase(&mut out, " after ", after);
    let ghost s3 = out@;
    let both = before.is_some() && after.is_some();
    if both {
        out.append(" and");
    }
    let ghost s4 = out@;
    let ghost and_part = if both { " and"@ } else { Seq::<char>::empty() };
    assert(s4 =~= s3 + and_part);
    append_date_phrase(&mut out, " before ", before);
    let ghost s5 = out@;
    let none = author.is_none() && on.is_none() && before.is_none() && after.is_none();
    if none {
        out.append(". Try creating a quote with `quote-it <QUOTE>`");
    }
    let ghost hint_part = if none { creation_hint() } else { Seq::<char>::empty() };
    assert(out@ =~= s5 + hint_part);
    out
}

/// The views of a sequence of records.
pub open spec fn views(v: Seq<Quote>) -> Seq<QuoteView> {
    v.map_values(|q: Quote| q@)
}

/// The text printed for a listing of `found` under the given constraints.
pub fn listing(
    found: &Vec<Quote>,
    author: &Option<String>,
    on: &Option<CalendarDate>,
    before: &Option<CalendarDate>,
    after: &Option<CalendarDate>,
) -> (r: String)
    requires
        forall|i: int| 0 <= i < found@.len() ==> (#[trigger] found@[i]).wf(),
        opt_date_wf(*on),
        opt_date_wf(*before),
        opt_date_wf(*after),
    ensures
        r@ == listing_text(views(found@), opt_text(*author), *on, *before, *after),
{
    if found.len() == 0 {
        let mut message = no_match_message(author, on, before, after);
        message.append("\n");
        return message;
    }
    let mut out = String::new();
    let mut i: usize = 0;
    while i < found.len()
        invariant
            i <= found@.len(),
            forall|j: int| 0 <= j < found@.len() ==> (#[trigger] found@[j]).wf(),
            out@ == rendered_records(views(found@).subrange(0, i as int)),
        decreases found@.len() - i,
    {
        let ghost prev = views(found@).subrange(0, i as int);
        let text = found[i].render();
        out.append(text.as_str());
        out.append("\n");
        proof {
            let next = views(found@).subrange(0, i + 1);
            assert(next.drop_last() =~= prev);
            assert(out@ =~= rendered_records(next));
        }
        i = i + 1;
    }
    assert(views(found@).subrange(0, found@.len() as int) =~= views(found@));
    out
}

/// Whether `part` occurs as a contiguous piece of `whole`.
pub open spec fn occurs_in(part: Seq<char>, whole: Seq<char>) -> bool {
    exists|i: int| 0 <= i && i + part.len() <= whole.len() && #[trigger] whole.subrange(i, i + part.len()) == part
}

proof fn lemma_occurs_between(x: Seq<char>, y: Seq<char>, z: Seq<char>)
    ensures
        occurs_in(y, x + y + z),
{
    let w = x + y + z;
    assert(w.subrange(x.len() as int, (x.len() + y.len()) as int) =~= y);
    assert(0 <= x.len() as int && x.len() + y.len() <= w.len());
}

/// The message for an empty listing names every constraint that was set:
/// the author, the exact day, and each bound; with no constraint at all it
/// is the bare message followed by the hint to create a quote.
pub proof fn lemma_no_match_names_constraints(
    author: Option<Seq<char>>,
    on: Option<CalendarDate>,
    before: Option<CalendarDate>,
    after: Option<CalendarDate>,
)
    ensures
        author matches Some(a) ==> occurs_in(" by "@ + a, no_match_text(author, on, before, after)),
        on matches Some(d) ==> occurs_in(" on "@ + date_text(d), no_match_text(author, on, before, after)),
        after matches Some(d) ==> occurs_in(" after "@ + date_text(d), no_match_text(author, on, before, after)),
        before matches Some(d) ==> occurs_in(" before "@ + date_text(d), no_match_text(author, on, before, after)),
        before is Some && after is Some ==> occurs_in(" and"@, no_match_text(author, on, before, after)),
        unconstrained(author, on, before, after) ==> no_match_text(author, on, before, after) == "No quotes found"@
            + creation_hint(),
        !unconstrained(author, on, before, after) ==> no_match_text(author, on, before, after) == "No quotes found"@
            + author_phrase(author) + date_phrase(" on "@, on) + date_phrase(" after "@, after) + (if before is Some
            && after is Some {
            " and"@
        } else {
            Seq::empty()
        }) + date_phrase(" before "@, before),
{
    let p0 = "No quotes found"@;
    let pa = author_phrase(author);
    let po = date_phrase(" on "@, on);
    let pf = date_phrase(" after "@, after);
    let pn = if before is Some && after is Some { " and"@ } else { Seq::<char>::empty() };
    let pb = date_phrase(" before "@, before);
    let ph = if unconstrained(author, on, before, after) { creation_hint() } else { Seq::<char>::empty() };
    let m = no_match_text(author, on, before, after);
    assert(m == p0 + pa + po + pf + pn + pb + ph);
    assert(m =~= p0 + pa + (po + pf + pn + pb + ph));
    lemma_occurs_between(p0, pa, po + pf + pn + pb + ph);
    assert(m =~= (p0 + pa) + po + (pf + pn + pb + ph));
    lemma_occurs_between(p0 + pa, po, pf + pn + pb + ph);
    assert(m =~= (p0 + pa + po) + pf + (pn + pb + ph));
    lemma_occurs_between(p0 + pa + po, pf, pn + pb + ph);
    assert(m =~= (p0 + pa + po + pf) + pn + (pb + ph));
    lemma_occurs_between(p0 + pa + po + pf, pn, pb + ph);
    assert(m =~= (p0 + pa + po + pf + pn) + pb + ph);
    lemma_occurs_between(p0 + pa + po + pf + pn, pb, ph);
    if unconstrained(author, on, before, after) {
        assert(m =~= p0 + ph);
    } else {
        assert(m =~= p0 + pa + po + pf + pn + pb);
    }
}

} // verus!
