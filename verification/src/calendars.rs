//! External calendar subscriptions and the rule that cleans them: whatever
//! is stored, and whatever is handed out, has been through `sanitize_calendars`.

use crate::chars::{lemma_trim_idempotent, lemma_trim_is_tight, tight, trim, trimmed_text};
use vstd::prelude::*;

verus! {

/// A subscription to a calendar outside the application.
#[derive(Debug, PartialEq, Eq)]
pub struct ExternalCalendarSubscription {
    pub id: String,
    pub name: String,
    pub url: String,
    pub enabled: bool,
}

/// The mathematical content of a subscription.
pub struct CalendarView {
    pub id: Seq<char>,
    pub name: Seq<char>,
    pub url: Seq<char>,
    pub enabled: bool,
}

impl View for ExternalCalendarSubscription {
    type V = CalendarView;

    open spec fn view(&self) -> CalendarView {
        CalendarView { id: self.id@, name: self.name@, url: self.url@, enabled: self.enabled }
    }
}

impl Clone for ExternalCalendarSubscription {
    fn clone(&self) -> (copy: ExternalCalendarSubscription)
        ensures
            copy@ == self@,
    {
        ExternalCalendarSubscription {
            id: self.id.clone(),
            name: self.name.clone(),
            url: self.url.clone(),
            enabled: self.enabled,
        }
    }
}

/// The name given to a subscription that has none.
pub open spec fn default_name() -> Seq<char> {
    "Calendar"@
}

/// The views of the subscriptions in `list`, in order.
pub open spec fn views(list: Seq<ExternalCalendarSubscription>) -> Seq<CalendarView> {
    list.map_values(|c: ExternalCalendarSubscription| c@)
}

/// The subscription as it is stored: address and name trimmed, a blank name
/// replaced by the default name; `None` for a subscription whose address is
/// blank.
pub open spec fn cleaned(c: CalendarView) -> Option<CalendarView> {
    if trim(c.url).len() == 0 {
        None
    } else {
        Some(
            CalendarView {
                id: c.id,
                name: if trim(c.name).len() == 0 {
                    default_name()
                } else {
                    trim(c.name)
                },
                url: trim(c.url),
                enabled: c.enabled,
            },
        )
    }
}

/// The subscriptions of `list` that have an address, each cleaned, in order.
pub open spec fn cleaned_list(list: Seq<CalendarView>) -> Seq<CalendarView>
    decreases list.len(),
{
    if list.len() == 0 {
        Seq::empty()
    } else {
        match cleaned(list[0]) {
            Some(c) => seq![c] + cleaned_list(list.skip(1)),
            None => cleaned_list(list.skip(1)),
        }
    }
}

/// A subscription that cleaning leaves as it is: its address is not blank
/// and has no whitespace around it, and so its name.
pub open spec fn clean(c: CalendarView) -> bool {
    &&& c.url.len() > 0
    &&& tight(c.url)
    &&& c.name.len() > 0
    &&& tight(c.name)
}

/// What cleaning returns is clean, and cleaning leaves a clean subscription alone.
pub proof fn lemma_cleaned_is_clean(c: CalendarView)
    ensures
        cleaned(c) matches Some(d) ==> clean(d) && cleaned(d) == Some(d),
        clean(c) ==> cleaned(c) == Some(c),
{
    reveal_strlit("Calendar");
    lemma_trim_is_tight(c.url);
    lemma_trim_is_tight(c.name);
    lemma_trim_idempotent(c.url);
    lemma_trim_idempotent(c.name);
    let d = default_name();
    assert(d[0] == 'C' && d.last() == 'r');
    crate::chars::lemma_trim_tight(d);
    if clean(c) {
        crate::chars::lemma_trim_tight(c.url);
        crate::chars::lemma_trim_tight(c.name);
    }
}

/// Cleaning a list keeps no subscription with a blank address and returns
/// clean subscriptions only.
pub proof fn lemma_cleaned_list_is_clean(list: Seq<CalendarView>)
    ensures
        cleaned_list(list).len() <= list.len(),
        forall|i: int| 0 <= i < cleaned_list(list).len() ==> clean(#[trigger] cleaned_list(list)[i]),
    decreases list.len(),
{
    if list.len() > 0 {
        lemma_cleaned_list_is_clean(list.skip(1));
        lemma_cleaned_is_clean(list[0]);
        let rest = cleaned_list(list.skip(1));
        let all = cleaned_list(list);
        assert forall|i: int| 0 <= i < all.len() implies clean(#[trigger] all[i]) by {
            match cleaned(list[0]) {
                Some(c) => {
                    if i > 0 {
                        assert(all[i] == rest[i - 1]);
                    }
                },
                None => {},
            }
        }
    }
}

/// Cleaning a list of clean subscriptions changes nothing.
pub proof fn lemma_cleaned_list_of_clean(list: Seq<CalendarView>)
    requires
        forall|i: int| 0 <= i < list.len() ==> clean(#[trigger] list[i]),
    ensures
        cleaned_list(list) == list,
    decreases list.len(),
{
    if list.len() > 0 {
        let rest = list.skip(1);
        assert forall|i: int| 0 <= i < rest.len() implies clean(#[trigger] rest[i]) by {
            assert(rest[i] == list[i + 1]);
        }
        lemma_cleaned_list_of_clean(rest);
        lemma_cleaned_is_clean(list[0]);
        assert(seq![list[0]] + rest =~= list);
    }
}

/// Cleaning twice is cleaning once.
pub proof fn lemma_cleaning_idempotent(list: Seq<CalendarView>)
    ensures
        cleaned_list(cleaned_list(list)) == cleaned_list(list),
{
    lemma_cleaned_list_is_clean(list);
    lemma_cleaned_list_of_clean(cleaned_list(list));
}

/// Cleans one subscription: trims address and name, gives a blank name the
/// default name `Calendar`, and drops the subscription where the address is
/// blank.
pub fn sanitize_calendar(entry: &ExternalCalendarSubscription) -> (r: Option<
    ExternalCalendarSubscription,
>)
    ensures
        match r {
            Some(c) => cleaned(entry@) == Some(c@),
            None => cleaned(entry@) is None,
        },
{
    let url = trimmed_text(entry.url.as_str());
    if url.as_str().unicode_len() == 0 {
        return None;
    }
    let trimmed_name = trimmed_text(entry.name.as_str());
    let name = if trimmed_name.as_str().unicode_len() == 0 {
        "Calendar".to_owned()
    } else {
        trimmed_name
    };
    Some(ExternalCalendarSubscription { id: entry.id.clone(), name, url, enabled: entry.enabled })
}

/// Cleans a list of subscriptions: those with a blank address are dropped,
/// the others are cleaned and keep their order.
pub fn sanitize_calendars(list: &Vec<ExternalCalendarSubscription>) -> (out: Vec<
    ExternalCalendarSubscription,
>)
    ensures
        views(out@) == cleaned_list(views(list@)),
{
    let mut out: Vec<ExternalCalendarSubscription> = Vec::new();
    let mut i: usize = 0;
    let ghost all = views(list@);
    proof {
        assert(all.skip(0) =~= all);
        assert(views(out@) =~= Seq::<CalendarView>::empty());
    }
    while i < list.len()
        invariant
            i <= list.len(),
            all == views(list@),
            cleaned_list(all) == views(out@) + cleaned_list(all.skip(i as int)),
        decreases list.len() - i,
    {
        let ghost before = views(out@);
        let ghost tail = all.skip(i as int);
        proof {
            assert(tail[0] == list@[i as int]@);
            assert(tail.skip(1) =~= all.skip(i + 1));
        }
        match sanitize_calendar(&list[i]) {
            Some(c) => {
                let ghost cv = c@;
                out.push(c);
                proof {
                    assert(views(out@) =~= before.push(cv));
                    assert(before + (seq![cv] + cleaned_list(tail.skip(1))) =~= before.push(cv)
                        + cleaned_list(tail.skip(1)));
                }
            },
            None => {},
        }
        i += 1;
    }
    proof {
        assert(views(out@) + Seq::<CalendarView>::empty() =~= views(out@));
    }
    out
}

} // verus!
