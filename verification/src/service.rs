use vstd::prelude::*;

use chrono::Datelike;

verus! {

/// A calendar date, held as plain year, month and day values.
///
/// Ordering is lexicographic on `(year, month, day)`, which coincides with
/// chronological order. Any triple is a value of this type; what only the
/// calendar library can compute about a date (its weekday) goes through
/// `weekday_from_monday`.
#[derive(Clone, Copy, Debug, PartialEq, Eq, Structural)]
pub struct Date {
    pub year: i32,
    pub month: u8,
    pub day: u8,
}

/// Chronological (lexicographic) order on dates.
pub open spec fn date_le(a: Date, b: Date) -> bool {
    ||| a.year < b.year
    ||| (a.year == b.year && a.month < b.month)
    ||| (a.year == b.year && a.month == b.month && a.day <= b.day)
}

impl Date {
    pub fn new(year: i32, month: u8, day: u8) -> (r: Date)
        ensures
            r == (Date { year, month, day }),
    {
        Date { year, month, day }
    }

    /// Chronological comparison: `self` on or before `other`.
    pub fn le(self, other: Date) -> (r: bool)
        ensures
            r == date_le(self, other),
    {
        self.year < other.year
            || (self.year == other.year && self.month < other.month)
            || (self.year == other.year && self.month == other.month && self.day <= other.day)
    }
}

/// The weekday of the given calendar date, counted from Monday = 0; a
/// function of the date alone, computed by the calendar library.
pub uninterp spec fn weekday_of(year: int, month: int, day: int) -> int;

/// Relies on chrono's `NaiveDate::from_ymd_opt` and
/// `Weekday::num_days_from_monday`: the weekday of a calendar date, with
/// Monday counted as 0, depends on the year, month and day alone and is
/// always below 7. A triple that chrono rejects as a date is answered with 0.
#[verifier::external_body]
fn weekday_from_monday(date: Date) -> (r: u8)
    ensures
        0 <= r < 7,
        r as int == weekday_of(date.year as int, date.month as int, date.day as int),
{
    match chrono::NaiveDate::from_ymd_opt(date.year, date.month as u32, date.day as u32) {
        Some(d) => d.weekday().num_days_from_monday() as u8,
        None => 0,
    }
}

/// A weekly schedule pattern with date-bounded validity and explicit
/// exception dates.
#[derive(Debug, PartialEq)]
pub struct Service {
    start: Date,
    end: Date,
    weekdays: [bool; 7],
    added: Vec<Date>,
    removed: Vec<Date>,
}

proof fn lemma_push_to_set(s: Seq<Date>, date: Date)
    ensures
        s.push(date).to_set() == s.to_set().insert(date),
{
    let s1 = s.push(date);
    assert forall|x: Date| s1.contains(x) implies (s.contains(x) || x == date) by {
        let i = choose|i: int| 0 <= i < s1.len() && s1[i] == x;
        if i < s.len() {
            assert(s[i] == x);
        }
    }
    assert forall|x: Date| s.contains(x) implies s1.contains(x) by {
        let i = choose|i: int| 0 <= i < s.len() && s[i] == x;
        assert(s1[i] == x);
    }
    assert(s1[s.len() as int] == date);
    assert(s1.contains(date));
    assert(s1.to_set() =~= s.to_set().insert(date));
}

proof fn lemma_push_unique(s: Seq<Date>, date: Date)
    requires
        forall|i: int, j: int| 0 <= i < s.len() && 0 <= j < s.len() && i != j ==> s[i] != s[j],
        !s.to_set().contains(date),
    ensures
        forall|i: int, j: int|
            0 <= i < s.push(date).len() && 0 <= j < s.push(date).len() && i != j
                ==> s.push(date)[i] != s.push(date)[j],
{
    let s1 = s.push(date);
    assert forall|i: int, j: int|
        0 <= i < s1.len() && 0 <= j < s1.len() && i != j implies s1[i] != s1[j] by {
        if i < s.len() && j < s.len() {
            assert(s[i] != s[j]);
        } else if i < s.len() {
            assert(s1[j] == date);
            if s1[i] == date {
                assert(s.contains(date));
            }
        } else {
            assert(s1[i] == date);
            if s1[j] == date {
                assert(s.contains(date));
            }
        }
    }
}

impl Service {
    /// The exception sets hold each date at most once, so that inserting a
    /// date twice has no additional effect.
    pub closed spec fn wf(self) -> bool {
        &&& forall|i: int, j: int|
            0 <= i < self.added@.len() && 0 <= j < self.added@.len() && i != j
                ==> self.added@[i] != self.added@[j]
        &&& forall|i: int, j: int|
            0 <= i < self.removed@.len() && 0 <= j < self.removed@.len() && i != j
                ==> self.removed@[i] != self.removed@[j]
    }

    pub closed spec fn spec_start(self) -> Date {
        self.start
    }

    pub closed spec fn spec_end(self) -> Date {
        self.end
    }

    pub closed spec fn spec_weekdays(self) -> Seq<bool> {
        self.weekdays@
    }

    /// The set of dates on which the service runs although the regular rule
    /// says it does not.
    pub closed spec fn spec_added(self) -> Set<Date> {
        self.added@.to_set()
    }

    /// The set of dates on which the service rests although the regular rule
    /// says it runs.
    pub closed spec fn spec_removed(self) -> Set<Date> {
        self.removed@.to_set()
    }

    /// The regular rule: the date lies in the validity range and its weekday
    /// bit is set.
    pub open spec fn spec_regular(self, date: Date) -> bool {
        &&& date_le(self.spec_start(), date)
        &&& date_le(date, self.spec_end())
        &&& self.spec_weekdays()[weekday_of(date.year as int, date.month as int, date.day as int)]
    }

    /// The availability rule: regular and not removed, or added.
    pub open spec fn spec_available(self, date: Date) -> bool {
        (self.spec_regular(date) && !self.spec_removed().contains(date))
            || self.spec_added().contains(date)
    }

    pub fn new(start: Date, end: Date, weekdays: [bool; 7]) -> (r: Service)
        ensures
            r.wf(),
            r.spec_start() == start,
            r.spec_end() == end,
            r.spec_weekdays() == weekdays@,
            r.spec_added() == Set::<Date>::empty(),
            r.spec_removed() == Set::<Date>::empty(),
    {
        let r = Service { start, end, weekdays, added: Vec::new(), removed: Vec::new() };
        proof {
            assert(r.added@.to_set() =~= Set::<Date>::empty());
            assert(r.removed@.to_set() =~= Set::<Date>::empty());
        }
        r
    }

    /// Marks `date` as an added exception; inserting the same date twice has
    /// no additional effect.
    pub fn add_date(&mut self, date: Date)
        requires
            old(self).wf(),
        ensures
            final(self).wf(),
            final(self).spec_added() == old(self).spec_added().insert(date),
            final(self).spec_removed() == old(self).spec_removed(),
            final(self).spec_start() == old(self).spec_start(),
            final(self).spec_end() == old(self).spec_end(),
            final(self).spec_weekdays() == old(self).spec_weekdays(),
    {
        if !contains_date(&self.added, date) {
            let ghost prev = self.added@;
            self.added.push(date);
            proof {
                lemma_push_to_set(prev, date);
                lemma_push_unique(prev, date);
            }
        } else {
            proof {
                assert(self.added@.to_set() =~= self.added@.to_set().insert(date));
            }
        }
    }

    /// Marks `date` as a removed exception; inserting the same date twice has
    /// no additional effect.
    pub fn remove_date(&mut self, date: Date)
        requires
            old(self).wf(),
        ensures
            final(self).wf(),
            final(self).spec_removed() == old(self).spec_removed().insert(date),
            final(self).spec_added() == old(self).spec_added(),
            final(self).spec_start() == old(self).spec_start(),
            final(self).spec_end() == old(self).spec_end(),
            final(self).spec_weekdays() == old(self).spec_weekdays(),
    {
        if !contains_date(&self.removed, date) {
            let ghost prev = self.removed@;
            self.removed.push(date);
            proof {
                lemma_push_to_set(prev, date);
                lemma_push_unique(prev, date);
            }
        } else {
            proof {
                assert(self.removed@.to_set() =~= self.removed@.to_set().insert(date));
            }
        }
    }

    /// Whether the service runs on `date` under the regular rule alone.
    pub fn regularly_available_at(&self, date: Date) -> (r: bool)
        ensures
            r == self.spec_regular(date),
    {
        let day = weekday_from_monday(date);
        self.start.le(date) && date.le(self.end) && self.weekdays[day as usize]
    }

    /// Whether the service runs on `date`. Any date is a valid input; the
    /// answer follows the availability rule deterministically.
    pub fn available_at(&self, date: Date) -> (r: bool)
        ensures
            r == self.spec_available(date),
    {
        (self.regularly_available_at(date) && !contains_date(&self.removed, date))
            || contains_date(&self.added, date)
    }
}

fn contains_date(dates: &Vec<Date>, date: Date) -> (r: bool)
    ensures
        r == dates@.to_set().contains(date),
{
    let mut i: usize = 0;
    while i < dates.len()
        invariant
            i <= dates@.len(),
            forall|j: int| 0 <= j < i ==> dates@[j] != date,
        decreases dates@.len() - i,
    {
        if dates[i] == date {
            proof {
                assert(dates@.contains(date));
            }
            return true;
        }
        i += 1;
    }
    proof {
        assert(!dates@.contains(date));
    }
    false
}

/// The availability law: a service is available on a date exactly when the
/// regular rule grants the date and it is not a removed exception, or the
/// date is an added exception — added dates take precedence.
pub proof fn lemma_availability(service: Service, date: Date)
    ensures
        service.spec_available(date) == ((service.spec_regular(date)
            && !service.spec_removed().contains(date)) || service.spec_added().contains(date)),
{
}

} // verus!
