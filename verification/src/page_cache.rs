use vstd::prelude::*;
use std::time::{Duration, SystemTime};
use crate::text::{chars_of, string_of};

verus! {

#[verifier::external_type_specification]
#[verifier::external_body]
pub struct ExSystemTime(SystemTime);

/// How long cached pages stay valid.
#[derive(Debug, Clone, Copy, PartialEq, Eq, Structural)]
pub enum ExpirationUnits {
    Disable,
    Day(i8),
    Week(i8),
    Month(i8),
}

pub const DAYS_TO_WEEK: u64 = 7;
pub const DAYS_TO_MONTH: u64 = 30;
pub const DAY_INTO_HOURS: u64 = 24;

/// The number of units of an expiration rule (0 when expiration is disabled).
pub open spec fn units_count(u: ExpirationUnits) -> int {
    match u {
        ExpirationUnits::Disable => 0,
        ExpirationUnits::Day(d) => d as int,
        ExpirationUnits::Week(w) => w as int,
        ExpirationUnits::Month(m) => m as int,
    }
}

/// How many hours an expiration rule lasts; none when expiration is disabled. A day is 24
/// hours, a week 7 days, a month 30 days.
pub open spec fn expiration_hours_spec(u: ExpirationUnits) -> Option<nat> {
    match u {
        ExpirationUnits::Disable => None,
        ExpirationUnits::Day(d) => Some((d as nat) * 24),
        ExpirationUnits::Week(w) => Some((w as nat) * 24 * 7),
        ExpirationUnits::Month(m) => Some((m as nat) * 24 * 30),
    }
}

/// What `Duration::from_secs` gives for `secs` seconds.
pub uninterp spec fn duration_of_secs(secs: u64) -> Duration;

/// What `SystemTime::checked_sub` gives for the time `t` and the duration `d`: the time `d`
/// before `t`, when the platform can represent it.
pub uninterp spec fn checked_sub_of(t: SystemTime, d: Duration) -> Option<SystemTime>;

/// Whether the time `a` comes after the time `b` (`SystemTime`'s order).
pub uninterp spec fn time_is_after(a: SystemTime, b: SystemTime) -> bool;

/// `Duration::from_secs`: the result is named by [`duration_of_secs`].
#[verifier::external_body]
fn duration_from_secs(secs: u64) -> (res: Duration)
    ensures
        res == duration_of_secs(secs),
{
    Duration::from_secs(secs)
}

/// `SystemTime::now`: the current time of the machine. Nothing is stated of it.
#[verifier::external_body]
fn system_now() -> SystemTime {
    SystemTime::now()
}

/// `SystemTime::checked_sub`: the result is named by [`checked_sub_of`].
#[verifier::external_body]
fn time_checked_sub(t: &SystemTime, d: Duration) -> (res: Option<SystemTime>)
    ensures
        res == checked_sub_of(*t, d),
{
    t.checked_sub(d)
}

/// `SystemTime`'s `>`: the result is named by [`time_is_after`].
#[verifier::external_body]
fn time_after(a: &SystemTime, b: &SystemTime) -> (res: bool)
    ensures
        res == time_is_after(*a, *b),
{
    a > b
}

/// The rule by default: six months.
impl Default for ExpirationUnits {
    fn default() -> (u: ExpirationUnits)
        ensures
            u == ExpirationUnits::Month(6),
    {
        ExpirationUnits::Month(6)
    }
}

impl ExpirationUnits {
    /// How many hours the rule lasts, or `None` when expiration is disabled.
    pub fn expiration_hours(&self) -> (res: Option<u64>)
        requires
            units_count(*self) >= 0,
        ensures
            res is Some <==> expiration_hours_spec(*self) is Some,
            res matches Some(h) ==> h == expiration_hours_spec(*self)->0,
    {
        let week_hours: u64 = DAY_INTO_HOURS * DAYS_TO_WEEK;
        let month_hours: u64 = DAY_INTO_HOURS * DAYS_TO_MONTH;
        assert(week_hours == 168 && month_hours == 720);
        match self {
            ExpirationUnits::Day(d) => Some((*d as u64) * DAY_INTO_HOURS),
            ExpirationUnits::Week(w) => Some((*w as u64) * week_hours),
            ExpirationUnits::Month(m) => Some((*m as u64) * month_hours),
            ExpirationUnits::Disable => None,
        }
    }

    /// How long the rule lasts, or `None` when expiration is disabled.
    pub fn cast_to_duration(&self) -> (res: Option<Duration>)
        requires
            units_count(*self) >= 0,
        ensures
            res is Some <==> expiration_hours_spec(*self) is Some,
            res matches Some(d) ==> d == duration_of_secs(
                (expiration_hours_spec(*self)->0 * 3600) as u64,
            ),
    {
        match self.expiration_hours() {
            Some(h) => Some(duration_from_secs(h * 3600)),
            None => None,
        }
    }

    /// The time before which cached pages count as expired: now, less the rule's duration.
    /// `None` when expiration is disabled.
    pub fn get_expiration_date(&self) -> (res: Option<SystemTime>)
        requires
            units_count(*self) >= 0,
        ensures
            expiration_hours_spec(*self) is None ==> res is None,
            expiration_hours_spec(*self) matches Some(h) ==> exists|now: SystemTime|
                res == #[trigger] checked_sub_of(now, duration_of_secs((h * 3600) as u64)),
    {
        let current_date = system_now();
        let duration = match self.cast_to_duration() {
            Some(d) => d,
            None => return None,
        };
        let res = time_checked_sub(&current_date, duration);
        assert(res == checked_sub_of(current_date, duration));
        res
    }
}

/// The characters that cannot stand in a file name and are replaced by `-`.
pub open spec fn invalid_file_char(c: char) -> bool {
    c == '/' || c == '\\' || c == '?' || c == '%' || c == '*' || c == ':' || c == '|' || c == '.'
        || c == '"' || c == '<' || c == '>'
}

/// The name of the file that caches the page at `url`: the address without one trailing
/// `/`, with each character that cannot stand in a file name replaced by `-`.
pub open spec fn file_name_spec(url: Seq<char>) -> Seq<char> {
    let t = if url.len() > 0 && url.last() == '/' {
        url.drop_last()
    } else {
        url
    };
    t.map_values(|c: char| if invalid_file_char(c) { '-' } else { c })
}

/// A table from page address to the file that holds the page.
pub open spec fn table_view(entries: Seq<(String, String)>) -> Map<Seq<char>, Seq<char>> {
    Map::new(
        |k: Seq<char>| exists|i: int| 0 <= i < entries.len() && #[trigger] entries[i].0@ == k,
        |k: Seq<char>|
            entries[choose|i: int| 0 <= i < entries.len() && #[trigger] entries[i].0@ == k].1@,
    )
}

/// The table that recording `entries` one after the other builds: the first file recorded
/// for an address stays.
pub open spec fn first_wins(entries: Seq<(String, String)>) -> Map<Seq<char>, Seq<char>>
    decreases entries.len(),
{
    if entries.len() == 0 {
        Map::empty()
    } else {
        let m = first_wins(entries.drop_last());
        let e = entries.last();
        if m.dom().contains(e.0@) {
            m
        } else {
            m.insert(e.0@, e.1@)
        }
    }
}

/// No address occurs twice.
pub open spec fn distinct_keys(entries: Seq<(String, String)>) -> bool {
    forall|i: int, j: int|
        0 <= i < entries.len() && 0 <= j < entries.len() && i != j ==> #[trigger] entries[i].0@
            != #[trigger] entries[j].0@
}

/// What is known of the age of a cached page's file when the cache is validated.
#[derive(Debug, Clone, Copy, PartialEq, Eq, Structural)]
pub enum PageAge {
    /// No expiration date applies (expiration is disabled, or the date cannot be formed).
    Unchecked,
    /// The creation time of the file could not be read.
    Unknown,
    /// Whether the file was created after the expiration date, that is, within the
    /// expiration window.
    CreatedAfter(bool),
}

/// Whether validation keeps a cached page: its file must exist, and when an expiration date
/// applies, the file's creation time must be known and after that date; pages older than the
/// expiration window are dropped.
pub open spec fn keep_page_spec(file_exists: bool, age: PageAge) -> bool {
    file_exists && match age {
        PageAge::Unchecked => true,
        PageAge::Unknown => false,
        PageAge::CreatedAfter(recent) => recent,
    }
}

/// What is known of a cached page's age, given the expiration date (none when no expiration
/// date applies) and the creation time of its file (none when it cannot be read).
pub fn page_age(expiration_date: Option<SystemTime>, created: Option<SystemTime>) -> (res: PageAge)
    ensures
        res == match (expiration_date, created) {
            (None, _) => PageAge::Unchecked,
            (Some(_), None) => PageAge::Unknown,
            (Some(e), Some(c)) => PageAge::CreatedAfter(time_is_after(c, e)),
        },
{
    match (expiration_date, created) {
        (None, _) => PageAge::Unchecked,
        (Some(_), None) => PageAge::Unknown,
        (Some(e), Some(c)) => PageAge::CreatedAfter(time_after(&c, &e)),
    }
}

/// Whether validation keeps a cached page, see [`keep_page_spec`].
pub fn keep_page(file_exists: bool, age: PageAge) -> (res: bool)
    ensures
        res == keep_page_spec(file_exists, age),
{
    if !file_exists {
        return false;
    }
    match age {
        PageAge::Unchecked => true,
        PageAge::Unknown => false,
        PageAge::CreatedAfter(recent) => recent,
    }
}

/// The pages fetched so far, each stored in a file of the cache directory.
#[derive(Debug)]
pub struct PageCache {
    /// Where the cache itself is saved.
    inner: String,
    cache: Vec<(String, String)>,
    expiration_duration: ExpirationUnits,
    cache_dir: String,
}

impl PageCache {
    #[verifier::type_invariant]
    spec fn inv(&self) -> bool {
        distinct_keys(self.cache@)
    }

    /// The cached pages: address to file.
    pub closed spec fn pages(&self) -> Map<Seq<char>, Seq<char>> {
        table_view(self.cache@)
    }

    /// The cached pages in the order in which they are listed.
    pub closed spec fn listed(&self) -> Seq<(String, String)> {
        self.cache@
    }

    pub closed spec fn cache_dir_spec(&self) -> Seq<char> {
        self.cache_dir@
    }

    pub closed spec fn location_spec(&self) -> Seq<char> {
        self.inner@
    }

    pub closed spec fn expiration_spec(&self) -> ExpirationUnits {
        self.expiration_duration
    }

    /// An empty cache saved at `inner`, keeping pages in `cache_dir`.
    pub fn new(inner: String, cache_dir: String, expiration_duration: ExpirationUnits) -> (c:
        PageCache)
        ensures
            c.pages() == Map::<Seq<char>, Seq<char>>::empty(),
            c.location_spec() == inner@,
            c.cache_dir_spec() == cache_dir@,
            c.expiration_spec() == expiration_duration,
    {
        let c = PageCache { inner, cache: Vec::new(), expiration_duration, cache_dir };
        assert(c.pages() =~= Map::<Seq<char>, Seq<char>>::empty());
        c
    }

    /// A cache saved at `inner` that holds `entries`, of which the first for an address wins.
    pub fn from_entries(
        inner: String,
        cache_dir: String,
        expiration_duration: ExpirationUnits,
        entries: Vec<(String, String)>,
    ) -> (c: PageCache)
        ensures
            c.location_spec() == inner@,
            c.cache_dir_spec() == cache_dir@,
            c.expiration_spec() == expiration_duration,
            c.pages() == first_wins(entries@),
    {
        let mut c = PageCache::new(inner, cache_dir, expiration_duration);
        let mut i: usize = 0;
        while i < entries.len()
            invariant
                i <= entries.len(),
                c.location_spec() == inner@,
                c.cache_dir_spec() == cache_dir@,
                c.expiration_spec() == expiration_duration,
                c.pages() == first_wins(entries@.take(i as int)),
            decreases entries.len() - i,
        {
            let url = entries[i].0.clone();
            let path = entries[i].1.clone();
            let _ = c.fetch_or_insert(url.as_str(), path);
            proof {
                assert(entries@.take(i + 1).drop_last() =~= entries@.take(i as int));
                assert(entries@.take(i + 1).last() == entries@[i as int]);
            }
            i = i + 1;
        }
        assert(entries@.take(entries.len() as int) =~= entries@);
        c
    }

    /// Where the cache itself is saved.
    pub fn location(&self) -> (res: &str)
        ensures
            res@ == self.location_spec(),
    {
        self.inner.as_str()
    }

    /// The directory that holds the cached pages.
    pub fn cache_dir(&self) -> (res: &str)
        ensures
            res@ == self.cache_dir_spec(),
    {
        self.cache_dir.as_str()
    }

    /// The expiration rule.
    pub fn expiration(&self) -> (res: ExpirationUnits)
        ensures
            res == self.expiration_spec(),
    {
        self.expiration_duration
    }

    /// The cached pages, address and file, in the order they are listed.
    pub fn entries(&self) -> (res: &Vec<(String, String)>)
        ensures
            res@ == self.listed(),
            distinct_keys(self.listed()),
            table_view(self.listed()) == self.pages(),
    {
        proof {
            use_type_invariant(self);
        }
        &self.cache
    }

    /// The name of the file that caches the page at `url`.
    pub fn generate_file_name(url: &str) -> (res: String)
        ensures
            res@ == file_name_spec(url@),
    {
        let cs = chars_of(url);
        let mut end = cs.len();
        if end > 0 && cs[end - 1] == '/' {
            end = end - 1;
        }
        let ghost t = if cs@.len() > 0 && cs@.last() == '/' {
            cs@.drop_last()
        } else {
            cs@
        };
        assert(t =~= cs@.take(end as int));
        let mut out: Vec<char> = Vec::new();
        let mut i: usize = 0;
        while i < end
            invariant
                end <= cs.len(),
                i <= end,
                t == cs@.take(end as int),
                out@ == t.take(i as int).map_values(
                    |c: char|
                        if invalid_file_char(c) {
                            '-'
                        } else {
                            c
                        },
                ),
            decreases end - i,
        {
            let c = cs[i];
            let r = if c == '/' || c == '\\' || c == '?' || c == '%' || c == '*' || c == ':' || c
                == '|' || c == '.' || c == '"' || c == '<' || c == '>' {
                '-'
            } else {
                c
            };
            out.push(r);
            assert(t.take(i + 1) =~= t.take(i as int).push(t[i as int]));
            i = i + 1;
        }
        assert(t.take(end as int) =~= t);
        string_of(&out)
    }

    fn position_of(&self, url: &str) -> (res: Option<usize>)
        ensures
            res matches Some(i) ==> i < self.cache.len() && self.cache@[i as int].0@ == url@,
            res is None ==> forall|i: int| 0 <= i < self.cache.len() ==> #[trigger] self.cache@[i].0@ != url@,
    {
        let key = url.to_owned();
        let mut i: usize = 0;
        while i < self.cache.len()
            invariant
                i <= self.cache.len(),
                key@ == url@,
                forall|k: int| 0 <= k < i ==> #[trigger] self.cache@[k].0@ != url@,
            decreases self.cache.len() - i,
        {
            if self.cache[i].0 == key {
                return Some(i);
            }
            i = i + 1;
        }
        None
    }

    /// The file that caches the page at `url`, when it was fetched before.
    pub fn cached_path(&self, url: &str) -> (res: Option<String>)
        ensures
            res is Some <==> self.pages().dom().contains(url@),
            res matches Some(p) ==> p@ == self.pages()[url@],
    {
        proof {
            use_type_invariant(self);
        }
        match self.position_of(url) {
            Some(i) => {
                proof {
                    let k = choose|k: int|
                        0 <= k < self.cache@.len() && #[trigger] self.cache@[k].0@ == url@;
                    assert(k == i);
                }
                Some(self.cache[i].1.clone())
            },
            None => None,
        }
    }

    /// Records that the page at `url` is kept in `destination`, unless a file is already
    /// recorded for it; returns the file recorded for `url` afterwards.
    pub fn fetch_or_insert(&mut self, url: &str, destination: String) -> (res: String)
        ensures
            old(self).pages().dom().contains(url@) ==> final(self).pages() == old(self).pages(),
            !old(self).pages().dom().contains(url@) ==> final(self).pages() == old(
                self,
            ).pages().insert(url@, destination@),
            res@ == final(self).pages()[url@],
            final(self).location_spec() == old(self).location_spec(),
            final(self).cache_dir_spec() == old(self).cache_dir_spec(),
            final(self).expiration_spec() == old(self).expiration_spec(),
    {
        proof {
            use_type_invariant(&*self);
        }
        match self.position_of(url) {
            Some(i) => {
                proof {
                    let k = choose|k: int|
                        0 <= k < self.cache@.len() && #[trigger] self.cache@[k].0@ == url@;
                    assert(k == i);
                }
                self.cache[i].1.clone()
            },
            None => {
                let ghost s = self.cache@;
                let key = url.to_owned();
                let entry = (key, destination);
                let ghost t = s.push(entry);
                proof {
                    assert forall|a: int, b: int|
                        0 <= a < t.len() && 0 <= b < t.len() && a != b implies #[trigger] t[a].0@
                        != #[trigger] t[b].0@ by {
                        if a < s.len() && b < s.len() {
                            assert(t[a] == s[a] && t[b] == s[b]);
                        } else if a < s.len() {
                            assert(t[a] == s[a]);
                        } else {
                            assert(t[b] == s[b]);
                        }
                    }
                }
                let mut v = Vec::new();
                std::mem::swap(&mut v, &mut self.cache);
                v.push(entry);
                self.cache = v;
                proof {
                    assert forall|k: Seq<char>| #[trigger] table_view(t).dom().contains(k) == (
                    table_view(s).dom().contains(k) || k == url@) by {
                        if table_view(s).dom().contains(k) {
                            let j = choose|j: int| 0 <= j < s.len() && #[trigger] s[j].0@ == k;
                            assert(t[j].0@ == k);
                        }
                        if k == url@ {
                            assert(t[s.len() as int].0@ == k);
                        }
                        if table_view(t).dom().contains(k) {
                            let j = choose|j: int| 0 <= j < t.len() && #[trigger] t[j].0@ == k;
                            if j < s.len() {
                                assert(s[j].0@ == k);
                            }
                        }
                    }
                    assert forall|k: Seq<char>| #[trigger] table_view(t).dom().contains(k) implies table_view(
                        t,
                    )[k] == table_view(s).insert(url@, destination@)[k] by {
                        let j = choose|j: int| 0 <= j < t.len() && #[trigger] t[j].0@ == k;
                        if j < s.len() {
                            let j2 = choose|j2: int| 0 <= j2 < s.len() && #[trigger] s[j2].0@ == k;
                            assert(t[j2].0@ == k);
                        }
                    }
                    assert(table_view(t) =~= table_view(s).insert(url@, destination@));
                }
                let r = self.cache[self.cache.len() - 1].1.clone();
                r
            },
        }
    }

    /// Keeps the pages for which `keep` holds: `keep[i]` tells it of the `i`-th listed page.
    pub fn retain_entries(&mut self, keep: &Vec<bool>)
        requires
            keep.len() == old(self).listed().len(),
        ensures
            final(self).pages().dom().subset_of(old(self).pages().dom()),
            forall|k: Seq<char>| #[trigger]
                final(self).pages().dom().contains(k) ==> final(self).pages()[k] == old(
                    self,
                ).pages()[k],
            forall|i: int|
                0 <= i < keep.len() ==> (#[trigger] keep@[i] <==> final(self).pages().dom().contains(
                    old(self).listed()[i].0@,
                )),
            final(self).location_spec() == old(self).location_spec(),
            final(self).cache_dir_spec() == old(self).cache_dir_spec(),
            final(self).expiration_spec() == old(self).expiration_spec(),
    {
        proof {
            use_type_invariant(&*self);
        }
        let ghost old_s = self.cache@;
        let mut kept: Vec<(String, String)> = Vec::new();
        let ghost mut origin: Seq<int> = Seq::empty();
        let mut i: usize = 0;
        while i < self.cache.len()
            invariant
                i <= self.cache.len(),
                keep.len() == self.cache.len(),
                old_s == self.cache@,
                distinct_keys(old_s),
                distinct_keys(kept@),
                origin.len() == kept.len(),
                forall|k: int|
                    0 <= k < kept.len() ==> 0 <= #[trigger] origin[k] < i && keep@[origin[k]]
                        && kept@[k].0@ == old_s[origin[k]].0@ && kept@[k].1@ == old_s[origin[k]].1@,
                forall|j: int|
                    0 <= j < i ==> (#[trigger] keep@[j] <==> exists|k: int|
                        0 <= k < kept.len() && #[trigger] kept@[k].0@ == old_s[j].0@),
            decreases self.cache.len() - i,
        {
            let ghost prev = kept@;
            let ghost prev_origin = origin;
            if keep[i] {
                let entry = (self.cache[i].0.clone(), self.cache[i].1.clone());
                kept.push(entry);
                proof {
                    origin = origin.push(i as int);
                    assert forall|a: int, b: int|
                        0 <= a < kept.len() && 0 <= b < kept.len() && a != b implies #[trigger] kept@[a].0@
                        != #[trigger] kept@[b].0@ by {
                        if a < prev.len() && b < prev.len() {
                            assert(kept@[a] == prev[a] && kept@[b] == prev[b]);
                        } else if a < prev.len() {
                            assert(kept@[a] == prev[a]);
                            assert(origin[a] != i);
                        } else {
                            assert(kept@[b] == prev[b]);
                            assert(origin[b] != i);
                        }
                    }
                    assert forall|k: int|
                        0 <= k < kept.len() implies 0 <= #[trigger] origin[k] < i + 1 && keep@[origin[k]]
                            && kept@[k].0@ == old_s[origin[k]].0@ && kept@[k].1@ == old_s[origin[k]].1@ by {
                        if k < prev.len() {
                            assert(origin[k] == prev_origin[k]);
                            assert(kept@[k] == prev[k]);
                        }
                    }
                    assert forall|j: int| 0 <= j < i + 1 implies (#[trigger] keep@[j] <==> exists|k: int|
                        0 <= k < kept.len() && #[trigger] kept@[k].0@ == old_s[j].0@) by {
                        if j < i {
                            if keep@[j] {
                                let k = choose|k: int| 0 <= k < prev.len() && #[trigger] prev[k].0@ == old_s[j].0@;
                                assert(kept@[k] == prev[k]);
                            }
                            if exists|k: int| 0 <= k < kept.len() && #[trigger] kept@[k].0@ == old_s[j].0@ {
                                let k = choose|k: int| 0 <= k < kept.len() && #[trigger] kept@[k].0@ == old_s[j].0@;
                                if k < prev.len() {
                                    assert(kept@[k] == prev[k]);
                                } else {
                                    assert(old_s[i as int].0@ == old_s[j].0@);
                                }
                            }
                        } else {
                            assert(kept@[prev.len() as int].0@ == old_s[j].0@);
                        }
                    }
                }
            } else {
                proof {
                    assert forall|k: int| 0 <= k < kept.len() implies #[trigger] kept@[k].0@ != old_s[i as int].0@ by {
                        assert(origin[k] != i);
                    }
                }
            }
            i = i + 1;
        }
        let ghost new_s = kept@;
        self.cache = kept;
        proof {
            assert forall|k: Seq<char>| #[trigger] table_view(new_s).dom().contains(k) implies table_view(
                old_s,
            ).dom().contains(k) && table_view(new_s)[k] == table_view(old_s)[k] by {
                let a = choose|a: int| 0 <= a < new_s.len() && #[trigger] new_s[a].0@ == k;
                let b = origin[a];
                assert(old_s[b].0@ == k);
                let a2 = choose|a2: int| 0 <= a2 < new_s.len() && #[trigger] new_s[a2].0@ == k;
                assert(a2 == a);
                let b2 = choose|b2: int| 0 <= b2 < old_s.len() && #[trigger] old_s[b2].0@ == k;
                assert(b2 == b);
            }
        }
    }

    /// Forgets the pages that validation does not keep: `checks[i]` tells whether the file
    /// of the `i`-th listed page exists and what is known of its age.
    pub fn validate_cache(&mut self, checks: &Vec<(bool, PageAge)>)
        requires
            checks.len() == old(self).listed().len(),
        ensures
            final(self).pages().dom().subset_of(old(self).pages().dom()),
            forall|k: Seq<char>| #[trigger]
                final(self).pages().dom().contains(k) ==> final(self).pages()[k] == old(
                    self,
                ).pages()[k],
            forall|i: int|
                0 <= i < checks.len() ==> (keep_page_spec(#[trigger] checks@[i].0, checks@[i].1)
                    <==> final(self).pages().dom().contains(old(self).listed()[i].0@)),
            final(self).location_spec() == old(self).location_spec(),
            final(self).cache_dir_spec() == old(self).cache_dir_spec(),
            final(self).expiration_spec() == old(self).expiration_spec(),
    {
        let mut keep: Vec<bool> = Vec::new();
        let mut i: usize = 0;
        while i < checks.len()
            invariant
                i <= checks.len(),
                keep.len() == i,
                forall|k: int| 0 <= k < i ==> keep@[k] == keep_page_spec(#[trigger] checks@[k].0, checks@[k].1),
            decreases checks.len() - i,
        {
            let (exists, age) = checks[i];
            keep.push(keep_page(exists, age));
            i = i + 1;
        }
        self.retain_entries(&keep);
    }
}

/// A cache file name holds none of the characters that cannot stand in a file name, and is
/// never longer than the address it is made from.
pub proof fn law_file_name_is_clean(url: Seq<char>)
    ensures
        forall|i: int|
            0 <= i < file_name_spec(url).len() ==> !invalid_file_char(#[trigger] file_name_spec(url)[i]),
        file_name_spec(url).len() <= url.len(),
{
}

/// The file first recorded for an address stays: recording another file for the same
/// address afterwards changes nothing.
pub proof fn law_first_file_wins(
    start: PageCache,
    first: PageCache,
    second: PageCache,
    url: Seq<char>,
    d1: Seq<char>,
)
    requires
        !start.pages().dom().contains(url),
        first.pages() == start.pages().insert(url, d1),
        first.pages().dom().contains(url) ==> second.pages() == first.pages(),
    ensures
        second.pages().dom().contains(url),
        second.pages()[url] == d1,
{
}

/// Naming a cache file after a name that was already made from an address changes nothing.
pub proof fn law_file_name_is_stable(url: Seq<char>)
    ensures
        file_name_spec(file_name_spec(url)) == file_name_spec(url),
{
    let t = file_name_spec(url);
    assert(t.len() > 0 ==> t.last() != '/');
    assert(file_name_spec(t) =~= t);
}

} // verus!
