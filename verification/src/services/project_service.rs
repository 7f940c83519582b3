//! A project: its id, its settings, and the accounting of the time recorded
//! in its timelog.

use vstd::prelude::*;

use crate::config::GITHUB_PROJECT_API_URL;
use crate::services::clients::github_client::{github_headers, GitHubClient, GitHubProjectOwner};
use crate::services::project_config_service::{ProjectConfig, ProjectSettings};
use crate::utils::project_config::{
    get_github_issue_nr_from_task_description, get_github_organization_from_url, issue_nr_of,
    organization_from_url,
};
use crate::text::{
    lemma_split_nonempty, parse_u8, parse_unsigned, split_seq, split_str, to_uppercase,
    unicode_uppercase,
};
use crate::utils::csv::{parse_rows, rows_seq};
use crate::utils::time::{his_seq, parse_his, parsed_seconds, seconds_to_his};

verus! {

/// A project whose tasks are logged.
pub struct Project {
    pub id: String,
    pub config: Option<ProjectConfig>,
}

impl Project {
    /// The project named `id`: its id is `id` in upper case, and its
    /// settings are those filed under that id.
    pub fn new(id: &str) -> (p: Project)
        ensures
            p.id@ == unicode_uppercase(id@),
            p.config matches Some(c) && c.project_id@ == unicode_uppercase(p.id@),
    {
        let upper = to_uppercase(id);
        let project = Project { id: upper, config: None };
        let id_for_config = Project { id: project.id.clone(), config: None };
        let config = ProjectConfig::new(id_for_config);
        Project { config: Some(config), ..project }
    }

    /// The rows of the project's timelog.
    pub fn tasks(&self, timelog: &str) -> (rows: Vec<Vec<String>>)
        ensures
            rows.deep_view() == rows_seq(timelog@),
    {
        parse_rows(timelog)
    }
}

// ---------------------------------------------------------------------------
// Time accounting
// ---------------------------------------------------------------------------

/// Whether every row has the four fields of a task: id, date, description
/// and duration.
pub open spec fn complete_rows(rows: Seq<Seq<Seq<char>>>) -> bool {
    forall|i: int| 0 <= i < rows.len() ==> (#[trigger] rows[i]).len() >= 4
}

/// The duration of a row in seconds, where its fourth field reads as
/// `HH:MM:SS`.
pub open spec fn row_seconds(row: Seq<Seq<char>>) -> Option<u32> {
    match parsed_seconds(row[3]) {
        Some(v) => Some(v as u32),
        None => None,
    }
}

/// The task a row is counted under: its description up to the first space.
pub open spec fn task_key(row: Seq<Seq<char>>) -> Seq<char> {
    split_seq(row[2], ' ')[0]
}

/// The durations of the rows.
pub open spec fn rows_seconds(rows: Seq<Seq<Seq<char>>>) -> Seq<Option<u32>> {
    rows.map_values(|r: Seq<Seq<char>>| row_seconds(r))
}

/// The tasks the rows are counted under.
pub open spec fn rows_keys(rows: Seq<Seq<Seq<char>>>) -> Seq<Seq<char>> {
    rows.map_values(|r: Seq<Seq<char>>| task_key(r))
}

/// The sum of the durations that are known.
pub open spec fn sum_seconds(times: Seq<Option<u32>>) -> int
    decreases times.len(),
{
    if times.len() == 0 {
        0
    } else {
        sum_seconds(times.drop_last()) + match times.last() {
            Some(s) => s as int,
            None => 0,
        }
    }
}

/// The position of the first entry for `key`, or -1.
pub open spec fn key_index(t: Seq<(Seq<char>, int)>, key: Seq<char>) -> int
    decreases t.len(),
{
    if t.len() == 0 {
        -1
    } else if key_index(t.drop_last(), key) >= 0 {
        key_index(t.drop_last(), key)
    } else if t.last().0 == key {
        t.len() - 1
    } else {
        -1
    }
}

/// The totals with `s` seconds added for `key`: to its entry where it has
/// one, else in a new entry at the end.
pub open spec fn add_to(t: Seq<(Seq<char>, int)>, key: Seq<char>, s: int) -> Seq<(Seq<char>, int)> {
    let i = key_index(t, key);
    if i >= 0 {
        t.update(i, (key, t[i].1 + s))
    } else {
        t.push((key, s))
    }
}

/// The time per task, in the order in which the tasks first appear among
/// the rows whose duration is known.
pub open spec fn tally(keys: Seq<Seq<char>>, times: Seq<Option<u32>>) -> Seq<(Seq<char>, int)>
    recommends
        keys.len() == times.len(),
    decreases times.len(),
{
    if times.len() == 0 || keys.len() == 0 {
        Seq::empty()
    } else {
        let t = tally(keys.drop_last(), times.drop_last());
        match times.last() {
            Some(s) => add_to(t, keys.last(), s as int),
            None => t,
        }
    }
}

/// The time recorded in a timelog, in seconds.
pub open spec fn total_of_rows(rows: Seq<Seq<Seq<char>>>) -> int {
    sum_seconds(rows_seconds(rows))
}

/// The time per task recorded in a timelog, in seconds.
pub open spec fn tally_of_rows(rows: Seq<Seq<Seq<char>>>) -> Seq<(Seq<char>, int)> {
    tally(rows_keys(rows), rows_seconds(rows))
}

/// Whether every total is at most `u32::MAX`.
pub open spec fn tally_fits(t: Seq<(Seq<char>, int)>) -> bool {
    forall|i: int| 0 <= i < t.len() ==> (#[trigger] t[i]).1 <= u32::MAX
}

/// The totals as `u32` values.
pub open spec fn tally_u32(t: Seq<(Seq<char>, int)>) -> Seq<(Seq<char>, u32)> {
    t.map_values(|e: (Seq<char>, int)| (e.0, e.1 as u32))
}

/// The largest total worth telling apart from an overflow.
pub open spec fn cap() -> int {
    0x1_0000_0000
}

/// A value, or `cap()` where it is larger.
pub open spec fn capped(v: int) -> int {
    if v < cap() {
        v
    } else {
        cap()
    }
}

// ---------------------------------------------------------------------------
// Lemmas and laws of the accounting
// ---------------------------------------------------------------------------

/// `key_index` is the position of the first entry for the key.
pub proof fn lemma_key_index(t: Seq<(Seq<char>, int)>, key: Seq<char>)
    ensures
        -1 <= key_index(t, key) < t.len(),
        key_index(t, key) >= 0 ==> t[key_index(t, key)].0 == key,
        forall|j: int| 0 <= j < t.len() && (j < key_index(t, key) || key_index(t, key) < 0)
            ==> (#[trigger] t[j]).0 != key,
    decreases t.len(),
{
    if t.len() > 0 {
        lemma_key_index(t.drop_last(), key);
        let i0 = key_index(t.drop_last(), key);
        assert forall|j: int| 0 <= j < t.len() && (j < key_index(t, key) || key_index(t, key) < 0)
            implies (#[trigger] t[j]).0 != key by {
            if j < t.len() - 1 {
                assert(t.drop_last()[j] == t[j]);
            }
        }
    }
}

/// The sum of the totals.
pub open spec fn sum_totals(t: Seq<(Seq<char>, int)>) -> int
    decreases t.len(),
{
    if t.len() == 0 {
        0
    } else {
        sum_totals(t.drop_last()) + t.last().1
    }
}

/// Adding to one total adds to the sum of the totals.
proof fn lemma_sum_totals_update(t: Seq<(Seq<char>, int)>, i: int, key: Seq<char>, s: int)
    requires
        0 <= i < t.len(),
    ensures
        sum_totals(t.update(i, (key, t[i].1 + s))) == sum_totals(t) + s,
    decreases t.len(),
{
    let u = t.update(i, (key, t[i].1 + s));
    if i == t.len() - 1 {
        assert(u.drop_last() =~= t.drop_last());
    } else {
        lemma_sum_totals_update(t.drop_last(), i, key, s);
        assert(u.drop_last() =~= t.drop_last().update(i, (key, t[i].1 + s)));
    }
}

/// The per-task totals add up to the total: no known duration is lost or
/// counted twice.
pub proof fn law_tally_sums_to_total(keys: Seq<Seq<char>>, times: Seq<Option<u32>>)
    requires
        keys.len() == times.len(),
    ensures
        sum_totals(tally(keys, times)) == sum_seconds(times),
    decreases times.len(),
{
    if times.len() > 0 {
        law_tally_sums_to_total(keys.drop_last(), times.drop_last());
        let t = tally(keys.drop_last(), times.drop_last());
        match times.last() {
            Some(s) => {
                lemma_key_index(t, keys.last());
                let i = key_index(t, keys.last());
                if i >= 0 {
                    lemma_sum_totals_update(t, i, keys.last(), s as int);
                } else {
                    assert(t.push((keys.last(), s as int)).drop_last() =~= t);
                }
            },
            None => {},
        }
    }
}

/// Each task appears once among the per-task totals, and every total is
/// between zero and the total.
pub proof fn law_tally_distinct_and_bounded(keys: Seq<Seq<char>>, times: Seq<Option<u32>>)
    requires
        keys.len() == times.len(),
    ensures
        forall|i: int, j: int|
            0 <= i < j < tally(keys, times).len() ==> (#[trigger] tally(keys, times)[i]).0
                != (#[trigger] tally(keys, times)[j]).0,
        forall|i: int|
            0 <= i < tally(keys, times).len() ==> 0 <= (#[trigger] tally(keys, times)[i]).1
                <= sum_seconds(times),
    decreases times.len(),
{
    if times.len() > 0 {
        law_tally_distinct_and_bounded(keys.drop_last(), times.drop_last());
        let t = tally(keys.drop_last(), times.drop_last());
        let u = tally(keys, times);
        match times.last() {
            Some(s) => {
                lemma_key_index(t, keys.last());
                lemma_sum_nonneg(times.drop_last());
                let k = key_index(t, keys.last());
                assert(u == add_to(t, keys.last(), s as int));
                if k >= 0 {
                    assert(u.len() == t.len());
                } else {
                    assert(u.len() == t.len() + 1);
                }
                assert forall|i: int, j: int| 0 <= i < j < u.len() implies (#[trigger] u[i]).0
                    != (#[trigger] u[j]).0 by {
                    if k >= 0 {
                        assert(u[i].0 == t[i].0);
                        assert(u[j].0 == t[j].0);
                    } else if j == t.len() {
                        assert(u[i] == t[i]);
                    } else {
                        assert(u[i] == t[i]);
                        assert(u[j] == t[j]);
                    }
                }
                assert forall|i: int| 0 <= i < u.len() implies 0 <= (#[trigger] u[i]).1
                    <= sum_seconds(times) by {
                    if k >= 0 && i != k {
                        assert(u[i] == t[i]);
                    } else if k < 0 && i < t.len() {
                        assert(u[i] == t[i]);
                    }
                }
            },
            None => {},
        }
    }
}

/// The sum of the known durations of the rows whose task is `key`.
pub open spec fn seconds_of_key(keys: Seq<Seq<char>>, times: Seq<Option<u32>>, key: Seq<char>) -> int
    decreases times.len(),
{
    if times.len() == 0 || keys.len() == 0 {
        0
    } else {
        seconds_of_key(keys.drop_last(), times.drop_last(), key) + if keys.last() == key {
            match times.last() {
                Some(s) => s as int,
                None => 0,
            }
        } else {
            0
        }
    }
}

/// Each row's time goes to its own task: the total of a task is the sum of
/// the known durations of exactly the rows counted under it, and a task
/// without an entry has no known time.
pub proof fn law_tally_is_time_of_each_task(keys: Seq<Seq<char>>, times: Seq<Option<u32>>)
    requires
        keys.len() == times.len(),
    ensures
        forall|i: int|
            0 <= i < tally(keys, times).len() ==> (#[trigger] tally(keys, times)[i]).1
                == seconds_of_key(keys, times, tally(keys, times)[i].0),
        forall|key: Seq<char>|
            (forall|i: int| 0 <= i < tally(keys, times).len() ==> (#[trigger] tally(keys, times)[i]).0
                != key) ==> #[trigger] seconds_of_key(keys, times, key) == 0,
    decreases times.len(),
{
    if times.len() > 0 {
        let kd = keys.drop_last();
        let td = times.drop_last();
        law_tally_is_time_of_each_task(kd, td);
        law_tally_distinct_and_bounded(kd, td);
        let t = tally(kd, td);
        let u = tally(keys, times);
        let kl = keys.last();
        match times.last() {
            Some(s) => {
                lemma_key_index(t, kl);
                let k = key_index(t, kl);
                assert(u == add_to(t, kl, s as int));
                assert forall|i: int| 0 <= i < u.len() implies (#[trigger] u[i]).1
                    == seconds_of_key(keys, times, u[i].0) by {
                    let key = u[i].0;
                    assert(seconds_of_key(keys, times, key) == seconds_of_key(kd, td, key) + if kl
                        == key {
                        s as int
                    } else {
                        0
                    });
                    if k >= 0 {
                        if i != k {
                            assert(u[i] == t[i]);
                            assert(t[i].0 != t[k].0);
                            assert(t[i].1 == seconds_of_key(kd, td, t[i].0));
                        } else {
                            assert(t[k].1 == seconds_of_key(kd, td, t[k].0));
                        }
                    } else {
                        if i < t.len() {
                            assert(u[i] == t[i]);
                            assert(t[i].1 == seconds_of_key(kd, td, t[i].0));
                        } else {
                            assert(u[i] == (kl, s as int));
                            assert(forall|j: int| 0 <= j < t.len() ==> (#[trigger] t[j]).0 != kl);
                            assert(seconds_of_key(kd, td, kl) == 0);
                        }
                    }
                }
                assert forall|key: Seq<char>|
                    (forall|i: int| 0 <= i < u.len() ==> (#[trigger] u[i]).0 != key) implies
                    #[trigger] seconds_of_key(keys, times, key) == 0 by {
                    assert(seconds_of_key(keys, times, key) == seconds_of_key(kd, td, key) + if kl
                        == key {
                        s as int
                    } else {
                        0
                    });
                    if k >= 0 {
                        assert(u[k].0 == kl);
                        assert forall|i: int| 0 <= i < t.len() implies (#[trigger] t[i]).0 != key by {
                            assert(u[i].0 == t[i].0);
                        }
                    } else {
                        assert(u[t.len() as int].0 == kl);
                        assert forall|i: int| 0 <= i < t.len() implies (#[trigger] t[i]).0 != key by {
                            assert(u[i] == t[i]);
                        }
                    }
                }
            },
            None => {
                assert(u == t);
                assert forall|key: Seq<char>| #[trigger] seconds_of_key(keys, times, key)
                    == seconds_of_key(kd, td, key) by {}
            },
        }
    }
}

/// A sum of durations is never negative.
proof fn lemma_sum_nonneg(times: Seq<Option<u32>>)
    ensures
        sum_seconds(times) >= 0,
    decreases times.len(),
{
    if times.len() > 0 {
        lemma_sum_nonneg(times.drop_last());
    }
}

// ---------------------------------------------------------------------------
// Executable accounting
// ---------------------------------------------------------------------------

/// The duration of each row, in seconds, where its fourth field reads as
/// `HH:MM:SS`.
pub fn task_seconds(tasks: &Vec<Vec<String>>) -> (r: Vec<Option<u32>>)
    requires
        complete_rows(tasks.deep_view()),
    ensures
        r@ == rows_seconds(tasks.deep_view()),
        forall|i: int| 0 <= i < r@.len() ==> (#[trigger] r@[i] matches Some(x) ==> x < 86400),
{
    let mut r: Vec<Option<u32>> = Vec::new();
    let n = tasks.len();
    for i in 0..n
        invariant
            n == tasks@.len(),
            complete_rows(tasks.deep_view()),
            r@.len() == i,
            forall|k: int| 0 <= k < i ==> #[trigger] r@[k] == row_seconds(tasks.deep_view()[k]),
            forall|k: int| 0 <= k < i ==> (#[trigger] r@[k] matches Some(x) ==> x < 86400),
    {
        assert(tasks.deep_view()[i as int] == tasks@[i as int].deep_view());
        assert(tasks.deep_view()[i as int].len() >= 4);
        assert(tasks@[i as int]@[3]@ == tasks.deep_view()[i as int][3]);
        let secs = parse_his(tasks[i][3].as_str());
        r.push(secs);
    }
    assert(r@ =~= rows_seconds(tasks.deep_view()));
    r
}

/// The task each row is counted under: its description up to the first
/// space.
pub fn task_keys(tasks: &Vec<Vec<String>>) -> (r: Vec<String>)
    requires
        complete_rows(tasks.deep_view()),
    ensures
        r.deep_view() == rows_keys(tasks.deep_view()),
{
    let mut r: Vec<String> = Vec::new();
    let n = tasks.len();
    for i in 0..n
        invariant
            n == tasks@.len(),
            complete_rows(tasks.deep_view()),
            r@.len() == i,
            forall|k: int| 0 <= k < i ==> #[trigger] r@[k]@ == task_key(tasks.deep_view()[k]),
    {
        assert(tasks.deep_view()[i as int] == tasks@[i as int].deep_view());
        assert(tasks.deep_view()[i as int].len() >= 4);
        assert(tasks@[i as int]@[2]@ == tasks.deep_view()[i as int][2]);
        let mut words = split_str(tasks[i][2].as_str(), ' ');
        proof {
            lemma_split_nonempty(tasks.deep_view()[i as int][2], ' ');
        }
        let key = words.remove(0);
        r.push(key);
    }
    assert(r.deep_view() =~= rows_keys(tasks.deep_view()));
    r
}

/// The sum of the known durations, where it is at most `u32::MAX`.
pub fn total_of(times: &Vec<Option<u32>>) -> (r: Option<u32>)
    ensures
        sum_seconds(times@) >= 0,
        r == (if sum_seconds(times@) <= u32::MAX {
            Some(sum_seconds(times@) as u32)
        } else {
            None
        }),
{
    let mut acc: u64 = 0;
    let n = times.len();
    for i in 0..n
        invariant
            n == times@.len(),
            sum_seconds(times@.take(i as int)) >= 0,
            acc == capped(sum_seconds(times@.take(i as int))),
    {
        proof {
            assert(times@.take(i + 1).drop_last() =~= times@.take(i as int));
            assert(times@.take(i + 1).last() == times@[i as int]);
        }
        match times[i] {
            Some(s) => {
                let v = acc + (s as u64);
                acc = if v < 0x1_0000_0000 {
                    v
                } else {
                    0x1_0000_0000
                };
            },
            None => {},
        }
    }
    assert(times@.take(n as int) =~= times@);
    if acc <= 0xffff_ffff {
        Some(acc as u32)
    } else {
        None
    }
}

/// Whether capped totals stand for the given totals.
pub open spec fn entries_match(e: Seq<(String, u64)>, t: Seq<(Seq<char>, int)>) -> bool {
    &&& e.len() == t.len()
    &&& forall|j: int|
        0 <= j < e.len() ==> {
            &&& (#[trigger] e[j]).0@ == t[j].0
            &&& t[j].1 >= 0
            &&& e[j].1 == capped(t[j].1)
        }
}

/// The time per task, in the order in which the tasks first appear among
/// the rows whose duration is known; `None` where some task's time exceeds
/// `u32::MAX`.
pub fn per_task_of(keys: &Vec<String>, times: &Vec<Option<u32>>) -> (r: Option<Vec<(String, u32)>>)
    requires
        keys@.len() == times@.len(),
    ensures
        match r {
            Some(v) => tally_fits(tally(keys.deep_view(), times@)) && v.deep_view() == tally_u32(
                tally(keys.deep_view(), times@),
            ),
            None => !tally_fits(tally(keys.deep_view(), times@)),
        },
{
    let mut entries: Vec<(String, u64)> = Vec::new();
    let n = times.len();
    for i in 0..n
        invariant
            n == times@.len(),
            n == keys@.len(),
            entries_match(entries@, tally(keys.deep_view().take(i as int), times@.take(i as int))),
    {
        let ghost ks = keys.deep_view().take(i as int);
        let ghost ts = times@.take(i as int);
        let ghost t = tally(ks, ts);
        let ghost key_i = keys@[i as int]@;
        let ghost t1 = tally(keys.deep_view().take(i + 1), times@.take(i + 1));
        proof {
            assert(keys.deep_view().take(i + 1).drop_last() =~= ks);
            assert(times@.take(i + 1).drop_last() =~= ts);
            assert(keys.deep_view().take(i + 1).last() == key_i);
            assert(times@.take(i + 1).last() == times@[i as int]);
            assert(keys.deep_view().take(i + 1).len() == i + 1);
            lemma_key_index(t, key_i);
        }
        match times[i] {
            Some(s) => {
                assert(t1 == add_to(t, key_i, s as int));
                let m = entries.len();
                let mut k: usize = 0;
                let mut found = false;
                while k < m && !found
                    invariant
                        m == entries@.len(),
                        i < keys@.len(),
                        key_i == keys@[i as int]@,
                        k <= m,
                        found ==> k < m && entries@[k as int].0@ == key_i,
                        forall|j: int| 0 <= j < k ==> (#[trigger] entries@[j]).0@ != key_i,
                    decreases m - k + (if found {
                            0int
                        } else {
                            1int
                        }),
                {
                    if entries[k].0 == keys[i] {
                        found = true;
                    } else {
                        k = k + 1;
                    }
                }
                if found {
                    proof {
                        assert forall|j: int| 0 <= j < k implies (#[trigger] t[j]).0 != key_i by {
                            assert(entries@[j].0@ == t[j].0);
                        }
                        assert(t[k as int].0 == key_i);
                        assert(key_index(t, key_i) == k);
                        assert(t1 == t.update(k as int, (key_i, t[k as int].1 + s)));
                    }
                    let old_v = entries[k].1;
                    let v = old_v + (s as u64);
                    let nv = if v < 0x1_0000_0000 {
                        v
                    } else {
                        0x1_0000_0000
                    };
                    let key = keys[i].clone();
                    let ghost before = entries@;
                    entries.set(k, (key, nv));
                    proof {
                        assert forall|j: int| 0 <= j < entries@.len() implies {
                            &&& (#[trigger] entries@[j]).0@ == t1[j].0
                            &&& t1[j].1 >= 0
                            &&& entries@[j].1 == capped(t1[j].1)
                        } by {
                            if j != k {
                                assert(entries@[j] == before[j]);
                                assert(t1[j] == t[j]);
                            }
                        }
                    }
                } else {
                    proof {
                        assert forall|j: int| 0 <= j < t.len() implies (#[trigger] t[j]).0 != key_i by {
                            assert(entries@[j].0@ == t[j].0);
                        }
                        assert(key_index(t, key_i) == -1);
                        assert(t1 == t.push((key_i, s as int)));
                    }
                    let key = keys[i].clone();
                    let ghost before = entries@;
                    entries.push((key, s as u64));
                    proof {
                        assert forall|j: int| 0 <= j < entries@.len() implies {
                            &&& (#[trigger] entries@[j]).0@ == t1[j].0
                            &&& t1[j].1 >= 0
                            &&& entries@[j].1 == capped(t1[j].1)
                        } by {
                            if j < before.len() {
                                assert(entries@[j] == before[j]);
                                assert(t1[j] == t[j]);
                            }
                        }
                    }
                }
            },
            None => {
                assert(t1 == t);
            },
        }
        assert(entries@.len() == t1.len());
        assert(entries_match(entries@, t1));
    }
    proof {
        assert(keys.deep_view().take(n as int) =~= keys.deep_view());
        assert(times@.take(n as int) =~= times@);
    }
    let ghost t = tally(keys.deep_view(), times@);
    let mut out: Vec<(String, u32)> = Vec::new();
    let m = entries.len();
    for j in 0..m
        invariant
            m == entries@.len(),
            m == t.len(),
            t == tally(keys.deep_view(), times@),
            forall|q: int|
                0 <= q < m ==> {
                    &&& (#[trigger] entries@[q]).0@ == t[q].0
                    &&& t[q].1 >= 0
                    &&& entries@[q].1 == capped(t[q].1)
                },
            out@.len() == j,
            forall|q: int| 0 <= q < j ==> t[q].1 <= u32::MAX,
            forall|q: int|
                0 <= q < j ==> (#[trigger] out@[q]).0@ == t[q].0 && out@[q].1 == t[q].1,
    {
        let v = entries[j].1;
        if v > 0xffff_ffff {
            assert(t[j as int].1 > u32::MAX);
            return None;
        }
        let key = entries[j].0.clone();
        out.push((key, v as u32));
    }
    assert(tally_fits(t));
    assert(out.deep_view() =~= tally_u32(t));
    Some(out)
}

impl Project {
    /// The time recorded in the timelog whose rows are `tasks`, in seconds:
    /// the sum of the durations that read as `HH:MM:SS` (the others are
    /// skipped).
    pub fn total_seconds_spent(&self, tasks: &Vec<Vec<String>>) -> (r: Result<u32, String>)
        requires
            complete_rows(tasks.deep_view()),
            total_of_rows(tasks.deep_view()) <= u32::MAX,
        ensures
            r matches Ok(t) && t == total_of_rows(tasks.deep_view()),
    {
        let times = task_seconds(tasks);
        match total_of(&times) {
            Some(t) => Ok(t),
            None => Err(String::new()),
        }
    }

    /// The time recorded per task in the timelog whose rows are `tasks`: for
    /// each task (the description up to its first space), in the order in
    /// which the tasks first appear, the sum of its durations that read as
    /// `HH:MM:SS`.
    pub fn seconds_spent_per_task(&self, tasks: &Vec<Vec<String>>) -> (r: Result<
        Vec<(String, u32)>,
        String,
    >)
        requires
            complete_rows(tasks.deep_view()),
            tally_fits(tally_of_rows(tasks.deep_view())),
        ensures
            r matches Ok(v) && v.deep_view() == tally_u32(tally_of_rows(tasks.deep_view())),
    {
        let keys = task_keys(tasks);
        let times = task_seconds(tasks);
        assert(keys@.len() == keys.deep_view().len());
        match per_task_of(&keys, &times) {
            Some(v) => Ok(v),
            None => Err(String::new()),
        }
    }

    /// The time recorded in the timelog, or `None` where it exceeds
    /// `u32::MAX` (where adding it up overflows).
    pub fn checked_total_seconds_spent(&self, tasks: &Vec<Vec<String>>) -> (r: Option<u32>)
        requires
            complete_rows(tasks.deep_view()),
        ensures
            total_of_rows(tasks.deep_view()) >= 0,
            r == (if total_of_rows(tasks.deep_view()) <= u32::MAX {
                Some(total_of_rows(tasks.deep_view()) as u32)
            } else {
                None
            }),
    {
        let times = task_seconds(tasks);
        if total_of(&times).is_some() {
            match self.total_seconds_spent(tasks) {
                Ok(t) => Some(t),
                Err(_) => None,
            }
        } else {
            None
        }
    }

    /// The time recorded per task, or `None` where some task's time exceeds
    /// `u32::MAX` (where adding it up overflows).
    pub fn checked_seconds_spent_per_task(&self, tasks: &Vec<Vec<String>>) -> (r: Option<
        Vec<(String, u32)>,
    >)
        requires
            complete_rows(tasks.deep_view()),
        ensures
            match r {
                Some(v) => tally_fits(tally_of_rows(tasks.deep_view())) && v.deep_view()
                    == tally_u32(tally_of_rows(tasks.deep_view())),
                None => !tally_fits(tally_of_rows(tasks.deep_view())),
            },
    {
        let keys = task_keys(tasks);
        let times = task_seconds(tasks);
        assert(keys@.len() == keys.deep_view().len());
        if per_task_of(&keys, &times).is_some() {
            match self.seconds_spent_per_task(tasks) {
                Ok(v) => Some(v),
                Err(_) => None,
            }
        } else {
            None
        }
    }
}

// ---------------------------------------------------------------------------
// Synchronising spent time
// ---------------------------------------------------------------------------

/// How a synchronisation ends once the time per task is recorded: nothing
/// more, recording the total on the time log ticket, failing with an error,
/// or stopping the program with a message.
pub enum SyncFinish {
    Done,
    Update { ticket_nr: String, time: String },
    Fail(String),
    Abort(String),
}

/// What synchronising a project's spent time does: with this client, record
/// each time on its ticket in order (stopping at the first failure), then
/// end as `finish` says.
pub struct SyncPlan {
    pub client: GitHubClient,
    pub updates: Vec<(String, String)>,
    pub finish: SyncFinish,
}

/// The message with which adding up durations stops on an overflow.
pub open spec fn overflow_message() -> Seq<char> {
    "attempt to add with overflow"@
}

/// The tickets and times recorded for the time per task: for each task
/// whose key references an issue as `#NUMBER`, in order, that number and the
/// task's time as `HH:MM:SS`; the other tasks are skipped.
pub open spec fn planned_updates(t: Seq<(Seq<char>, u32)>) -> Seq<(Seq<char>, Seq<char>)>
    decreases t.len(),
{
    if t.len() == 0 {
        Seq::empty()
    } else {
        let p = planned_updates(t.drop_last());
        match issue_nr_of(t.last().0) {
            Ok(nr) => p.push((nr, his_seq(t.last().1 as nat))),
            Err(_) => p,
        }
    }
}

/// How a synchronisation ends: with no time log ticket, nothing more; with
/// one, an overflow of the total stops the program, a ticket that references
/// no issue fails, and otherwise the total is recorded on that issue.
pub open spec fn planned_finish(finish: SyncFinish, timelog_ticket_nr: Seq<char>, total: int) -> bool {
    if timelog_ticket_nr.len() == 0 {
        finish is Done
    } else if total > u32::MAX {
        finish matches SyncFinish::Abort(m) && m@ == overflow_message()
    } else {
        match issue_nr_of(timelog_ticket_nr) {
            Err(e) => finish matches SyncFinish::Fail(m) && m@ == e,
            Ok(nr) => finish matches SyncFinish::Update { ticket_nr, time } && ticket_nr@ == nr
                && time@ == his_seq(total as nat),
        }
    }
}

fn updates_for(per_task: &Vec<(String, u32)>) -> (r: Vec<(String, String)>)
    ensures
        r.deep_view() == planned_updates(per_task.deep_view()),
{
    let mut r: Vec<(String, String)> = Vec::new();
    let n = per_task.len();
    for i in 0..n
        invariant
            n == per_task@.len(),
            r.deep_view() == planned_updates(per_task.deep_view().take(i as int)),
    {
        proof {
            assert(per_task.deep_view().take(i + 1).drop_last() =~= per_task.deep_view().take(
                i as int,
            ));
            assert(per_task.deep_view().take(i + 1).last() == per_task.deep_view()[i as int]);
        }
        match get_github_issue_nr_from_task_description(per_task[i].0.as_str()) {
            Ok(nr) => {
                let time = seconds_to_his(per_task[i].1);
                let ghost before = r.deep_view();
                r.push((nr, time));
                assert(r.deep_view() =~= before.push((nr@, time@)));
            },
            Err(_) => {},
        }
    }
    assert(per_task.deep_view().take(n as int) =~= per_task.deep_view());
    r
}

impl Project {
    /// What synchronising the project's spent time to its GitHub project
    /// does, given its settings and the rows of its timelog: an error where
    /// the project URL has fewer than three parts; else a client of the
    /// project owned by the URL's organization, and the tickets and times to
    /// record. An overflow while adding up the time per task stops the
    /// program before anything is recorded.
    pub fn sync_spent_time_to_pm(&self, settings: &ProjectSettings, tasks: &Vec<Vec<String>>) -> (r:
        Result<SyncPlan, String>)
        requires
            complete_rows(tasks.deep_view()),
            organization_from_url(settings.project_url@) matches Ok((_, number)) ==> parse_unsigned(
                number,
                u8::MAX as int,
            ) is Some,
        ensures
            match organization_from_url(settings.project_url@) {
                Err(e) => r matches Err(m) && m@ == e,
                Ok((organization, number)) => r matches Ok(plan) && {
                    &&& plan.client.project_owner matches GitHubProjectOwner::Organization(o) && o@
                        == organization
                    &&& plan.client.project_number as int == parse_unsigned(
                        number,
                        u8::MAX as int,
                    )->0
                    &&& plan.client.spent_time_field_name@ == settings.spent_time_field_name@
                    &&& plan.client.graphql_client.endpoint@ == GITHUB_PROJECT_API_URL@
                    &&& plan.client.graphql_client.headers.deep_view() == github_headers(
                        settings.auth_token@,
                    )
                    &&& if tally_fits(tally_of_rows(tasks.deep_view())) {
                        &&& plan.updates.deep_view() == planned_updates(
                            tally_u32(tally_of_rows(tasks.deep_view())),
                        )
                        &&& planned_finish(
                            plan.finish,
                            settings.timelog_ticket_nr@,
                            total_of_rows(tasks.deep_view()),
                        )
                    } else {
                        &&& plan.updates@.len() == 0
                        &&& plan.finish matches SyncFinish::Abort(m) && m@ == overflow_message()
                    }
                },
            },
    {
        let (organization, number) = match get_github_organization_from_url(
            settings.project_url.as_str(),
        ) {
            Ok(parts) => parts,
            Err(e) => {
                return Err(e);
            },
        };
        let project_number = match parse_u8(number.as_str()) {
            Some(n) => n,
            None => 0,
        };
        let built = GitHubClient::builder().auth_token(settings.auth_token.as_str()).organization(
            organization.as_str(),
        ).project_number(project_number).spent_time_field_name(
            settings.spent_time_field_name.as_str(),
        ).build();
        let client = match built {
            Ok(c) => c,
            Err(e) => {
                return Err(String::from_str(e));
            },
        };
        let per_task = match self.checked_seconds_spent_per_task(tasks) {
            Some(v) => v,
            None => {
                return Ok(
                    SyncPlan {
                        client,
                        updates: Vec::new(),
                        finish: SyncFinish::Abort(String::from_str("attempt to add with overflow")),
                    },
                );
            },
        };
        let updates = updates_for(&per_task);
        let finish = if settings.timelog_ticket_nr.as_str().is_empty() {
            SyncFinish::Done
        } else {
            match self.checked_total_seconds_spent(tasks) {
                None => SyncFinish::Abort(String::from_str("attempt to add with overflow")),
                Some(total) => match get_github_issue_nr_from_task_description(
                    settings.timelog_ticket_nr.as_str(),
                ) {
                    Err(e) => SyncFinish::Fail(e),
                    Ok(nr) => SyncFinish::Update { ticket_nr: nr, time: seconds_to_his(total) },
                },
            }
        };
        Ok(SyncPlan { client, updates, finish })
    }
}

} // verus!
