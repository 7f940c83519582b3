//! The HTML export of a project: a template whose placeholders are replaced
//! by the project's id, its total time, a table of the time per task and the
//! log of its tasks, latest first.

use vstd::prelude::*;

use crate::services::project_service::{
    add_to, complete_rows, key_index, law_tally_distinct_and_bounded,
    law_tally_is_time_of_each_task, lemma_key_index, seconds_of_key, tally, tally_fits,
    tally_of_rows, tally_u32, total_of_rows, Project, rows_keys, rows_seconds,
};
use crate::text::{
    is_digit, lemma_replace_absent, lemma_replace_front, lemma_replace_prefix, push_str_chars,
    replace_seq, replace_str, string_of,
};
use crate::utils::time::{his_seq, lemma_his_chars, seconds_to_his};

verus! {

/// A table row of the time spent on a task.
pub open spec fn time_per_task_row(task: Seq<char>, seconds: u32) -> Seq<char> {
    "<tr><td>"@ + task + "</td><td>"@ + his_seq(seconds as nat) + "</td></tr>"@
}

/// The table rows of the time per task, in order.
pub open spec fn time_per_task_html(t: Seq<(Seq<char>, u32)>) -> Seq<char>
    decreases t.len(),
{
    if t.len() == 0 {
        Seq::<char>::empty()
    } else {
        time_per_task_html(t.drop_last()) + time_per_task_row(t.last().0, t.last().1)
    }
}

/// A table row of the task log: the date, description and duration of a
/// timelog row.
pub open spec fn task_log_row(row: Seq<Seq<char>>) -> Seq<char> {
    "<tr><td>"@ + row[1] + "</td><td>"@ + row[2] + "</td><td>"@ + row[3] + "</td></tr>"@
}

/// The table rows of the task log, the last timelog row first.
pub open spec fn tasks_log_html(rows: Seq<Seq<Seq<char>>>) -> Seq<char>
    decreases rows.len(),
{
    if rows.len() == 0 {
        Seq::<char>::empty()
    } else {
        task_log_row(rows.last()) + tasks_log_html(rows.drop_last())
    }
}

/// The exported page: in the template, `%project_id%` replaced by the
/// project's id, then `%total_time_spent%` by its total time as `HH:MM:SS`,
/// then `%tbody_time_per_task%` by the rows of the time per task, then
/// `%tbody_tasks_log%` by the rows of the task log.
pub open spec fn export_html(
    template: Seq<char>,
    project_id: Seq<char>,
    total: u32,
    per_task: Seq<(Seq<char>, u32)>,
    rows: Seq<Seq<Seq<char>>>,
) -> Seq<char> {
    let h1 = replace_seq(template, "%project_id%"@, project_id);
    let h2 = replace_seq(h1, "%total_time_spent%"@, his_seq(total as nat));
    let h3 = replace_seq(h2, "%tbody_time_per_task%"@, time_per_task_html(per_task));
    replace_seq(h3, "%tbody_tasks_log%"@, tasks_log_html(rows))
}

fn time_per_task_rows(per_task: &Vec<(String, u32)>) -> (r: String)
    ensures
        r@ == time_per_task_html(per_task.deep_view()),
{
    let mut out: Vec<char> = Vec::new();
    let n = per_task.len();
    for i in 0..n
        invariant
            n == per_task@.len(),
            out@ == time_per_task_html(per_task.deep_view().take(i as int)),
    {
        proof {
            assert(per_task.deep_view().take(i + 1).drop_last() =~= per_task.deep_view().take(
                i as int,
            ));
            assert(per_task.deep_view().take(i + 1).last() == per_task.deep_view()[i as int]);
        }
        let time = seconds_to_his(per_task[i].1);
        let ghost before = out@;
        push_str_chars(&mut out, "<tr><td>");
        push_str_chars(&mut out, per_task[i].0.as_str());
        push_str_chars(&mut out, "</td><td>");
        push_str_chars(&mut out, time.as_str());
        push_str_chars(&mut out, "</td></tr>");
        proof {
            let e = per_task.deep_view()[i as int];
            assert(out@ =~= before + time_per_task_row(e.0, e.1));
        }
    }
    assert(per_task.deep_view().take(n as int) =~= per_task.deep_view());
    string_of(&out)
}

fn tasks_log_rows(tasks: &Vec<Vec<String>>) -> (r: String)
    requires
        complete_rows(tasks.deep_view()),
    ensures
        r@ == tasks_log_html(tasks.deep_view()),
{
    let mut out: Vec<char> = Vec::new();
    let n = tasks.len();
    let mut i = n;
    assert(tasks.deep_view().take(n as int) =~= tasks.deep_view());
    while i > 0
        invariant
            n == tasks@.len(),
            i <= n,
            complete_rows(tasks.deep_view()),
            out@ + tasks_log_html(tasks.deep_view().take(i as int)) == tasks_log_html(
                tasks.deep_view(),
            ),
        decreases i,
    {
        let j = i - 1;
        let ghost rows = tasks.deep_view().take(i as int);
        proof {
            assert(rows.drop_last() =~= tasks.deep_view().take(j as int));
            assert(rows.last() == tasks.deep_view()[j as int]);
            assert(tasks.deep_view()[j as int] == tasks@[j as int].deep_view());
            assert(tasks.deep_view()[j as int].len() >= 4);
        }
        let row = &tasks[j];
        let ghost before = out@;
        push_str_chars(&mut out, "<tr><td>");
        push_str_chars(&mut out, row[1].as_str());
        push_str_chars(&mut out, "</td><td>");
        push_str_chars(&mut out, row[2].as_str());
        push_str_chars(&mut out, "</td><td>");
        push_str_chars(&mut out, row[3].as_str());
        push_str_chars(&mut out, "</td></tr>");
        proof {
            assert(out@ =~= before + task_log_row(rows.last()));
            assert(before + tasks_log_html(rows) =~= out@ + tasks_log_html(
                tasks.deep_view().take(j as int),
            ));
        }
        i = j;
    }
    assert(tasks.deep_view().take(0) =~= Seq::<Seq<Seq<char>>>::empty());
    assert(out@ =~= tasks_log_html(tasks.deep_view()));
    string_of(&out)
}

/// The exported page of `project`, whose timelog has the rows `tasks`: the
/// template with its placeholders replaced by the project's id, its total
/// time, the time per task and the task log.
pub fn export_to_html(template: &str, project: &Project, tasks: &Vec<Vec<String>>) -> (r: String)
    requires
        complete_rows(tasks.deep_view()),
        total_of_rows(tasks.deep_view()) <= u32::MAX,
    ensures
        r@ == export_html(
            template@,
            project.id@,
            total_of_rows(tasks.deep_view()) as u32,
            tally_u32(tally_of_rows(tasks.deep_view())),
            tasks.deep_view(),
        ),
{
    proof {
        law_tally_distinct_and_bounded(rows_keys(tasks.deep_view()), rows_seconds(tasks.deep_view()));
        assert(tally_fits(tally_of_rows(tasks.deep_view())));
        reveal_strlit("%project_id%");
        reveal_strlit("%total_time_spent%");
        reveal_strlit("%tbody_time_per_task%");
        reveal_strlit("%tbody_tasks_log%");
    }
    let total = match project.total_seconds_spent(tasks) {
        Ok(t) => t,
        Err(_) => 0,
    };
    let per_task = match project.seconds_spent_per_task(tasks) {
        Ok(v) => v,
        Err(_) => Vec::new(),
    };
    let html = replace_str(template, "%project_id%", project.id.as_str());
    let html = replace_str(html.as_str(), "%total_time_spent%", seconds_to_his(total).as_str());
    let html = replace_str(
        html.as_str(),
        "%tbody_time_per_task%",
        time_per_task_rows(&per_task).as_str(),
    );
    replace_str(html.as_str(), "%tbody_tasks_log%", tasks_log_rows(tasks).as_str())
}

// ---------------------------------------------------------------------------
// The time-per-task table of the export
// ---------------------------------------------------------------------------

/// Whether `s` holds no `%`, the character that opens and closes a
/// placeholder.
pub open spec fn free_of_percent(s: Seq<char>) -> bool {
    forall|i: int| 0 <= i < s.len() ==> s[i] != '%'
}

proof fn lemma_free_concat(a: Seq<char>, b: Seq<char>)
    requires
        free_of_percent(a),
        free_of_percent(b),
    ensures
        free_of_percent(a + b),
{
    assert forall|i: int| 0 <= i < (a + b).len() implies (a + b)[i] != '%' by {
        if i >= a.len() {
            assert((a + b)[i] == b[i - a.len()]);
        }
    }
}

/// Text free of `%` holds no placeholder, so a replacement leaves it as it is.
proof fn lemma_replace_free(s: Seq<char>, pat: Seq<char>, rep: Seq<char>)
    requires
        pat.len() > 0,
        pat[0] == '%',
        free_of_percent(s),
    ensures
        replace_seq(s, pat, rep) == s,
{
    assert forall|i: int| 0 <= i && i + pat.len() <= s.len() implies #[trigger] s.subrange(
        i,
        i + pat.len(),
    ) != pat by {
        assert(s.subrange(i, i + pat.len())[0] == s[i]);
    }
    lemma_replace_absent(s, pat, rep);
}

/// In `a + p + b`, where `%` stands only at the two ends of the placeholder
/// `p`, another placeholder of a different length does not occur.
proof fn lemma_replace_other(
    a: Seq<char>,
    p: Seq<char>,
    b: Seq<char>,
    pat: Seq<char>,
    rep: Seq<char>,
)
    requires
        free_of_percent(a),
        free_of_percent(b),
        p.len() >= 2,
        p[0] == '%',
        p[p.len() - 1] == '%',
        forall|k: int| 0 < k < p.len() - 1 ==> p[k] != '%',
        pat.len() >= 2,
        pat[0] == '%',
        pat[pat.len() - 1] == '%',
        pat.len() != p.len(),
    ensures
        replace_seq(a + p + b, pat, rep) == a + p + b,
{
    let s = a + p + b;
    let m = pat.len() as int;
    assert forall|k: int| 0 <= k < s.len() && s[k] == '%' implies k == a.len() || k == a.len()
        + p.len() - 1 by {
        if k < a.len() {
            assert(s[k] == a[k]);
        } else if k < a.len() + p.len() {
            assert(s[k] == p[k - a.len()]);
        } else {
            assert(s[k] == b[k - a.len() - p.len()]);
        }
    }
    assert forall|i: int| 0 <= i && i + pat.len() <= s.len() implies #[trigger] s.subrange(
        i,
        i + pat.len(),
    ) != pat by {
        let w = s.subrange(i, i + pat.len());
        assert(w[0] == s[i]);
        assert(w[m - 1] == s[i + m - 1]);
    }
    lemma_replace_absent(s, pat, rep);
}

/// The `HH:MM:SS` form of a duration holds no `%`.
proof fn lemma_his_free(secs: nat)
    ensures
        free_of_percent(his_seq(secs)),
{
    lemma_his_chars(secs);
    assert forall|i: int| 0 <= i < his_seq(secs).len() implies his_seq(secs)[i] != '%' by {
        assert(is_digit(his_seq(secs)[i]) || his_seq(secs)[i] == ':');
    }
}

/// The time-per-task rows hold no `%` where the task names hold none.
proof fn lemma_table_free(per: Seq<(Seq<char>, u32)>)
    requires
        forall|i: int| 0 <= i < per.len() ==> free_of_percent(#[trigger] per[i].0),
    ensures
        free_of_percent(time_per_task_html(per)),
    decreases per.len(),
{
    reveal_strlit("<tr><td>");
    reveal_strlit("</td><td>");
    reveal_strlit("</td></tr>");
    if per.len() == 0 {
    } else {
        let d = per.drop_last();
        assert forall|i: int| 0 <= i < d.len() implies free_of_percent(#[trigger] d[i].0) by {
            assert(d[i] == per[i]);
        }
        lemma_table_free(d);
        let e = per.last();
        assert(free_of_percent(per[per.len() - 1].0));
        lemma_his_free(e.1 as nat);
        let o = "<tr><td>"@;
        let m = "</td><td>"@;
        let c = "</td></tr>"@;
        assert(free_of_percent(o));
        assert(free_of_percent(m));
        assert(free_of_percent(c));
        lemma_free_concat(o, e.0);
        lemma_free_concat(o + e.0, m);
        lemma_free_concat(o + e.0 + m, his_seq(e.1 as nat));
        lemma_free_concat(o + e.0 + m + his_seq(e.1 as nat), c);
        lemma_free_concat(time_per_task_html(d), time_per_task_row(e.0, e.1));
    }
}

/// The task names of the per-task totals are among the task names of the
/// rows, so they hold no `%` where those hold none.
proof fn lemma_tally_keys_free(keys: Seq<Seq<char>>, times: Seq<Option<u32>>)
    requires
        keys.len() == times.len(),
        forall|j: int| 0 <= j < keys.len() ==> free_of_percent(#[trigger] keys[j]),
    ensures
        forall|i: int|
            0 <= i < tally(keys, times).len() ==> free_of_percent(#[trigger] tally(keys, times)[i].0),
    decreases times.len(),
{
    if times.len() > 0 {
        let kd = keys.drop_last();
        let td = times.drop_last();
        assert forall|j: int| 0 <= j < kd.len() implies free_of_percent(#[trigger] kd[j]) by {
            assert(kd[j] == keys[j]);
        }
        lemma_tally_keys_free(kd, td);
        let t = tally(kd, td);
        let u = tally(keys, times);
        let kl = keys.last();
        assert(free_of_percent(keys[keys.len() - 1]));
        match times.last() {
            Some(s) => {
                lemma_key_index(t, kl);
                let k = key_index(t, kl);
                assert(u == add_to(t, kl, s as int));
                assert forall|i: int| 0 <= i < u.len() implies free_of_percent(#[trigger] u[i].0) by {
                    if i < t.len() && i != k {
                        assert(u[i] == t[i]);
                    } else {
                        assert(u[i].0 == kl);
                    }
                }
            },
            None => {
                assert(u == t);
            },
        }
    }
}

/// The time-per-task table of the export lists each task with its own time:
/// for a template that holds the table's placeholder between text without
/// placeholders, the page is that text around one row per task, in the
/// order the tasks first appear, whose time is the sum of the known
/// durations of the rows counted under that task. (Task names that hold a
/// `%` are left out: the later placeholders would be looked for in them.)
pub proof fn law_export_lists_time_of_each_task(
    a: Seq<char>,
    b: Seq<char>,
    project_id: Seq<char>,
    rows: Seq<Seq<Seq<char>>>,
)
    requires
        complete_rows(rows),
        total_of_rows(rows) <= u32::MAX,
        free_of_percent(a),
        free_of_percent(b),
        forall|j: int| 0 <= j < rows.len() ==> free_of_percent(#[trigger] rows_keys(rows)[j]),
    ensures
        export_html(
            a + "%tbody_time_per_task%"@ + b,
            project_id,
            total_of_rows(rows) as u32,
            tally_u32(tally_of_rows(rows)),
            rows,
        ) == a + time_per_task_html(
            Seq::new(
                tally_of_rows(rows).len(),
                |i: int|
                    (
                        tally_of_rows(rows)[i].0,
                        seconds_of_key(rows_keys(rows), rows_seconds(rows), tally_of_rows(rows)[i].0)
                            as u32,
                    ),
            ),
        ) + b,
{
    reveal_strlit("%project_id%");
    reveal_strlit("%total_time_spent%");
    reveal_strlit("%tbody_time_per_task%");
    reveal_strlit("%tbody_tasks_log%");
    let keys = rows_keys(rows);
    let times = rows_seconds(rows);
    let t = tally(keys, times);
    law_tally_is_time_of_each_task(keys, times);
    law_tally_distinct_and_bounded(keys, times);
    lemma_tally_keys_free(keys, times);
    let per = tally_u32(t);
    let own = Seq::new(
        t.len(),
        |i: int| (t[i].0, seconds_of_key(keys, times, t[i].0) as u32),
    );
    assert(per =~= own);
    let p = "%tbody_time_per_task%"@;
    let s = a + p + b;
    lemma_replace_other(a, p, b, "%project_id%"@, project_id);
    lemma_replace_other(a, p, b, "%total_time_spent%"@, his_seq(total_of_rows(rows) as u32 as nat));
    let table = time_per_task_html(per);
    assert(s =~= a + (p + b));
    lemma_replace_prefix(a, p + b, p, table);
    lemma_replace_front(b, p, table);
    lemma_replace_free(b, p, table);
    assert forall|i: int| 0 <= i < per.len() implies free_of_percent(#[trigger] per[i].0) by {
        assert(per[i].0 == t[i].0);
    }
    lemma_table_free(per);
    lemma_free_concat(a, table);
    lemma_free_concat(a + table, b);
    assert(a + (table + b) =~= a + table + b);
    lemma_replace_free(a + table + b, "%tbody_tasks_log%"@, tasks_log_html(rows));
}

impl Project {
    /// The exported page of the project, or `None` where its total time
    /// exceeds `u32::MAX` (where adding it up overflows).
    pub fn export(&self, template: &str, tasks: &Vec<Vec<String>>) -> (r: Option<String>)
        requires
            complete_rows(tasks.deep_view()),
        ensures
            match r {
                Some(h) => total_of_rows(tasks.deep_view()) <= u32::MAX && h@ == export_html(
                    template@,
                    self.id@,
                    total_of_rows(tasks.deep_view()) as u32,
                    tally_u32(tally_of_rows(tasks.deep_view())),
                    tasks.deep_view(),
                ),
                None => total_of_rows(tasks.deep_view()) > u32::MAX,
            },
    {
        match self.checked_total_seconds_spent(tasks) {
            Some(_) => Some(export_to_html(template, self, tasks)),
            None => None,
        }
    }
}

} // verus!
