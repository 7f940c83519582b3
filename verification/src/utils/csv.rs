//! The timelog file of a project: one line per finished task, holding the
//! task's id, its date, its description and its duration, separated by
//! commas. Lines are read as `BufRead::lines` reads them and split at every
//! comma.

use vstd::prelude::*;

use crate::text::{
    chars_of, join_str, lemma_join_split, lemma_split_append, lemma_split_around_sep,
    lemma_split_nonempty, lemma_split_pieces_free_of_sep, lemma_split_without_sep, push_str_chars,
    split_chars, split_seq, split_to_strings, string_of, is_digit,
};
use crate::utils::time::{his_seq, lemma_his_chars, seconds_to_his};

verus! {

/// A line without one `\r` at its end.
pub open spec fn strip_cr(l: Seq<char>) -> Seq<char> {
    if l.len() > 0 && l.last() == '\r' {
        l.drop_last()
    } else {
        l
    }
}

/// The lines of a text as `BufRead::lines` yields them: split at `\n`, a
/// final empty piece dropped, and a `\r` before each `\n` removed.
pub open spec fn lines_seq(s: Seq<char>) -> Seq<Seq<char>> {
    let p = split_seq(s, '\n');
    let body = p.drop_last().map_values(|l: Seq<char>| strip_cr(l));
    if p.last().len() == 0 {
        body
    } else {
        body.push(p.last())
    }
}

/// The rows of a timelog: each line split at every comma.
pub open spec fn rows_seq(s: Seq<char>) -> Seq<Seq<Seq<char>>> {
    lines_seq(s).map_values(|l: Seq<char>| split_seq(l, ','))
}

/// The line that records a task: its id, date, description and duration,
/// separated by commas, ended by `\n`.
pub open spec fn row_line(id: Seq<char>, date: Seq<char>, desc: Seq<char>, time: Seq<char>) -> Seq<
    char,
> {
    id + seq![','] + date + seq![','] + desc + seq![','] + time + seq!['\n']
}

/// Lines written one after the other, each ended by `\n`.
pub open spec fn render_lines(ls: Seq<Seq<char>>) -> Seq<char>
    decreases ls.len(),
{
    if ls.len() == 0 {
        Seq::<char>::empty()
    } else {
        render_lines(ls.drop_last()) + ls.last() + seq!['\n']
    }
}

/// The first comma-separated field of a line.
pub open spec fn first_field(l: Seq<char>) -> Seq<char> {
    split_seq(l, ',')[0]
}

/// The lines whose first field is not `id`, in order.
pub open spec fn kept_lines(ls: Seq<Seq<char>>, id: Seq<char>) -> Seq<Seq<char>>
    decreases ls.len(),
{
    if ls.len() == 0 {
        ls
    } else if first_field(ls.last()) == id {
        kept_lines(ls.drop_last(), id)
    } else {
        kept_lines(ls.drop_last(), id).push(ls.last())
    }
}

/// The rows whose first field is not `id`, in order.
pub open spec fn kept_rows(rows: Seq<Seq<Seq<char>>>, id: Seq<char>) -> Seq<Seq<Seq<char>>>
    decreases rows.len(),
{
    if rows.len() == 0 {
        rows
    } else if rows.last()[0] == id {
        kept_rows(rows.drop_last(), id)
    } else {
        kept_rows(rows.drop_last(), id).push(rows.last())
    }
}

/// A timelog after the task `id` is deleted: every line whose first field is
/// `id` left out, the others written back, each ended by `\n`.
pub open spec fn deleted_content(s: Seq<char>, id: Seq<char>) -> Seq<char> {
    render_lines(kept_lines(lines_seq(s), id))
}

/// Whether a text holds neither a comma nor a line feed.
pub open spec fn plain_field(s: Seq<char>) -> bool {
    forall|i: int| 0 <= i < s.len() ==> #[trigger] s[i] != ',' && s[i] != '\n'
}

/// Whether a line can be written and read back unchanged: no line feed in
/// it and no carriage return at its end.
pub open spec fn stable_line(l: Seq<char>) -> bool {
    (forall|i: int| 0 <= i < l.len() ==> #[trigger] l[i] != '\n') && !(l.len() > 0 && l.last()
        == '\r')
}

// ---------------------------------------------------------------------------
// Lemmas
// ---------------------------------------------------------------------------

/// Appending a line to a text that is empty or ends with a line feed adds
/// that line, and nothing else, to the lines read back.
pub proof fn lemma_lines_append_line(c: Seq<char>, l: Seq<char>)
    requires
        c.len() == 0 || c.last() == '\n',
        stable_line(l),
    ensures
        lines_seq(c + l + seq!['\n']) == lines_seq(c).push(l),
{
    let x = l + seq!['\n'];
    assert(c + l + seq!['\n'] =~= c + x);
    assert(x.drop_last() =~= l);
    lemma_split_without_sep(l, '\n');
    let px = split_seq(x, '\n');
    assert(px =~= seq![l, Seq::<char>::empty()]);
    if c.len() == 0 {
        assert(c + x =~= x);
        assert(split_seq(c, '\n') =~= seq![Seq::<char>::empty()]);
        assert(lines_seq(c) =~= Seq::<Seq<char>>::empty());
        assert(lines_seq(x) =~= seq![strip_cr(l)]);
    } else {
        lemma_split_append(c, x, '\n');
        lemma_split_nonempty(c, '\n');
        let pc = split_seq(c, '\n');
        let p = split_seq(c + x, '\n');
        assert(p =~= pc.drop_last() + px);
        assert(p.drop_last() =~= pc.drop_last().push(l));
        assert(p.drop_last().map_values(|q: Seq<char>| strip_cr(q)) =~= pc.drop_last().map_values(
            |q: Seq<char>| strip_cr(q),
        ).push(strip_cr(l)));
    }
}

/// The text written by `render_lines` is empty or ends with a line feed.
proof fn lemma_render_ends(ls: Seq<Seq<char>>)
    ensures
        render_lines(ls).len() == 0 || render_lines(ls).last() == '\n',
{
    if ls.len() > 0 {
        let r = render_lines(ls);
        assert(r.last() == '\n');
    }
}

/// Lines written by `render_lines` are read back unchanged.
pub proof fn lemma_lines_of_render(ls: Seq<Seq<char>>)
    requires
        forall|i: int| 0 <= i < ls.len() ==> stable_line(#[trigger] ls[i]),
    ensures
        lines_seq(render_lines(ls)) == ls,
    decreases ls.len(),
{
    if ls.len() == 0 {
        assert(render_lines(ls) =~= Seq::<char>::empty());
        assert(split_seq(Seq::<char>::empty(), '\n') =~= seq![Seq::<char>::empty()]);
        assert(lines_seq(Seq::<char>::empty()) =~= ls);
    } else {
        let init = ls.drop_last();
        assert forall|i: int| 0 <= i < init.len() implies stable_line(#[trigger] init[i]) by {
            assert(init[i] == ls[i]);
        }
        lemma_lines_of_render(init);
        lemma_render_ends(init);
        assert(stable_line(ls[ls.len() - 1]));
        lemma_lines_append_line(render_lines(init), ls.last());
        assert(init.push(ls.last()) =~= ls);
    }
}

/// Every line of a text holds no line feed.
pub proof fn lemma_lines_free_of_newline(s: Seq<char>)
    ensures
        forall|i: int, j: int|
            0 <= i < lines_seq(s).len() && 0 <= j < lines_seq(s)[i].len() ==> lines_seq(s)[i][j]
                != '\n',
{
    lemma_split_pieces_free_of_sep(s, '\n');
    lemma_split_nonempty(s, '\n');
    let p = split_seq(s, '\n');
    let ls = lines_seq(s);
    assert forall|i: int, j: int| 0 <= i < ls.len() && 0 <= j < ls[i].len() implies ls[i][j]
        != '\n' by {
        if i < p.len() - 1 {
            assert(ls[i] == strip_cr(p[i]));
            assert(ls[i][j] == p[i][j]);
        } else {
            assert(ls[i] == p.last());
            assert(ls[i][j] == p[p.len() - 1][j]);
        }
    }
}

/// Filtering lines and then splitting them into rows is filtering the rows.
proof fn lemma_kept_rows_of_lines(ls: Seq<Seq<char>>, id: Seq<char>)
    ensures
        kept_lines(ls, id).map_values(|l: Seq<char>| split_seq(l, ',')) == kept_rows(
            ls.map_values(|l: Seq<char>| split_seq(l, ',')),
            id,
        ),
    decreases ls.len(),
{
    let f = |l: Seq<char>| split_seq(l, ',');
    if ls.len() == 0 {
        assert(kept_lines(ls, id).map_values(f) =~= Seq::<Seq<Seq<char>>>::empty());
        assert(ls.map_values(f) =~= Seq::<Seq<Seq<char>>>::empty());
    } else {
        lemma_kept_rows_of_lines(ls.drop_last(), id);
        assert(ls.map_values(f).drop_last() =~= ls.drop_last().map_values(f));
        assert(ls.map_values(f).last() == split_seq(ls.last(), ','));
        if first_field(ls.last()) != id {
            assert(kept_lines(ls.drop_last(), id).push(ls.last()).map_values(f) =~= kept_lines(
                ls.drop_last(),
                id,
            ).map_values(f).push(split_seq(ls.last(), ',')));
        }
    }
}

/// Every kept line is one of the lines.
proof fn lemma_kept_lines_stable(ls: Seq<Seq<char>>, id: Seq<char>)
    requires
        forall|i: int| 0 <= i < ls.len() ==> stable_line(#[trigger] ls[i]),
    ensures
        forall|i: int|
            0 <= i < kept_lines(ls, id).len() ==> stable_line(#[trigger] kept_lines(ls, id)[i]),
    decreases ls.len(),
{
    if ls.len() > 0 {
        let init = ls.drop_last();
        assert forall|i: int| 0 <= i < init.len() implies stable_line(#[trigger] init[i]) by {
            assert(init[i] == ls[i]);
        }
        lemma_kept_lines_stable(init, id);
        assert(stable_line(ls[ls.len() - 1]));
        let k0 = kept_lines(init, id);
        let k = kept_lines(ls, id);
        if first_field(ls.last()) != id {
            assert forall|i: int| 0 <= i < k.len() implies stable_line(#[trigger] k[i]) by {
                if i < k0.len() {
                    assert(k[i] == k0[i]);
                } else {
                    assert(k[i] == ls.last());
                }
            }
        }
    }
}

// ---------------------------------------------------------------------------
// Laws
// ---------------------------------------------------------------------------

/// Reading a timelog after a task was saved to it gives the rows it had
/// before, then the saved task's id, date, description and duration, as long
/// as the timelog was empty or ended with a line feed and the id, date and
/// description hold no comma and no line feed.
pub proof fn law_read_after_save(
    content: Seq<char>,
    row_id: Seq<char>,
    date: Seq<char>,
    desc: Seq<char>,
    seconds: u64,
)
    requires
        content.len() == 0 || content.last() == '\n',
        plain_field(row_id),
        plain_field(date),
        plain_field(desc),
    ensures
        rows_seq(content + row_line(row_id, date, desc, his_seq((seconds as u32) as nat)))
            == rows_seq(content).push(seq![row_id, date, desc, his_seq((seconds as u32) as nat)]),
{
    let time = his_seq((seconds as u32) as nat);
    let l = row_id + seq![','] + date + seq![','] + desc + seq![','] + time;
    assert(content + row_line(row_id, date, desc, time) =~= content + l + seq!['\n']);
    lemma_row_line_stable(row_id, date, desc, seconds);
    lemma_lines_append_line(content, l);
    lemma_row_line_fields(row_id, date, desc, seconds);
    let f = |q: Seq<char>| split_seq(q, ',');
    assert(lines_seq(content).push(l).map_values(f) =~= lines_seq(content).map_values(f).push(
        split_seq(l, ','),
    ));
}

/// The text of a saved task, without its line feed, is a stable line.
proof fn lemma_row_line_stable(row_id: Seq<char>, date: Seq<char>, desc: Seq<char>, seconds: u64)
    requires
        plain_field(row_id),
        plain_field(date),
        plain_field(desc),
    ensures
        stable_line(
            row_id + seq![','] + date + seq![','] + desc + seq![','] + his_seq(
                (seconds as u32) as nat,
            ),
        ),
{
    let time = his_seq((seconds as u32) as nat);
    lemma_his_chars((seconds as u32) as nat);
    let l = row_id + seq![','] + date + seq![','] + desc + seq![','] + time;
    assert forall|i: int| 0 <= i < l.len() implies #[trigger] l[i] != '\n' by {
        if i < row_id.len() {
            assert(l[i] == row_id[i]);
        } else if i < row_id.len() + 1 {
        } else if i < row_id.len() + 1 + date.len() {
            assert(l[i] == date[i - row_id.len() - 1]);
        } else if i < row_id.len() + 2 + date.len() {
        } else if i < row_id.len() + 2 + date.len() + desc.len() {
            assert(l[i] == desc[i - row_id.len() - 2 - date.len()]);
        } else if i < row_id.len() + 3 + date.len() + desc.len() {
        } else {
            assert(l[i] == time[i - row_id.len() - 3 - date.len() - desc.len()]);
        }
    }
    assert(l.last() == time.last());
}

/// The text of a saved task splits into its four fields.
proof fn lemma_row_line_fields(row_id: Seq<char>, date: Seq<char>, desc: Seq<char>, seconds: u64)
    requires
        plain_field(row_id),
        plain_field(date),
        plain_field(desc),
    ensures
        split_seq(
            row_id + seq![','] + date + seq![','] + desc + seq![','] + his_seq(
                (seconds as u32) as nat,
            ),
            ',',
        ) == seq![row_id, date, desc, his_seq((seconds as u32) as nat)],
{
    let time = his_seq((seconds as u32) as nat);
    lemma_his_chars((seconds as u32) as nat);
    assert forall|j: int| 0 <= j < row_id.len() implies row_id[j] != ',' by {
        assert(plain_field(row_id));
    }
    assert forall|j: int| 0 <= j < date.len() implies date[j] != ',' by {
        assert(plain_field(date));
    }
    assert forall|j: int| 0 <= j < desc.len() implies desc[j] != ',' by {
        assert(plain_field(desc));
    }
    assert forall|j: int| 0 <= j < time.len() implies time[j] != ',' by {
        assert(is_digit(time[j]) || time[j] == ':');
    }
    lemma_split_without_sep(row_id, ',');
    lemma_split_without_sep(date, ',');
    lemma_split_without_sep(desc, ',');
    lemma_split_without_sep(time, ',');
    lemma_split_around_sep(desc, time, ',');
    lemma_split_around_sep(date, desc.push(',') + time, ',');
    lemma_split_around_sep(row_id, date.push(',') + (desc.push(',') + time), ',');
    let l = row_id + seq![','] + date + seq![','] + desc + seq![','] + time;
    assert(l =~= row_id.push(',') + (date.push(',') + (desc.push(',') + time)));
    assert(split_seq(l, ',') =~= seq![row_id, date, desc, time]);
}

/// Reading a timelog after the task `id` was deleted from it gives its rows
/// without those whose first field is `id`, as long as no line of the
/// timelog ends with a carriage return that reading leaves in place.
pub proof fn law_read_after_delete(content: Seq<char>, id: Seq<char>)
    requires
        forall|i: int|
            0 <= i < lines_seq(content).len() ==> !(#[trigger] lines_seq(content)[i].len() > 0
                && lines_seq(content)[i].last() == '\r'),
    ensures
        rows_seq(deleted_content(content, id)) == kept_rows(rows_seq(content), id),
{
    let ls = lines_seq(content);
    lemma_lines_free_of_newline(content);
    assert forall|i: int| 0 <= i < ls.len() implies stable_line(#[trigger] ls[i]) by {
        assert(!(ls[i].len() > 0 && ls[i].last() == '\r'));
        assert forall|j: int| 0 <= j < ls[i].len() implies #[trigger] ls[i][j] != '\n' by {}
    }
    lemma_kept_lines_stable(ls, id);
    lemma_lines_of_render(kept_lines(ls, id));
    lemma_kept_rows_of_lines(ls, id);
}

/// Deleting a task right after saving it leaves the rows that the timelog
/// had without that task, under the conditions of the two laws above.
pub proof fn law_delete_after_save(
    content: Seq<char>,
    row_id: Seq<char>,
    date: Seq<char>,
    desc: Seq<char>,
    seconds: u64,
)
    requires
        content.len() == 0 || content.last() == '\n',
        plain_field(row_id),
        plain_field(date),
        plain_field(desc),
        forall|i: int|
            0 <= i < lines_seq(content).len() ==> !(#[trigger] lines_seq(content)[i].len() > 0
                && lines_seq(content)[i].last() == '\r'),
    ensures
        rows_seq(
            deleted_content(
                content + row_line(row_id, date, desc, his_seq((seconds as u32) as nat)),
                row_id,
            ),
        ) == kept_rows(rows_seq(content), row_id),
{
    let time = his_seq((seconds as u32) as nat);
    let l = row_id + seq![','] + date + seq![','] + desc + seq![','] + time;
    let saved = content + row_line(row_id, date, desc, time);
    assert(saved =~= content + l + seq!['\n']);
    lemma_row_line_stable(row_id, date, desc, seconds);
    lemma_lines_append_line(content, l);
    let ls = lines_seq(saved);
    assert forall|i: int| 0 <= i < ls.len() implies !(#[trigger] ls[i].len() > 0 && ls[i].last()
        == '\r') by {
        if i < lines_seq(content).len() {
            assert(ls[i] == lines_seq(content)[i]);
        } else {
            assert(ls[i] == l);
        }
    }
    law_read_after_delete(saved, row_id);
    law_read_after_save(content, row_id, date, desc, seconds);
    let fields = seq![row_id, date, desc, time];
    assert(rows_seq(content).push(fields).drop_last() =~= rows_seq(content));
}

// ---------------------------------------------------------------------------
// Executable functions
// ---------------------------------------------------------------------------

/// The line that saving a task appends to its project's timelog: the task's
/// id, date and description, then its duration as `HH:MM:SS`, separated by
/// commas and ended by `\n`. The duration is converted to `u32` with `as`,
/// that is, taken modulo 2^32 seconds.
pub fn format_row(row_id: &str, date: &str, task_description: &str, seconds: u64) -> (r: String)
    ensures
        r@ == row_line(row_id@, date@, task_description@, his_seq((seconds as u32) as nat)),
{
    let time = seconds_to_his(seconds as u32);
    let mut out: Vec<char> = Vec::new();
    push_str_chars(&mut out, row_id);
    out.push(',');
    push_str_chars(&mut out, date);
    out.push(',');
    push_str_chars(&mut out, task_description);
    out.push(',');
    push_str_chars(&mut out, time.as_str());
    out.push('\n');
    assert(out@ =~= row_line(row_id@, date@, task_description@, time@));
    string_of(&out)
}

fn strip_cr_chars(l: &Vec<char>) -> (r: Vec<char>)
    ensures
        r@ == strip_cr(l@),
{
    let n = l.len();
    let end = if n > 0 && l[n - 1] == '\r' {
        n - 1
    } else {
        n
    };
    let mut r: Vec<char> = Vec::new();
    for i in 0..end
        invariant
            end <= n,
            n == l@.len(),
            r@ == l@.take(i as int),
    {
        r.push(l[i]);
        proof {
            assert(l@.take(i + 1) =~= l@.take(i as int).push(l@[i as int]));
        }
    }
    proof {
        if end == n {
            assert(l@.take(n as int) =~= l@);
        } else {
            assert(l@.take(end as int) =~= l@.drop_last());
        }
    }
    r
}

/// Reads the rows of a timelog: its lines, each split at every comma.
pub fn parse_rows(content: &str) -> (rows: Vec<Vec<String>>)
    ensures
        rows.deep_view() == rows_seq(content@),
{
    let cs = chars_of(content);
    let pieces = split_chars(&cs, '\n');
    proof {
        lemma_split_nonempty(content@, '\n');
    }
    let ghost p = split_seq(content@, '\n');
    let ghost f = |l: Seq<char>| split_seq(l, ',');
    let n = pieces.len();
    let mut rows: Vec<Vec<String>> = Vec::new();
    for i in 0..n - 1
        invariant
            n == pieces@.len(),
            n == p.len(),
            n >= 1,
            p == split_seq(content@, '\n'),
            forall|k: int| 0 <= k < n ==> #[trigger] pieces@[k]@ == p[k],
            rows.deep_view() =~= p.take(i as int).map_values(|l: Seq<char>| split_seq(strip_cr(l), ',')),
    {
        assert(pieces@[i as int]@ == p[i as int]);
        let line = strip_cr_chars(&pieces[i]);
        let row = split_to_strings(&line, ',');
        let ghost before = rows.deep_view();
        rows.push(row);
        proof {
            assert(rows.deep_view() =~= before.push(split_seq(strip_cr(p[i as int]), ',')));
            assert(p.take(i + 1) =~= p.take(i as int).push(p[i as int]));
            assert(p.take(i + 1).map_values(|l: Seq<char>| split_seq(strip_cr(l), ',')) =~= p.take(i as int).map_values(|l: Seq<char>| split_seq(strip_cr(l), ',')).push(
                split_seq(strip_cr(p[i as int]), ','),
            ));
        }
    }
    let last = &pieces[n - 1];
    let ghost body = p.drop_last().map_values(|l: Seq<char>| strip_cr(l));
    assert(p.take(n - 1) =~= p.drop_last());
    assert(body.map_values(f) =~= p.drop_last().map_values(|l: Seq<char>| split_seq(strip_cr(l), ',')));
    if last.len() > 0 {
        let row = split_to_strings(last, ',');
        let ghost before = rows.deep_view();
        rows.push(row);
        proof {
            assert(rows.deep_view() =~= before.push(split_seq(p.last(), ',')));
            assert(body.push(p.last()).map_values(f) =~= body.map_values(f).push(f(p.last())));
        }
    }
    rows
}

/// The timelog after the task `task_id` is deleted: every row whose first
/// field is `task_id` is left out, and the others are written back, their
/// fields joined by commas and each ended by `\n`.
pub fn delete_rows(content: &str, task_id: &str) -> (r: String)
    ensures
        r@ == deleted_content(content@, task_id@),
{
    let rows = parse_rows(content);
    let tid = String::from_str(task_id);
    let ghost ls = lines_seq(content@);
    let mut out: Vec<char> = Vec::new();
    let n = rows.len();
    assert(ls.take(0) =~= Seq::<Seq<char>>::empty());
    assert(rows.deep_view().len() == ls.len());
    for i in 0..n
        invariant
            n == rows@.len(),
            n == ls.len(),
            rows.deep_view() == rows_seq(content@),
            ls == lines_seq(content@),
            tid@ == task_id@,
            out@ == render_lines(kept_lines(ls.take(i as int), task_id@)),
    {
        proof {
            assert(rows.deep_view()[i as int] == rows@[i as int].deep_view());
            assert(rows_seq(content@)[i as int] == split_seq(ls[i as int], ','));
            assert(rows@[i as int].deep_view() == split_seq(ls[i as int], ','));
            lemma_split_nonempty(ls[i as int], ',');
            assert(ls.take(i + 1).drop_last() =~= ls.take(i as int));
            assert(ls.take(i + 1).last() == ls[i as int]);
        }
        let row = &rows[i];
        assert(row@[0]@ == first_field(ls[i as int]));
        let same = row[0] == tid;
        if !same {
            let ghost before = out@;
            let line = join_str(row, ',');
            push_str_chars(&mut out, line.as_str());
            out.push('\n');
            proof {
                lemma_join_split(ls[i as int], ',');
                assert(out@ =~= before + ls[i as int] + seq!['\n']);
                let k = kept_lines(ls.take(i as int), task_id@);
                assert(kept_lines(ls.take(i + 1), task_id@) == k.push(ls[i as int]));
                assert(k.push(ls[i as int]).drop_last() =~= k);
                assert(render_lines(k.push(ls[i as int])) == render_lines(k) + ls[i as int] + seq![
                    '\n',
                ]);
            }
        } else {
            assert(kept_lines(ls.take(i + 1), task_id@) == kept_lines(ls.take(i as int), task_id@));
        }
    }
    assert(ls.take(n as int) =~= ls);
    string_of(&out)
}

} // verus!
