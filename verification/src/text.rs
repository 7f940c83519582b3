//! Character-level text processing: splitting and joining on a separator,
//! trimming, replacing, decimal formatting and parsing.

use vstd::prelude::*;

verus! {

// ---------------------------------------------------------------------------
// Conversions between strings and character vectors
// ---------------------------------------------------------------------------

/// The characters of a string slice, in order (`str::chars`, collected).
#[verifier::external_body]
pub(crate) fn chars_of(s: &str) -> (v: Vec<char>)
    ensures
        v@ == s@,
{
    s.chars().collect()
}

/// The string made of the given characters, in order (`String: FromIterator<&char>`).
#[verifier::external_body]
pub(crate) fn string_of(v: &Vec<char>) -> (s: String)
    ensures
        s@ == v@,
{
    v.iter().collect()
}

// ---------------------------------------------------------------------------
// Splitting on a separator character
// ---------------------------------------------------------------------------

/// The pieces of `s` between occurrences of `sep`, as `str::split` with a
/// character pattern yields them: there is always at least one piece, and an
/// empty string gives one empty piece.
pub open spec fn split_seq(s: Seq<char>, sep: char) -> Seq<Seq<char>>
    decreases s.len(),
{
    if s.len() == 0 {
        seq![Seq::<char>::empty()]
    } else {
        let p = split_seq(s.drop_last(), sep);
        if s.last() == sep {
            p.push(Seq::<char>::empty())
        } else {
            p.update(p.len() - 1, p.last().push(s.last()))
        }
    }
}

/// The pieces joined with `sep` between consecutive ones (`[T]::join`).
pub open spec fn join_seq(parts: Seq<Seq<char>>, sep: char) -> Seq<char>
    decreases parts.len(),
{
    if parts.len() == 0 {
        Seq::<char>::empty()
    } else if parts.len() == 1 {
        parts[0]
    } else {
        join_seq(parts.drop_last(), sep).push(sep) + parts.last()
    }
}

/// Splitting always yields at least one piece, and the last piece of a text
/// that ends with the separator is empty.
pub proof fn lemma_split_nonempty(s: Seq<char>, sep: char)
    ensures
        split_seq(s, sep).len() >= 1,
        s.len() > 0 && s.last() == sep ==> split_seq(s, sep).last() == Seq::<char>::empty(),
    decreases s.len(),
{
    if s.len() > 0 {
        lemma_split_nonempty(s.drop_last(), sep);
    }
}

/// No piece of a split contains the separator.
pub proof fn lemma_split_pieces_free_of_sep(s: Seq<char>, sep: char)
    ensures
        forall|i: int, j: int|
            0 <= i < split_seq(s, sep).len() && 0 <= j < split_seq(s, sep)[i].len()
                ==> split_seq(s, sep)[i][j] != sep,
    decreases s.len(),
{
    if s.len() > 0 {
        lemma_split_nonempty(s.drop_last(), sep);
        lemma_split_pieces_free_of_sep(s.drop_last(), sep);
        let p = split_seq(s.drop_last(), sep);
        if s.last() != sep {
            let q = split_seq(s, sep);
            assert forall|i: int, j: int| 0 <= i < q.len() && 0 <= j < q[i].len() implies q[i][j]
                != sep by {
                if i == p.len() - 1 {
                    if j < p.last().len() {
                        assert(q[i][j] == p[i][j]);
                    }
                } else {
                    assert(q[i] == p[i]);
                }
            }
        }
    }
}

/// A text without the separator splits into itself alone.
pub proof fn lemma_split_without_sep(s: Seq<char>, sep: char)
    requires
        forall|j: int| 0 <= j < s.len() ==> s[j] != sep,
    ensures
        split_seq(s, sep) == seq![s],
    decreases s.len(),
{
    if s.len() > 0 {
        lemma_split_without_sep(s.drop_last(), sep);
        assert(s.drop_last().push(s.last()) =~= s);
        assert(split_seq(s, sep) =~= seq![s]);
    } else {
        assert(s =~= Seq::<char>::empty());
    }
}

/// Splitting a concatenation whose left part ends with the separator:
/// the pieces of the left part (without its final empty piece) followed by
/// the pieces of the right part.
pub proof fn lemma_split_append(a: Seq<char>, b: Seq<char>, sep: char)
    requires
        a.len() > 0,
        a.last() == sep,
    ensures
        split_seq(a + b, sep) == split_seq(a, sep).drop_last() + split_seq(b, sep),
    decreases b.len(),
{
    lemma_split_nonempty(a, sep);
    if b.len() == 0 {
        assert(a + b =~= a);
        assert(split_seq(a, sep) =~= split_seq(a, sep).drop_last() + seq![Seq::<char>::empty()]);
    } else {
        let b0 = b.drop_last();
        lemma_split_append(a, b0, sep);
        assert((a + b).drop_last() =~= a + b0);
        assert((a + b).last() == b.last());
        lemma_split_nonempty(b0, sep);
        let x = split_seq(a, sep).drop_last();
        let y = split_seq(b0, sep);
        if b.last() == sep {
            assert((x + y).push(Seq::<char>::empty()) =~= x + y.push(Seq::<char>::empty()));
        } else {
            assert((x + y).update((x + y).len() - 1, (x + y).last().push(b.last())) =~= x
                + y.update(y.len() - 1, y.last().push(b.last())));
        }
    }
}

/// Splitting `a`, the separator, then `b`: the pieces of `a` followed by the
/// pieces of `b`.
pub proof fn lemma_split_around_sep(a: Seq<char>, b: Seq<char>, sep: char)
    ensures
        split_seq(a.push(sep) + b, sep) == split_seq(a, sep) + split_seq(b, sep),
{
    lemma_split_append(a.push(sep), b, sep);
    assert(a.push(sep).drop_last() =~= a);
    assert(split_seq(a.push(sep), sep).drop_last() =~= split_seq(a, sep));
}

/// Joining the pieces of a split gives back the text.
pub proof fn lemma_join_split(s: Seq<char>, sep: char)
    ensures
        join_seq(split_seq(s, sep), sep) == s,
    decreases s.len(),
{
    if s.len() > 0 {
        let s0 = s.drop_last();
        lemma_join_split(s0, sep);
        lemma_split_nonempty(s0, sep);
        let p = split_seq(s0, sep);
        if s.last() == sep {
            let q = p.push(Seq::<char>::empty());
            assert(q.drop_last() =~= p);
            assert(join_seq(q, sep) =~= s);
        } else {
            let q = p.update(p.len() - 1, p.last().push(s.last()));
            if p.len() == 1 {
                assert(join_seq(p, sep) == p[0]);
                assert(q.len() == 1);
                assert(q[0] == p[0].push(s.last()));
                assert(s0.push(s.last()) =~= s);
                assert(join_seq(q, sep) =~= s);
            } else {
                assert(q.drop_last() =~= p.drop_last());
                assert(join_seq(q, sep) =~= join_seq(p.drop_last(), sep).push(sep) + p.last().push(
                    s.last(),
                ));
                let x = join_seq(p.drop_last(), sep).push(sep);
                assert(join_seq(p, sep) == x + p.last());
                assert((x + p.last()).push(s.last()) =~= x + p.last().push(s.last()));
                assert(s0.push(s.last()) =~= s);
                assert(join_seq(q, sep) =~= s);
            }
        }
    }
}

/// Splits a character vector at every occurrence of `sep`.
pub fn split_chars(s: &Vec<char>, sep: char) -> (parts: Vec<Vec<char>>)
    ensures
        parts@.len() == split_seq(s@, sep).len(),
        forall|i: int| 0 <= i < parts@.len() ==> #[trigger] parts@[i]@ == split_seq(s@, sep)[i],
{
    let mut parts: Vec<Vec<char>> = Vec::new();
    let mut cur: Vec<char> = Vec::new();
    let n = s.len();
    let mut i: usize = 0;
    while i < n
        invariant
            n == s@.len(),
            0 <= i <= n,
            parts@.len() + 1 == split_seq(s@.take(i as int), sep).len(),
            forall|k: int| 0 <= k < parts@.len() ==> #[trigger] parts@[k]@ == split_seq(
                s@.take(i as int),
                sep,
            )[k],
            cur@ == split_seq(s@.take(i as int), sep).last(),
        decreases n - i,
    {
        proof {
            lemma_split_nonempty(s@.take(i as int), sep);
            assert(s@.take(i + 1).drop_last() =~= s@.take(i as int));
            assert(s@.take(i + 1).last() == s@[i as int]);
        }
        let c = s[i];
        if c == sep {
            let done = cur;
            parts.push(done);
            cur = Vec::new();
        } else {
            cur.push(c);
        }
        i = i + 1;
    }
    proof {
        assert(s@.take(n as int) =~= s@);
        lemma_split_nonempty(s@, sep);
    }
    let last = cur;
    parts.push(last);
    parts
}

/// Splits a character vector at every occurrence of `sep`, each piece as a
/// string.
pub fn split_to_strings(cs: &Vec<char>, sep: char) -> (parts: Vec<String>)
    ensures
        parts.deep_view() == split_seq(cs@, sep),
{
    let pieces = split_chars(cs, sep);
    let mut parts: Vec<String> = Vec::new();
    let n = pieces.len();
    for i in 0..n
        invariant
            n == pieces@.len(),
            n == split_seq(cs@, sep).len(),
            forall|k: int| 0 <= k < n ==> #[trigger] pieces@[k]@ == split_seq(cs@, sep)[k],
            parts@.len() == i,
            forall|k: int| 0 <= k < i ==> #[trigger] parts@[k]@ == split_seq(cs@, sep)[k],
    {
        parts.push(string_of(&pieces[i]));
    }
    assert(parts.deep_view() =~= split_seq(cs@, sep));
    parts
}

/// Splits a string at every occurrence of `sep` (`str::split` with a
/// character pattern, each piece owned).
pub fn split_str(s: &str, sep: char) -> (parts: Vec<String>)
    ensures
        parts.deep_view() == split_seq(s@, sep),
{
    let cs = chars_of(s);
    split_to_strings(&cs, sep)
}

/// Appends the characters of `s` to `out`.
pub fn push_str_chars(out: &mut Vec<char>, s: &str)
    ensures
        final(out)@ == old(out)@ + s@,
{
    let cs = chars_of(s);
    let n = cs.len();
    for i in 0..n
        invariant
            n == cs@.len(),
            cs@ == s@,
            out@ == old(out)@ + s@.take(i as int),
    {
        out.push(cs[i]);
        proof {
            assert(s@.take(i + 1) =~= s@.take(i as int).push(s@[i as int]));
        }
    }
    assert(s@.take(n as int) =~= s@);
}

/// Joins strings with the separator `sep` between consecutive ones
/// (`[String]::join` with a one-character separator).
pub fn join_str(parts: &Vec<String>, sep: char) -> (r: String)
    ensures
        r@ == join_seq(parts.deep_view(), sep),
{
    let mut out: Vec<char> = Vec::new();
    let n = parts.len();
    for i in 0..n
        invariant
            n == parts@.len(),
            parts.deep_view().len() == n,
            out@ == join_seq(parts.deep_view().take(i as int), sep),
    {
        proof {
            assert(parts.deep_view().take(i + 1).drop_last() =~= parts.deep_view().take(i as int));
            assert(parts.deep_view()[i as int] == parts@[i as int]@);
        }
        if i > 0 {
            out.push(sep);
        }
        push_str_chars(&mut out, parts[i].as_str());
        proof {
            if i == 0 {
                assert(out@ =~= parts.deep_view().take(1)[0]);
            }
        }
    }
    assert(parts.deep_view().take(n as int) =~= parts.deep_view());
    string_of(&out)
}

/// Whether two character sequences are equal.
pub fn chars_eq(a: &Vec<char>, b: &Vec<char>) -> (r: bool)
    ensures
        r == (a@ == b@),
{
    if a.len() != b.len() {
        return false;
    }
    let n = a.len();
    for i in 0..n
        invariant
            n == a@.len(),
            n == b@.len(),
            forall|k: int| 0 <= k < i ==> a@[k] == b@[k],
    {
        if a[i] != b[i] {
            return false;
        }
    }
    assert(a@ =~= b@);
    true
}

/// Whether two string slices hold the same characters.
pub fn str_eq(a: &str, b: &str) -> (r: bool)
    ensures
        r == (a@ == b@),
{
    chars_eq(&chars_of(a), &chars_of(b))
}

// ---------------------------------------------------------------------------
// Trimming
// ---------------------------------------------------------------------------

/// `s` without every trailing occurrence of `c` (`str::trim_end_matches`
/// with a character pattern).
pub open spec fn trim_end_seq(s: Seq<char>, c: char) -> Seq<char>
    decreases s.len(),
{
    if s.len() > 0 && s.last() == c {
        trim_end_seq(s.drop_last(), c)
    } else {
        s
    }
}

/// Removes every trailing occurrence of `c`.
pub fn trim_end_chars(s: &Vec<char>, c: char) -> (r: Vec<char>)
    ensures
        r@ == trim_end_seq(s@, c),
{
    let mut end = s.len();
    assert(s@.take(end as int) =~= s@);
    while end > 0 && s[end - 1] == c
        invariant
            end <= s@.len(),
            trim_end_seq(s@.take(end as int), c) == trim_end_seq(s@, c),
        decreases end,
    {
        proof {
            assert(s@.take(end as int).drop_last() =~= s@.take(end - 1));
        }
        end = end - 1;
    }
    let mut r: Vec<char> = Vec::new();
    for i in 0..end
        invariant
            end <= s@.len(),
            r@ == s@.take(i as int),
    {
        r.push(s[i]);
        proof {
            assert(s@.take(i + 1) =~= s@.take(i as int).push(s@[i as int]));
        }
    }
    proof {
        assert(s@.take(s@.len() as int) =~= s@);
    }
    r
}

// ---------------------------------------------------------------------------
// Replacing
// ---------------------------------------------------------------------------

/// `s` with every non-overlapping occurrence of `pat`, found from left to
/// right, replaced by `rep` (`str::replace` with a non-empty pattern).
pub open spec fn replace_seq(s: Seq<char>, pat: Seq<char>, rep: Seq<char>) -> Seq<char>
    decreases s.len(),
{
    if pat.len() == 0 || s.len() < pat.len() {
        s
    } else if s.take(pat.len() as int) == pat {
        rep + replace_seq(s.skip(pat.len() as int), pat, rep)
    } else {
        seq![s[0]] + replace_seq(s.skip(1), pat, rep)
    }
}

/// Where `pat` occurs nowhere in `s`, replacing it changes nothing.
pub proof fn lemma_replace_absent(s: Seq<char>, pat: Seq<char>, rep: Seq<char>)
    requires
        pat.len() > 0,
        forall|i: int| 0 <= i && i + pat.len() <= s.len() ==> #[trigger] s.subrange(i, i + pat.len()) != pat,
    ensures
        replace_seq(s, pat, rep) == s,
    decreases s.len(),
{
    if s.len() >= pat.len() {
        assert(s.take(pat.len() as int) =~= s.subrange(0, 0int + pat.len()));
        let t = s.skip(1);
        assert forall|i: int| 0 <= i && i + pat.len() <= t.len() implies #[trigger] t.subrange(
            i,
            i + pat.len(),
        ) != pat by {
            let j = i + 1;
            assert(t.subrange(i, i + pat.len()) =~= s.subrange(j, j + pat.len()));
        }
        lemma_replace_absent(t, pat, rep);
        assert(seq![s[0]] + t =~= s);
    }
}

/// Text that holds no character starting `pat` passes through a replacement
/// unchanged, ahead of whatever follows it.
pub proof fn lemma_replace_prefix(a: Seq<char>, x: Seq<char>, pat: Seq<char>, rep: Seq<char>)
    requires
        pat.len() > 0,
        forall|i: int| 0 <= i < a.len() ==> a[i] != pat[0],
    ensures
        replace_seq(a + x, pat, rep) == a + replace_seq(x, pat, rep),
    decreases a.len(),
{
    let s = a + x;
    if a.len() == 0 {
        assert(s =~= x);
    } else if s.len() < pat.len() {
        assert(replace_seq(x, pat, rep) == x);
    } else {
        assert(s.take(pat.len() as int)[0] == a[0]);
        lemma_replace_prefix(a.skip(1), x, pat, rep);
        assert(s.skip(1) =~= a.skip(1) + x);
        assert(seq![a[0]] + (a.skip(1) + replace_seq(x, pat, rep)) =~= a + replace_seq(
            x,
            pat,
            rep,
        ));
    }
}

/// An occurrence of `pat` at the start is replaced by `rep`.
pub proof fn lemma_replace_front(x: Seq<char>, pat: Seq<char>, rep: Seq<char>)
    requires
        pat.len() > 0,
    ensures
        replace_seq(pat + x, pat, rep) == rep + replace_seq(x, pat, rep),
{
    let s = pat + x;
    assert(s.take(pat.len() as int) =~= pat);
    assert(s.skip(pat.len() as int) =~= x);
}

/// Whether `pat` occurs in `s` at position `at`.
fn occurs_at(s: &Vec<char>, pat: &Vec<char>, at: usize) -> (r: bool)
    requires
        at + pat@.len() <= s@.len(),
    ensures
        r == (s@.skip(at as int).take(pat@.len() as int) == pat@),
{
    let m = pat.len();
    for k in 0..m
        invariant
            m == pat@.len(),
            at + m <= s@.len(),
            forall|j: int| 0 <= j < k ==> s@[at + j] == pat@[j],
    {
        assert(at + k < s.len());
        if s[at + k] != pat[k] {
            proof {
                assert(s@.skip(at as int).take(m as int)[k as int] != pat@[k as int]);
            }
            return false;
        }
    }
    assert(s@.skip(at as int).take(m as int) =~= pat@);
    true
}

/// Replaces every non-overlapping occurrence of `pat` in `s`, from left to
/// right, by `rep`.
pub fn replace_str(s: &str, pat: &str, rep: &str) -> (r: String)
    requires
        pat@.len() > 0,
    ensures
        r@ == replace_seq(s@, pat@, rep@),
{
    let cs = chars_of(s);
    let ps = chars_of(pat);
    let n = cs.len();
    let m = ps.len();
    let mut out: Vec<char> = Vec::new();
    let mut i: usize = 0;
    assert(s@.skip(0) =~= s@);
    assert(out@ + replace_seq(s@, pat@, rep@) =~= replace_seq(s@, pat@, rep@));
    while n - i >= m
        invariant
            n == cs@.len(),
            m == ps@.len(),
            cs@ == s@,
            ps@ == pat@,
            m > 0,
            i <= n,
            out@ + replace_seq(s@.skip(i as int), pat@, rep@) == replace_seq(s@, pat@, rep@),
        decreases n - i,
    {
        let ghost rest = s@.skip(i as int);
        if occurs_at(&cs, &ps, i) {
            proof {
                assert(rest.take(m as int) == s@.skip(i as int).take(m as int));
                assert(rest.skip(m as int) =~= s@.skip(i + m));
                assert(out@ + (rep@ + replace_seq(rest.skip(m as int), pat@, rep@)) =~= (out@
                    + rep@) + replace_seq(s@.skip(i + m), pat@, rep@));
            }
            push_str_chars(&mut out, rep);
            i = i + m;
        } else {
            proof {
                assert(rest.skip(1) =~= s@.skip(i + 1));
                assert(rest[0] == cs@[i as int]);
                assert(out@ + (seq![rest[0]] + replace_seq(rest.skip(1), pat@, rep@)) =~= out@.push(
                    cs@[i as int],
                ) + replace_seq(s@.skip(i + 1), pat@, rep@));
            }
            out.push(cs[i]);
            i = i + 1;
        }
    }
    // What is left is shorter than the pattern and is copied unchanged.
    assert(replace_seq(s@.skip(i as int), pat@, rep@) == s@.skip(i as int));
    let ghost before = out@;
    let mut j = i;
    while j < n
        invariant
            n == cs@.len(),
            cs@ == s@,
            i <= j <= n,
            out@ == before + s@.subrange(i as int, j as int),
        decreases n - j,
    {
        out.push(cs[j]);
        proof {
            assert(s@.subrange(i as int, j + 1) =~= s@.subrange(i as int, j as int).push(
                s@[j as int],
            ));
        }
        j = j + 1;
    }
    proof {
        assert(s@.subrange(i as int, n as int) =~= s@.skip(i as int));
    }
    string_of(&out)
}

// ---------------------------------------------------------------------------
// Decimal numbers
// ---------------------------------------------------------------------------

/// The decimal digit character for a value below ten.
pub open spec fn digit_char(d: nat) -> char
    recommends
        d < 10,
{
    (d + 48) as char
}

/// Whether a character is an ASCII decimal digit.
pub open spec fn is_digit(c: char) -> bool {
    '0' <= c && c <= '9'
}

/// The decimal representation of `n`, without leading zeros.
pub open spec fn dec_seq(n: nat) -> Seq<char>
    decreases n,
{
    if n < 10 {
        seq![digit_char(n)]
    } else {
        dec_seq(n / 10).push(digit_char(n % 10))
    }
}

/// Every character of a decimal representation is a digit, and it has one
/// character exactly for values below ten.
pub proof fn lemma_dec_digits(n: nat)
    ensures
        forall|i: int| 0 <= i < dec_seq(n).len() ==> is_digit(#[trigger] dec_seq(n)[i]),
        dec_seq(n).len() >= 1,
        (dec_seq(n).len() == 1) == (n < 10),
    decreases n,
{
    if n >= 10 {
        lemma_dec_digits(n / 10);
    }
}

fn digit(d: u32) -> (c: char)
    requires
        d < 10,
    ensures
        c == digit_char(d as nat),
{
    let b: u8 = 48u8 + (d as u8);
    b as char
}

/// Appends the decimal representation of `n` to `out`.
pub fn push_decimal(out: &mut Vec<char>, n: u32)
    ensures
        final(out)@ == old(out)@ + dec_seq(n as nat),
    decreases n,
{
    if n >= 10 {
        push_decimal(out, n / 10);
    }
    out.push(digit(n % 10));
    proof {
        if n >= 10 {
            assert(old(out)@ + dec_seq((n / 10) as nat).push(digit_char((n % 10) as nat)) =~= (
            old(out)@ + dec_seq((n / 10) as nat)).push(digit_char((n % 10) as nat)));
        } else {
            assert(old(out)@.push(digit_char(n as nat)) =~= old(out)@ + seq![digit_char(n as nat)]);
        }
    }
}

/// The value of a sequence of decimal digits.
pub open spec fn digits_value(d: Seq<char>) -> int
    decreases d.len(),
{
    if d.len() == 0 {
        0
    } else {
        digits_value(d.drop_last()) * 10 + (d.last() as int - 48)
    }
}

/// Whether every character is an ASCII decimal digit.
pub open spec fn all_digits(d: Seq<char>) -> bool {
    forall|i: int| 0 <= i < d.len() ==> is_digit(#[trigger] d[i])
}

/// The value of an unsigned integer written as `str::parse` reads it: an
/// optional leading `+` (not alone), then one or more ASCII digits, of value
/// at most `max`.
pub open spec fn parse_unsigned(s: Seq<char>, max: int) -> Option<int> {
    let d = if s.len() > 1 && s[0] == '+' {
        s.drop_first()
    } else {
        s
    };
    if d.len() > 0 && all_digits(d) && digits_value(d) <= max {
        Some(digits_value(d))
    } else {
        None
    }
}

/// A prefix of a digit sequence has at most the value of the whole.
pub proof fn lemma_digits_value_prefix(d: Seq<char>, k: int)
    requires
        all_digits(d),
        0 <= k <= d.len(),
    ensures
        0 <= digits_value(d.take(k)) <= digits_value(d),
    decreases d.len(),
{
    if d.len() > 0 {
        if k == d.len() {
            assert(d.take(k) =~= d);
            lemma_digits_value_prefix(d.drop_last(), d.len() - 1);
            assert(d.drop_last().take(d.len() - 1) =~= d.drop_last());
        } else {
            lemma_digits_value_prefix(d.drop_last(), k);
            assert(d.drop_last().take(k) =~= d.take(k));
            lemma_digits_value_prefix(d.drop_last(), d.len() - 1);
            assert(d.drop_last().take(d.len() - 1) =~= d.drop_last());
        }
    } else {
        assert(d.take(k) =~= d);
    }
}

/// Parses an unsigned integer no greater than `max`, as `str::parse` does for
/// the unsigned integer type whose largest value is `max`.
pub fn parse_unsigned_str(s: &str, max: u64) -> (r: Option<u64>)
    ensures
        parse_unsigned(s@, max as int) matches Some(v) ==> 0 <= v <= max,
        match parse_unsigned(s@, max as int) {
            Some(v) => r == Some(v as u64),
            None => r is None,
        },
{
    let cs = chars_of(s);
    let n = cs.len();
    let start: usize = if n > 1 && cs[0] == '+' {
        1
    } else {
        0
    };
    let ghost d = if s@.len() > 1 && s@[0] == '+' {
        s@.drop_first()
    } else {
        s@
    };
    assert(d =~= s@.skip(start as int));
    if start == n {
        return None;
    }
    let mut value: u64 = 0;
    let mut overflow = false;
    let mut i = start;
    while i < n
        invariant
            n == cs@.len(),
            cs@ == s@,
            d =~= s@.skip(start as int),
            d == (if s@.len() > 1 && s@[0] == '+' {
                s@.drop_first()
            } else {
                s@
            }),
            start <= i <= n,
            forall|j: int| start <= j < i ==> is_digit(#[trigger] s@[j]),
            !overflow ==> value == digits_value(d.take(i - start)),
            !overflow ==> value <= max,
            overflow ==> (all_digits(d) ==> digits_value(d) > max),
        decreases n - i,
    {
        let c = cs[i];
        if !('0' <= c && c <= '9') {
            proof {
                assert(d[i - start] == c);
                assert(!is_digit(d[i - start]));
                assert(!all_digits(d));
            }
            return None;
        }
        proof {
            assert(d.take(i - start + 1).drop_last() =~= d.take(i - start));
            assert(d.take(i - start + 1).last() == c);
        }
        if !overflow {
            assert((c as u32) >= 48 && (c as u32) <= 57);
            let dv = (c as u32 - 48) as u64;
            assert(dv == c as int - 48);
            if dv > max || value > (max - dv) / 10 {
                proof {
                    if dv <= max {
                        assert(value * 10 + dv > max) by (nonlinear_arith)
                            requires
                                value > (max - dv) / 10,
                                dv <= max,
                        {
                        }
                    }
                    assert(digits_value(d.take(i - start + 1)) == value * 10 + dv);
                    if all_digits(d) {
                        lemma_digits_value_prefix(d, i - start + 1);
                    }
                }
                overflow = true;
            } else {
                value = value * 10 + dv;
            }
        }
        i = i + 1;
    }
    assert(d.take(n - start) =~= d);
    assert forall|j: int| 0 <= j < d.len() implies is_digit(#[trigger] d[j]) by {
        assert(d[j] == s@[start + j]);
    }
    assert(all_digits(d));
    proof {
        lemma_digits_value_prefix(d, d.len() as int);
        assert(d.take(d.len() as int) =~= d);
    }
    if overflow {
        None
    } else {
        Some(value)
    }
}

/// Parses a `u64` as `str::parse::<u64>` does.
pub fn parse_u64(s: &str) -> (r: Option<u64>)
    ensures
        parse_unsigned(s@, u64::MAX as int) matches Some(v) ==> 0 <= v <= u64::MAX,
        match parse_unsigned(s@, u64::MAX as int) {
            Some(v) => r == Some(v as u64),
            None => r is None,
        },
{
    parse_unsigned_str(s, u64::MAX)
}

/// Parses a `u8` as `str::parse::<u8>` does.
pub fn parse_u8(s: &str) -> (r: Option<u8>)
    ensures
        parse_unsigned(s@, u8::MAX as int) matches Some(v) ==> 0 <= v <= u8::MAX,
        match parse_unsigned(s@, u8::MAX as int) {
            Some(v) => r == Some(v as u8),
            None => r is None,
        },
{
    match parse_unsigned_str(s, 255) {
        Some(v) => {
            assert(v <= 255);
            Some(v as u8)
        },
        None => None,
    }
}

// ---------------------------------------------------------------------------
// Case
// ---------------------------------------------------------------------------

/// The ASCII lower case of a character; other characters are unchanged.
pub open spec fn ascii_lower(c: char) -> char {
    if 'A' <= c && c <= 'Z' {
        ((c as int) + 32) as char
    } else {
        c
    }
}

/// Whether two texts are equal up to ASCII case (`str::eq_ignore_ascii_case`).
pub open spec fn eq_ignore_ascii_case_seq(a: Seq<char>, b: Seq<char>) -> bool {
    a.len() == b.len() && forall|i: int| 0 <= i < a.len() ==> ascii_lower(#[trigger] a[i])
        == ascii_lower(b[i])
}

/// Whether `c` is an ASCII upper case letter, `A` (65) to `Z` (90).
pub open spec fn is_ascii_upper(c: char) -> bool {
    65 <= (c as u32) && (c as u32) <= 90
}

/// Two characters are equal up to ASCII case exactly where they are equal or
/// one is an ASCII upper case letter and the other its lower case letter,
/// 32 code points above it.
proof fn lemma_ascii_lower_pair(x: char, y: char)
    ensures
        (ascii_lower(x) == ascii_lower(y)) <==> (x == y || (is_ascii_upper(x) && (y as u32) == (x
            as u32) + 32) || (is_ascii_upper(y) && (x as u32) == (y as u32) + 32)),
{
    if 'A' <= x && x <= 'Z' {
        assert((ascii_lower(x) as u32) == (x as u32) + 32);
    }
    if 'A' <= y && y <= 'Z' {
        assert((ascii_lower(y) as u32) == (y as u32) + 32);
    }
}

/// Equality up to ASCII case: two texts of the same length whose characters
/// at each position are equal, or are an ASCII upper case letter and its
/// lower case letter (32 code points above it), in either order; in
/// particular `A`..`Z` match `a`..`z`, and nothing else differs.
pub proof fn law_eq_ignore_ascii_case(a: Seq<char>, b: Seq<char>)
    ensures
        eq_ignore_ascii_case_seq(a, b) <==> (a.len() == b.len() && forall|i: int|
            0 <= i < a.len() ==> (#[trigger] a[i] == b[i] || (is_ascii_upper(a[i]) && (b[i] as u32)
                == (a[i] as u32) + 32) || (is_ascii_upper(b[i]) && (a[i] as u32) == (b[i] as u32)
                + 32))),
{
    assert forall|i: int| 0 <= i < a.len() && i < b.len() implies (ascii_lower(#[trigger] a[i])
        == ascii_lower(b[i])) <==> (a[i] == b[i] || (is_ascii_upper(a[i]) && (b[i] as u32) == (
        a[i] as u32) + 32) || (is_ascii_upper(b[i]) && (a[i] as u32) == (b[i] as u32) + 32)) by {
        lemma_ascii_lower_pair(a[i], b[i]);
    }
}

fn lower_char(c: char) -> (r: char)
    ensures
        r == ascii_lower(c),
{
    if 'A' <= c && c <= 'Z' {
        let b: u8 = (c as u8) + 32;
        b as char
    } else {
        c
    }
}

/// Whether two strings are equal up to ASCII case.
pub fn eq_ignore_ascii_case(a: &str, b: &str) -> (r: bool)
    ensures
        r == eq_ignore_ascii_case_seq(a@, b@),
{
    let x = chars_of(a);
    let y = chars_of(b);
    if x.len() != y.len() {
        return false;
    }
    let n = x.len();
    for i in 0..n
        invariant
            n == x@.len(),
            n == y@.len(),
            x@ == a@,
            y@ == b@,
            forall|k: int| 0 <= k < i ==> ascii_lower(#[trigger] x@[k]) == ascii_lower(y@[k]),
    {
        if lower_char(x[i]) != lower_char(y[i]) {
            return false;
        }
    }
    true
}

/// What `str::to_uppercase` returns for a text (Unicode upper case mapping).
pub uninterp spec fn unicode_uppercase(s: Seq<char>) -> Seq<char>;

/// What `str::to_lowercase` returns for a text (Unicode lower case mapping).
pub uninterp spec fn unicode_lowercase(s: Seq<char>) -> Seq<char>;

/// `str::to_uppercase`: the Unicode upper case of `s`. The contract names the
/// result and says nothing more of the case mapping.
#[verifier::external_body]
pub(crate) fn to_uppercase(s: &str) -> (r: String)
    ensures
        r@ == unicode_uppercase(s@),
{
    s.to_uppercase()
}

/// `str::to_lowercase`: the Unicode lower case of `s`. The contract names the
/// result and says nothing more of the case mapping.
#[verifier::external_body]
pub(crate) fn to_lowercase(s: &str) -> (r: String)
    ensures
        r@ == unicode_lowercase(s@),
{
    s.to_lowercase()
}

} // verus!
