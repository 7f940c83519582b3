//! What the GitHub synchronisation reads from a project URL and from a task
//! description.

use vstd::prelude::*;

use crate::text::{
    chars_of, is_digit, lemma_split_around_sep, lemma_split_without_sep, split_seq, split_to_strings,
    trim_end_chars, trim_end_seq,
};

verus! {

/// The organization and project number of a GitHub project URL: after the
/// trailing slashes are removed and the rest is split at every `/`, the
/// third piece from the end and the last piece; an error where there are
/// fewer than three pieces.
pub open spec fn organization_from_url(url: Seq<char>) -> Result<(Seq<char>, Seq<char>), Seq<char>> {
    let parts = split_seq(trim_end_seq(url, '/'), '/');
    if parts.len() < 3 {
        Err("Invalid URL"@)
    } else {
        Ok((parts[parts.len() - 3], parts[parts.len() - 1]))
    }
}

/// Reads the organization and the project number from a GitHub project URL
/// such as `https://github.com/orgs/ORGANIZATION/projects/NUMBER`.
pub fn get_github_organization_from_url(url: &str) -> (r: Result<(String, String), String>)
    ensures
        match organization_from_url(url@) {
            Ok((org, project)) => r matches Ok((o, p)) && o@ == org && p@ == project,
            Err(e) => r matches Err(m) && m@ == e,
        },
{
    let cs = chars_of(url);
    let trimmed = trim_end_chars(&cs, '/');
    let mut parts = split_to_strings(&trimmed, '/');
    let n = parts.len();
    if n < 3 {
        return Err(String::from_str("Invalid URL"));
    }
    let project = parts.remove(n - 1);
    let _ = parts.remove(n - 2);
    let organization = parts.remove(n - 3);
    Ok((organization, project))
}

/// Whether a text holds no `/`.
pub open spec fn free_of_slash(s: Seq<char>) -> bool {
    forall|i: int| 0 <= i < s.len() ==> #[trigger] s[i] != '/'
}

/// A URL made of any prefix, then `/ORGANIZATION/SEGMENT/NUMBER`, then any
/// number of slashes, gives that organization and number, where none of the
/// three holds a `/` and the number is not empty.
pub proof fn law_organization_from_url(
    prefix: Seq<char>,
    organization: Seq<char>,
    segment: Seq<char>,
    number: Seq<char>,
    slashes: nat,
)
    requires
        free_of_slash(organization),
        free_of_slash(segment),
        free_of_slash(number),
        number.len() > 0,
    ensures
        organization_from_url(
            prefix + seq!['/'] + organization + seq!['/'] + segment + seq!['/'] + number + Seq::new(
                slashes,
                |i: int| '/',
            ),
        ) == Ok::<(Seq<char>, Seq<char>), Seq<char>>((organization, number)),
    decreases slashes,
{
    let core = prefix + seq!['/'] + organization + seq!['/'] + segment + seq!['/'] + number;
    let url = core + Seq::new(slashes, |i: int| '/');
    if slashes > 0 {
        law_organization_from_url(prefix, organization, segment, number, (slashes - 1) as nat);
        assert(url.drop_last() =~= core + Seq::new((slashes - 1) as nat, |i: int| '/'));
        assert(url.last() == '/');
    } else {
        assert(url =~= core);
        assert(core.last() == number.last());
        assert(core.last() != '/');
        lemma_split_without_sep(organization, '/');
        lemma_split_without_sep(segment, '/');
        lemma_split_without_sep(number, '/');
        lemma_split_around_sep(segment, number, '/');
        lemma_split_around_sep(organization, segment.push('/') + number, '/');
        lemma_split_around_sep(prefix, organization.push('/') + (segment.push('/') + number), '/');
        assert(core =~= prefix.push('/') + (organization.push('/') + (segment.push('/') + number)));
        let parts = split_seq(core, '/');
        assert(parts =~= split_seq(prefix, '/') + seq![organization, segment, number]);
    }
}

/// What `regex::Regex::new` gives for a pattern: `Ok(())` where it compiles,
/// else the text of the error (`Display` of `regex::Error`).
pub uninterp spec fn regex_compile(pattern: Seq<char>) -> Result<(), Seq<char>>;

/// What `regex::Regex::captures` finds: the text of the capture group
/// `group` in the leftmost-first match of `pattern` in `haystack`, or `None`
/// where there is no match or the group takes no part in it.
pub uninterp spec fn regex_capture(pattern: Seq<char>, haystack: Seq<char>, group: usize) -> Option<
    Seq<char>,
>;

/// Whether `h` is `p`, then `#`, then the run of ASCII digits `d`, then
/// `rest`, where `p` holds no `#`, `d` is not empty, and `rest` is empty or
/// starts with an ASCII character that is not a digit: the first `#` in `h`
/// is followed by the whole digit run `d`.
pub open spec fn issue_ref_shape(h: Seq<char>, p: Seq<char>, d: Seq<char>, rest: Seq<char>) -> bool {
    &&& h == p + seq!['#'] + d + rest
    &&& forall|i: int| 0 <= i < p.len() ==> p[i] != '#'
    &&& d.len() > 0
    &&& forall|i: int| 0 <= i < d.len() ==> is_digit(d[i])
    &&& rest.len() == 0 || ((rest[0] as u32) < 128 && !is_digit(rest[0]))
}

/// `regex::Regex::new(pattern)`, then `captures(haystack)` and the capture
/// group `group`. The contract names both results; of the regular
/// expression semantics it states one fact, for the pattern `#(\d+)` that
/// this library uses: the pattern compiles, and where the first `#` of the
/// haystack is followed by a run of ASCII digits that ends at the end or at
/// an ASCII non-digit, group 1 of the leftmost-first match is that whole run
/// (`\d` matches every ASCII digit and no other ASCII character, and `+` is
/// greedy, as the crate's syntax documentation says).
#[verifier::external_body]
fn regex_first_capture(pattern: &str, haystack: &str, group: usize) -> (r: Result<
    Option<String>,
    String,
>)
    ensures
        match regex_compile(pattern@) {
            Err(e) => r matches Err(m) && m@ == e,
            Ok(_) => r matches Ok(c) && match regex_capture(pattern@, haystack@, group) {
                Some(t) => c matches Some(x) && x@ == t,
                None => c is None,
            },
        },
        pattern@ == "#(\\d+)"@ && group == 1 ==> r is Ok,
        forall|p: Seq<char>, d: Seq<char>, rest: Seq<char>|
            #[trigger] issue_ref_shape(haystack@, p, d, rest) && pattern@ == "#(\\d+)"@ && group
                == 1 ==> r is Ok && r->Ok_0 is Some && r->Ok_0->Some_0@ == d,
{
    match regex::Regex::new(pattern) {
        Ok(re) => Ok(
            re.captures(haystack).and_then(|c| c.get(group)).map(|m| m.as_str().to_string()),
        ),
        Err(e) => Err(e.to_string()),
    }
}

/// The issue number in a task description: the digits after the first `#`
/// followed by digits, as the pattern `#(\d+)` finds them.
pub open spec fn issue_nr_pattern() -> Seq<char> {
    "#(\\d+)"@
}

/// The issue number referenced in a task description, as the lookup finds
/// it: the error of the pattern, the captured digits, or an error saying
/// that there is none.
pub open spec fn issue_nr_of(task_description: Seq<char>) -> Result<Seq<char>, Seq<char>> {
    match regex_compile(issue_nr_pattern()) {
        Err(e) => Err(e),
        Ok(_) => match regex_capture(issue_nr_pattern(), task_description, 1) {
            Some(nr) => Ok(nr),
            None => Err("No issue number found in the task description"@),
        },
    }
}

/// The issue number lookup's answer for the outcome of the regular
/// expression search.
pub fn issue_nr_from_capture(found: Result<Option<String>, String>) -> (r: Result<String, String>)
    ensures
        match found {
            Err(e) => r matches Err(m) && m@ == e@,
            Ok(Some(nr)) => r matches Ok(x) && x@ == nr@,
            Ok(None) => r matches Err(m) && m@ == "No issue number found in the task description"@,
        },
{
    match found {
        Err(e) => Err(e),
        Ok(Some(nr)) => Ok(nr),
        Ok(None) => Err(String::from_str("No issue number found in the task description")),
    }
}

/// The issue number referenced in a task description as `#NUMBER`.
pub fn get_github_issue_nr_from_task_description(task_description: &str) -> (r: Result<
    String,
    String,
>)
    ensures
        match issue_nr_of(task_description@) {
            Ok(nr) => r matches Ok(x) && x@ == nr,
            Err(e) => r matches Err(m) && m@ == e,
        },
        forall|p: Seq<char>, d: Seq<char>, rest: Seq<char>|
            #[trigger] issue_ref_shape(task_description@, p, d, rest) ==> r is Ok && r->Ok_0@ == d,
{
    let found = regex_first_capture("#(\\d+)", task_description, 1);
    issue_nr_from_capture(found)
}

} // verus!
