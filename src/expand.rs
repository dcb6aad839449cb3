use vstd::prelude::*;
use vstd::string::*;

use crate::error::PathError;
use crate::path::{relative_path, repository_path};
use crate::store::cleaned_of;
use crate::text::same_text;

verus! {

/// The names and values of the environment variables, as characters.
pub open spec fn vars_view(vars: Seq<(String, String)>) -> Seq<(Seq<char>, Seq<char>)> {
    vars.map_values(|v: (String, String)| (v.0@, v.1@))
}

/// The value of the first variable called `name`, if any.
pub open spec fn lookup_of(vars: Seq<(Seq<char>, Seq<char>)>, name: Seq<char>) -> Option<Seq<char>>
    decreases vars.len(),
{
    if vars.len() == 0 {
        None
    } else if vars[0].0 == name {
        Some(vars[0].1)
    } else {
        lookup_of(vars.drop_first(), name)
    }
}

/// What shellexpand's `full_with_context` makes of `input`, with `~`
/// standing for `home` and variables looked up in `vars`; `None` when a
/// variable that it needs is not set.
pub uninterp spec fn expanded_of(
    input: Seq<char>,
    home: Seq<char>,
    vars: Seq<(Seq<char>, Seq<char>)>,
) -> Option<Seq<char>>;

/// Looks up variable `name`; an unset variable is an error, as it is for
/// the process environment.
pub fn lookup_variable(vars: &Vec<(String, String)>, name: &str) -> (r: Result<Option<String>, ()>)
    ensures
        match lookup_of(vars_view(vars@), name@) {
            Some(v) => r matches Ok(Some(s)) && s@ == v,
            None => r is Err,
        },
{
    let ghost all = vars_view(vars@);
    let mut i: usize = 0;
    assert(all.skip(0) =~= all);
    while i < vars.len()
        invariant
            i <= vars@.len(),
            all == vars_view(vars@),
            lookup_of(all, name@) == lookup_of(all.skip(i as int), name@),
        decreases vars@.len() - i,
    {
        let ghost rest = all.skip(i as int);
        assert(rest[0] == (vars@[i as int].0@, vars@[i as int].1@));
        assert(rest.drop_first() =~= all.skip(i + 1));
        if same_text(vars[i].0.as_str(), name) {
            return Ok(Some(vars[i].1.clone()));
        }
        i = i + 1;
    }
    assert(all.skip(i as int).len() == 0);
    Err(())
}

/// Relies on shellexpand's `full_with_context`: it expands a leading `~`
/// and `$NAME` or `${NAME}` variables; it fails only when a lookup fails.
#[verifier::external_body]
fn expand_text(input: &str, home: &str, vars: &Vec<(String, String)>) -> (r: Option<String>)
    ensures
        match r {
            Some(s) => expanded_of(input@, home@, vars_view(vars@)) == Some(s@),
            None => expanded_of(input@, home@, vars_view(vars@)) is None,
        },
{
    match shellexpand::full_with_context(input, || Some(home), |n: &str| lookup_variable(vars, n)) {
        Ok(s) => Some(s.into_owned()),
        Err(_) => None,
    }
}

/// Expands `~` and variables in a stored path, then cleans it.
pub fn try_expand_path(path: &str, home: &str, vars: &Vec<(String, String)>) -> (r: Result<
    String,
    PathError,
>)
    ensures
        match expanded_of(path@, home@, vars_view(vars@)) {
            Some(e) => r matches Ok(s) && s@ == cleaned_of(e),
            None => r matches Err(PathError::FailedExpandingPath(p)) && p@ == path@,
        },
{
    match expand_text(path, home, vars) {
        Some(e) => Ok(crate::store::clean_text(e.as_str())),
        None => Err(PathError::FailedExpandingPath(String::from_str(path))),
    }
}

/// Where a ledger entry lives on the filesystem and where its copy lives
/// in the repository at `dotfiles_directory`.
pub fn locate_entry(
    entry: &str,
    home: &str,
    vars: &Vec<(String, String)>,
    dotfiles_directory: &str,
) -> (r: Result<(String, String), PathError>)
    ensures
        match expanded_of(entry@, home@, vars_view(vars@)) {
            None => r matches Err(PathError::FailedExpandingPath(p)) && p@ == entry@,
            Some(e) => match repository_path(cleaned_of(e), home@, dotfiles_directory@) {
                Some(q) => r matches Ok((f, g)) && f@ == cleaned_of(e) && g@ == q,
                None => r matches Err(PathError::FailedRetrievingFileMetadata(p)) && p@ == cleaned_of(
                    e,
                ),
            },
        },
{
    let file = try_expand_path(entry, home, vars)?;
    let repo = relative_path(file.as_str(), home, dotfiles_directory)?;
    Ok((file, repo))
}

} // verus!
