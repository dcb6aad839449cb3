use vstd::prelude::*;
use vstd::string::*;

use crate::error::PathError;
use crate::ledger::{Ledger, is_line, with_entry, without_entry};
use crate::path::{join, join_path, trim_end, trimmed_len};
use crate::text::{same_text, starts_with_text};

verus! {

/// What path_clean's `clean` makes of a path.
pub uninterp spec fn cleaned_of(p: Seq<char>) -> Seq<char>;

/// Relies on path_clean's `clean`: it resolves `.` and `..` components and
/// repeated separators by the text alone, and gives `.` rather than an
/// empty path.
#[verifier::external_body]
pub(crate) fn clean_text(p: &str) -> (r: String)
    ensures
        r@ == cleaned_of(p@),
        r@.len() > 0,
{
    path_clean::clean(p).to_string_lossy().into_owned()
}

/// `p` with directory `d` taken off its front, when `p` is `d` or lies
/// below it, component by component; trailing separators of `d` do not
/// matter.
pub open spec fn strip_dir_prefix(p: Seq<char>, dir: Seq<char>) -> Option<Seq<char>> {
    let d = trim_end(dir);
    if d.len() == 0 || d.len() > p.len() || p.take(d.len() as int) != d {
        None
    } else if p.len() == d.len() {
        Some(Seq::empty())
    } else if d.last() == '/' {
        Some(p.skip(d.len() as int))
    } else if p[d.len() as int] == '/' {
        Some(p.skip(d.len() as int + 1))
    } else {
        None
    }
}

/// The placeholder that stands for the home directory in stored paths.
pub open spec fn home_mark() -> Seq<char> {
    seq!['~']
}

/// `p` with a leading home directory written as `~`.
pub open spec fn abbreviated(p: Seq<char>, home: Seq<char>) -> Seq<char> {
    match strip_dir_prefix(p, home) {
        Some(rest) => if rest.len() == 0 {
            home_mark()
        } else {
            join(home_mark(), rest)
        },
        None => p,
    }
}

/// `p` made absolute against the working directory `cwd`.
pub open spec fn absolute(p: Seq<char>, cwd: Seq<char>) -> Seq<char> {
    if p.len() > 0 && p[0] == '/' {
        p
    } else {
        join(cwd, p)
    }
}

/// The form in which a path is stored in a ledger: absolute, cleaned, and
/// with the home directory abbreviated.
pub open spec fn stored_form(p: Seq<char>, cwd: Seq<char>, home: Seq<char>) -> Seq<char> {
    abbreviated(cleaned_of(absolute(p, cwd)), home)
}

/// Writes a leading home directory of the cleaned path `path` as `~`, so
/// that stored paths carry over between machines.
pub fn abbreviate_home(path: &str, home: &str) -> (r: String)
    ensures
        r@ == abbreviated(path@, home@),
{
    proof {
        reveal_strlit("~");
    }
    let n = path.unicode_len();
    let hk = trimmed_len(home);
    let h = home.substring_char(0, hk);
    let k = h.unicode_len();
    if k == 0 || !starts_with_text(path, h) {
        return String::from_str(path);
    }
    assert(h@.len() == k);
    assert(trim_end(home@) == h@);
    let rest: &str = if n == k {
        ""
    } else if h.get_char(k - 1) == '/' {
        path.substring_char(k, n)
    } else if path.get_char(k) == '/' {
        path.substring_char(k + 1, n)
    } else {
        return String::from_str(path);
    };
    proof {
        reveal_strlit("");
    }
    assert(strip_dir_prefix(path@, home@) == Some(rest@)) by {
        if n == k {
            assert(rest@ =~= Seq::<char>::empty());
        } else if h@.last() == '/' {
            assert(rest@ =~= path@.skip(k as int));
        } else {
            assert(rest@ =~= path@.skip(k + 1));
        }
    }
    assert("~"@ =~= home_mark());
    if rest.unicode_len() == 0 {
        String::from_str("~")
    } else {
        join_path("~", rest)
    }
}

/// The form in which `path` is stored in a ledger, with `cwd` the working
/// directory and `home` the home directory.
pub fn clean_path_to_store(path: &str, cwd: &str, home: &str) -> (r: String)
    ensures
        r@ == stored_form(path@, cwd@, home@),
{
    let n = path.unicode_len();
    let absolute_path = if n > 0 && path.get_char(0) == '/' {
        String::from_str(path)
    } else {
        join_path(cwd, path)
    };
    let cleaned = clean_text(absolute_path.as_str());
    abbreviate_home(cleaned.as_str(), home)
}

/// Starts tracking `file`, stored as `clean_path_to_store` gives it.
/// Returns `Ok(false)`, with the ledger unchanged, when it is tracked
/// already. An entry counts as the same path only when the whole line
/// equals it: a line that merely contains it as a substring does not.
pub fn add(ledger: &mut Ledger, file: &str, cwd: &str, home: &str) -> (r: Result<bool, PathError>)
    requires
        old(ledger).wf(),
    ensures
        final(ledger).wf(),
        ({
            let p = stored_form(file@, cwd@, home@);
            &&& is_line(p) ==> (r matches Ok(added) && added == !old(ledger)@.contains(p)
                && final(ledger)@ == with_entry(old(ledger)@, p))
            &&& !is_line(p) ==> (r matches Err(PathError::InvalidLedgerEntry(e)) && e@ == p
                && final(ledger)@ == old(ledger)@)
        }),
{
    let stored = clean_path_to_store(file, cwd, home);
    ledger.push(stored.as_str())
}

/// Stops tracking `file` and records it among the removed files, so that
/// its copy in the repository can be dealt with later. Returns whether it
/// was tracked. Only lines equal to the stored path are removed, not lines
/// that merely contain it.
pub fn remove(
    tracking: &mut Ledger,
    removed: &mut Ledger,
    file: &str,
    cwd: &str,
    home: &str,
) -> (r: Result<bool, PathError>)
    requires
        old(tracking).wf(),
        old(removed).wf(),
    ensures
        final(tracking).wf(),
        final(removed).wf(),
        ({
            let p = stored_form(file@, cwd@, home@);
            &&& final(tracking)@ == without_entry(old(tracking)@, p)
            &&& is_line(p) ==> (r matches Ok(was) && was == old(tracking)@.contains(p)
                && final(removed)@ == with_entry(old(removed)@, p))
            &&& !is_line(p) ==> (r matches Err(PathError::InvalidLedgerEntry(e)) && e@ == p
                && final(removed)@ == old(removed)@)
        }),
{
    let stored = clean_path_to_store(file, cwd, home);
    let was = tracking.remove(stored.as_str());
    match removed.push(stored.as_str()) {
        Ok(_) => Ok(was),
        Err(e) => Err(e),
    }
}

} // verus!
