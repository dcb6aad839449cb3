use vstd::prelude::*;
use vstd::string::*;

use crate::path::{
    dir_of, file_name_of, has_name, join, join_path, lemma_join_name, lemma_join_prefix,
    lemma_name_no_sep, lemma_trim_end_stable, no_sep, dir_prefix, split_path, trim_end,
};

verus! {

/// The decimal digit for `d`.
pub open spec fn digit_char(d: int) -> char {
    if d == 0 {
        '0'
    } else if d == 1 {
        '1'
    } else if d == 2 {
        '2'
    } else if d == 3 {
        '3'
    } else if d == 4 {
        '4'
    } else if d == 5 {
        '5'
    } else if d == 6 {
        '6'
    } else if d == 7 {
        '7'
    } else if d == 8 {
        '8'
    } else {
        '9'
    }
}

/// The decimal digits of `n`, without leading zeros.
pub open spec fn digits_of(n: nat) -> Seq<char>
    decreases n,
{
    if n < 10 {
        seq![digit_char(n as int)]
    } else {
        digits_of(n / 10).push(digit_char((n % 10) as int))
    }
}

/// `n` written in decimal, with a leading `-` when negative.
pub open spec fn decimal_of(n: int) -> Seq<char> {
    if n < 0 {
        seq!['-'] + digits_of((-n) as nat)
    } else {
        digits_of(n as nat)
    }
}

/// What separates a file's name from the suffix of its backup.
pub open spec fn backup_marker() -> Seq<char> {
    seq!['.', 'b', 'k', 'p', '-']
}

/// The sibling of `p` that holds its backup with the given suffix: in the
/// same directory, the name followed by the marker and the suffix, as
/// `PathBuf::set_file_name` puts it.
pub open spec fn backup_path(p: Seq<char>, suffix: int) -> Option<Seq<char>> {
    if has_name(p) {
        Some(join(dir_of(p), backup_name(p, suffix)))
    } else {
        None
    }
}

/// The name of a backup file: the name of the file it saves, the marker,
/// the suffix.
pub open spec fn backup_name(p: Seq<char>, suffix: int) -> Seq<char> {
    file_name_of(p) + backup_marker() + decimal_of(suffix)
}

proof fn lemma_digit_char_distinct(a: int, b: int)
    requires
        0 <= a < 10,
        0 <= b < 10,
        digit_char(a) == digit_char(b),
    ensures
        a == b,
{
}

proof fn lemma_digits_facts(n: nat)
    ensures
        digits_of(n).len() >= 1,
        n >= 10 ==> digits_of(n).len() >= 2,
        forall|j: int|
            0 <= j < digits_of(n).len() ==> digits_of(n)[j] != '-' && digits_of(n)[j] != '/'
                && digits_of(n)[j] != '.',
    decreases n,
{
    if n >= 10 {
        lemma_digits_facts(n / 10);
        let d = digits_of(n / 10);
        assert forall|j: int| 0 <= j < digits_of(n).len() implies digits_of(n)[j] != '-'
            && digits_of(n)[j] != '/' && digits_of(n)[j] != '.' by {
            if j < d.len() {
                assert(digits_of(n)[j] == d[j]);
            }
        }
    }
}

proof fn lemma_digits_injective(n: nat, m: nat)
    requires
        digits_of(n) == digits_of(m),
    ensures
        n == m,
    decreases n,
{
    lemma_digits_facts(n);
    lemma_digits_facts(m);
    if n < 10 && m < 10 {
        assert(digits_of(n) == seq![digit_char(n as int)]);
        assert(digits_of(m) == seq![digit_char(m as int)]);
        assert(digits_of(n)[0] == digit_char(n as int));
        assert(digits_of(m)[0] == digit_char(m as int));
        lemma_digit_char_distinct(n as int, m as int);
    } else if n >= 10 && m >= 10 {
        let a = digits_of(n);
        let b = digits_of(m);
        assert(a.last() == b.last());
        lemma_digit_char_distinct((n % 10) as int, (m % 10) as int);
        assert(a.drop_last() =~= digits_of(n / 10));
        assert(b.drop_last() =~= digits_of(m / 10));
        lemma_digits_injective(n / 10, m / 10);
    }
}

/// Distinct integers are written differently.
pub proof fn lemma_decimal_injective(a: int, b: int)
    requires
        decimal_of(a) == decimal_of(b),
    ensures
        a == b,
{
    if a < 0 && b < 0 {
        assert(decimal_of(a).drop_first() =~= digits_of((-a) as nat));
        assert(decimal_of(b).drop_first() =~= digits_of((-b) as nat));
        lemma_digits_injective((-a) as nat, (-b) as nat);
    } else if a >= 0 && b >= 0 {
        lemma_digits_injective(a as nat, b as nat);
    } else if a < 0 {
        lemma_digits_facts(b as nat);
        assert(decimal_of(a)[0] == '-');
    } else {
        lemma_digits_facts(a as nat);
        assert(decimal_of(b)[0] == '-');
    }
}

proof fn lemma_backup_name_facts(p: Seq<char>, s: int)
    ensures
        no_sep(backup_name(p, s)),
        backup_name(p, s).len() > file_name_of(p).len(),
        backup_name(p, s).last() != '/' && backup_name(p, s).last() != '.',
{
    let m = if s < 0 {
        (-s) as nat
    } else {
        s as nat
    };
    lemma_digits_facts(m);
    lemma_name_no_sep(trim_end(p));
    let n = file_name_of(p);
    let b = backup_name(p, s);
    let dec = decimal_of(s);
    assert forall|j: int| 0 <= j < dec.len() implies dec[j] != '/' && dec[j] != '.' by {
        if s < 0 && j > 0 {
            assert(dec[j] == digits_of(m)[j - 1]);
        } else if s >= 0 {
            assert(dec[j] == digits_of(m)[j]);
        }
    }
    assert forall|j: int| 0 <= j < b.len() implies b[j] != '/' by {
        if j < n.len() {
            assert(b[j] == n[j]);
        } else if j >= n.len() + 5 {
            assert(b[j] == dec[j - n.len() - 5]);
        }
    }
    assert(b.last() == dec[dec.len() - 1]);
    assert(dec.len() >= 1);
    if s < 0 {
        assert(dec.len() >= 2);
    }
}

/// A backup never takes the name of the file it saves, it stays in the
/// same directory, and backups made with distinct suffixes are distinct.
pub proof fn lemma_backup_name_fresh(p: Seq<char>, s1: int, s2: int)
    requires
        has_name(p),
    ensures
        backup_path(p, s1) is Some,
        file_name_of(backup_path(p, s1).unwrap()) == backup_name(p, s1),
        backup_name(p, s1) != file_name_of(p),
        dir_of(backup_path(p, s1).unwrap()) == dir_of(p),
        s1 != s2 ==> backup_path(p, s1) != backup_path(p, s2),
{
    let d = dir_of(p);
    lemma_trim_end_stable(crate::path::parent_of(trim_end(p)));
    lemma_backup_name_facts(p, s1);
    lemma_join_name(d, backup_name(p, s1));
    if s1 != s2 {
        let q1 = join(d, backup_name(p, s1));
        let q2 = join(d, backup_name(p, s2));
        lemma_join_prefix(d, backup_name(p, s1));
        lemma_join_prefix(d, backup_name(p, s2));
        if q1 == q2 {
            let k = dir_prefix(d).len() as int + file_name_of(p).len() as int + 5;
            assert(q1.subrange(k, q1.len() as int) =~= decimal_of(s1));
            assert(q2.subrange(k, q2.len() as int) =~= decimal_of(s2));
            lemma_decimal_injective(s1, s2);
        }
    }
}

/// The text of one decimal digit.
fn digit_text(d: u64) -> (r: &'static str)
    requires
        d < 10,
    ensures
        r@ == seq![digit_char(d as int)],
{
    proof {
        reveal_strlit("0");
        reveal_strlit("1");
        reveal_strlit("2");
        reveal_strlit("3");
        reveal_strlit("4");
        reveal_strlit("5");
        reveal_strlit("6");
        reveal_strlit("7");
        reveal_strlit("8");
        reveal_strlit("9");
    }
    let r = if d == 0 {
        "0"
    } else if d == 1 {
        "1"
    } else if d == 2 {
        "2"
    } else if d == 3 {
        "3"
    } else if d == 4 {
        "4"
    } else if d == 5 {
        "5"
    } else if d == 6 {
        "6"
    } else if d == 7 {
        "7"
    } else if d == 8 {
        "8"
    } else {
        "9"
    };
    assert(r@ =~= seq![digit_char(d as int)]);
    r
}

/// Writes `n` in decimal.
pub fn decimal_text(n: i32) -> (r: String)
    ensures
        r@ == decimal_of(n as int),
{
    let neg = n < 0;
    let m: u64 = if neg {
        (-(n as i64)) as u64
    } else {
        n as u64
    };
    let mut rest: u64 = m / 10;
    let mut out = String::from_str(digit_text(m % 10));
    proof {
        if m >= 10 {
            assert(digits_of(m as nat) =~= digits_of(rest as nat) + out@);
        } else {
            assert(digits_of(m as nat) =~= out@);
        }
    }
    while rest > 0
        invariant
            rest > 0 ==> digits_of(m as nat) == digits_of(rest as nat) + out@,
            rest == 0 ==> digits_of(m as nat) == out@,
        decreases rest,
    {
        let ghost before = out@;
        out = String::from_str(digit_text(rest % 10)).concat(out.as_str());
        proof {
            if rest >= 10 {
                assert(digits_of(rest as nat) == digits_of((rest / 10) as nat).push(
                    digit_char((rest % 10) as int),
                ));
                assert(digits_of((rest / 10) as nat) + out@ =~= digits_of(rest as nat) + before);
            } else {
                assert(out@ =~= digits_of(rest as nat) + before);
            }
        }
        rest = rest / 10;
    }
    if neg {
        proof {
            reveal_strlit("-");
        }
        String::from_str("-").concat(out.as_str())
    } else {
        out
    }
}

/// Relies on rand's `random`: any value of the type may come back, so
/// nothing is stated of it.
pub assume_specification<T>[ rand::random::<T> ]() -> (r: T)
    where
        rand::distributions::Standard: rand::distributions::Distribution<T>,
;

/// A fresh path for a backup of `file`, beside it, with a random suffix;
/// `None` when `file` names no file.
pub fn backup_file_path(file: &str) -> (r: Option<String>)
    ensures
        has_name(file@) ==> (r matches Some(s) && exists|suffix: i32|
            #[trigger] backup_path(file@, suffix as int) == Some(s@)),
        !has_name(file@) ==> r is None,
{
    let suffix: i32 = rand::random::<i32>();
    backup_path_with_suffix(file, suffix)
}

/// The path of the backup of `file` with the given suffix, or `None` when
/// `file` names no file.
pub fn backup_path_with_suffix(file: &str, suffix: i32) -> (r: Option<String>)
    ensures
        match backup_path(file@, suffix as int) {
            Some(q) => r matches Some(s) && s@ == q,
            None => r is None,
        },
{
    if !crate::path::names_file(file) {
        return None;
    }
    proof {
        reveal_strlit(".bkp-");
    }
    let (dir, name) = split_path(file);
    let digits = decimal_text(suffix);
    assert(".bkp-"@ =~= backup_marker());
    let backup = name.concat(".bkp-").concat(digits.as_str());
    Some(join_path(dir.as_str(), backup.as_str()))
}

} // verus!
