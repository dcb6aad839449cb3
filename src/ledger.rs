use vstd::prelude::*;
use vstd::string::*;

use crate::error::PathError;
use crate::text::same_text;

verus! {

/// Index of the first line feed in `t`, or -1 when `t` holds none.
pub open spec fn first_nl(t: Seq<char>) -> int
    decreases t.len(),
{
    if t.len() == 0 {
        -1
    } else if t[0] == '\n' {
        0
    } else if first_nl(t.drop_first()) < 0 {
        -1
    } else {
        first_nl(t.drop_first()) + 1
    }
}

/// A line without the carriage return that ends it, if any.
pub open spec fn strip_cr(l: Seq<char>) -> Seq<char> {
    if l.len() > 0 && l.last() == '\r' {
        l.drop_last()
    } else {
        l
    }
}

/// The lines of `t`: the pieces between line endings, `\n` or `\r\n`,
/// where a final line ending ends the last line rather than starting an
/// empty one.
pub open spec fn lines_of(t: Seq<char>) -> Seq<Seq<char>>
    decreases t.len(),
{
    let k = first_nl(t);
    if t.len() == 0 {
        Seq::empty()
    } else if 0 <= k < t.len() {
        seq![strip_cr(t.take(k))] + lines_of(t.skip(k + 1))
    } else {
        seq![t]
    }
}

/// The text that stores `s`: each entry followed by a line feed.
pub open spec fn text_of(s: Seq<Seq<char>>) -> Seq<char>
    decreases s.len(),
{
    if s.len() == 0 {
        Seq::empty()
    } else {
        s[0] + seq!['\n'] + text_of(s.drop_first())
    }
}

/// `p` holds no line feed.
pub open spec fn no_line_feed(p: Seq<char>) -> bool {
    forall|j: int| 0 <= j < p.len() ==> p[j] != '\n'
}

/// `p` can be stored on a line of its own and read back: it holds no line
/// feed and does not end in a carriage return.
pub open spec fn is_line(p: Seq<char>) -> bool {
    no_line_feed(p) && !(p.len() > 0 && p.last() == '\r')
}

/// How many times `p` is listed in `s`.
pub open spec fn occurrences(s: Seq<Seq<char>>, p: Seq<char>) -> nat
    decreases s.len(),
{
    if s.len() == 0 {
        0
    } else {
        occurrences(s.drop_last(), p) + if s.last() == p {
            1nat
        } else {
            0nat
        }
    }
}

/// `s` with `p` appended, unless `p` is listed already.
pub open spec fn with_entry(s: Seq<Seq<char>>, p: Seq<char>) -> Seq<Seq<char>> {
    if s.contains(p) {
        s
    } else {
        s.push(p)
    }
}

/// `s` without any entry equal to `p`, the others in their order.
pub open spec fn without_entry(s: Seq<Seq<char>>, p: Seq<char>) -> Seq<Seq<char>>
    decreases s.len(),
{
    if s.len() == 0 {
        s
    } else if s.last() == p {
        without_entry(s.drop_last(), p)
    } else {
        without_entry(s.drop_last(), p).push(s.last())
    }
}

/// The record of tracked paths, one per line, in the order they were added.
pub struct Ledger {
    entries: Vec<String>,
}

impl View for Ledger {
    type V = Seq<Seq<char>>;

    closed spec fn view(&self) -> Seq<Seq<char>> {
        self.entries@.map_values(|e: String| e@)
    }
}

proof fn lemma_first_nl_at(t: Seq<char>, k: int)
    requires
        0 <= k < t.len(),
        t[k] == '\n',
        forall|j: int| 0 <= j < k ==> t[j] != '\n',
    ensures
        first_nl(t) == k,
    decreases k,
{
    if k > 0 {
        lemma_first_nl_at(t.drop_first(), k - 1);
    }
}

proof fn lemma_first_nl_none(t: Seq<char>)
    requires
        no_line_feed(t),
    ensures
        first_nl(t) == -1,
    decreases t.len(),
{
    if t.len() > 0 {
        lemma_first_nl_none(t.drop_first());
    }
}

proof fn lemma_no_entry_no_occurrence(s: Seq<Seq<char>>, p: Seq<char>)
    requires
        !s.contains(p),
    ensures
        occurrences(s, p) == 0,
    decreases s.len(),
{
    if s.len() > 0 {
        assert(s.last() == s[s.len() - 1]);
        assert forall|j: int| 0 <= j < s.drop_last().len() implies s.drop_last()[j] != p by {
            assert(s.drop_last()[j] == s[j]);
        }
        lemma_no_entry_no_occurrence(s.drop_last(), p);
    }
}

proof fn lemma_without_absent(s: Seq<Seq<char>>, p: Seq<char>)
    ensures
        !without_entry(s, p).contains(p),
    decreases s.len(),
{
    if s.len() > 0 {
        lemma_without_absent(s.drop_last(), p);
        let w = without_entry(s.drop_last(), p);
        if s.last() != p {
            assert forall|j: int| 0 <= j < w.push(s.last()).len() implies w.push(s.last())[j]
                != p by {
                if j < w.len() {
                    assert(w.push(s.last())[j] == w[j]);
                }
            }
        }
    }
}

/// Parsing the stored text of a list of entries, none of which holds a
/// line feed, gives back the list.
pub proof fn lemma_text_round_trip(s: Seq<Seq<char>>)
    requires
        forall|i: int| 0 <= i < s.len() ==> is_line(#[trigger] s[i]),
    ensures
        lines_of(text_of(s)) == s,
    decreases s.len(),
{
    if s.len() > 0 {
        let rest = s.drop_first();
        assert forall|i: int| 0 <= i < rest.len() implies is_line(#[trigger] rest[i]) by {
            assert(rest[i] == s[i + 1]);
        }
        lemma_text_round_trip(rest);
        let t = text_of(s);
        let k = s[0].len() as int;
        assert(is_line(s[0]));
        assert(t == s[0] + seq!['\n'] + text_of(rest));
        assert forall|j: int| 0 <= j < k implies t[j] != '\n' by {
            assert(t[j] == s[0][j]);
        }
        lemma_first_nl_at(t, k);
        assert(t.take(k) =~= s[0]);
        assert(strip_cr(s[0]) == s[0]);
        assert(t.skip(k + 1) =~= text_of(rest));
        assert(lines_of(t) =~= s);
    }
}

/// After a path is added, the ledger lists it exactly once, provided it
/// listed it at most once before.
pub proof fn lemma_added_once(s: Seq<Seq<char>>, p: Seq<char>)
    requires
        occurrences(s, p) <= 1,
    ensures
        with_entry(s, p).contains(p),
        occurrences(with_entry(s, p), p) == 1,
{
    if s.contains(p) {
        if occurrences(s, p) == 0 {
            lemma_count_of_member(s, p);
        }
    } else {
        lemma_no_entry_no_occurrence(s, p);
        assert(s.push(p).drop_last() =~= s);
        assert(s.push(p)[s.len() as int] == p);
    }
}

proof fn lemma_count_of_member(s: Seq<Seq<char>>, p: Seq<char>)
    requires
        s.contains(p),
    ensures
        occurrences(s, p) >= 1,
    decreases s.len(),
{
    if s.last() != p {
        let j = choose|j: int| 0 <= j < s.len() && s[j] == p;
        assert(j < s.len() - 1);
        assert(s.drop_last()[j] == p);
        lemma_count_of_member(s.drop_last(), p);
    }
}

/// Adding a path that is listed already leaves the ledger as it was, so
/// adding twice is adding once.
pub proof fn lemma_add_idempotent(s: Seq<Seq<char>>, p: Seq<char>)
    ensures
        with_entry(with_entry(s, p), p) == with_entry(s, p),
{
    if !s.contains(p) {
        assert(s.push(p)[s.len() as int] == p);
    }
}

/// After a path is removed, the ledger no longer lists it.
pub proof fn lemma_removed_absent(s: Seq<Seq<char>>, p: Seq<char>)
    ensures
        !without_entry(s, p).contains(p),
        occurrences(without_entry(s, p), p) == 0,
{
    lemma_without_absent(s, p);
    lemma_no_entry_no_occurrence(without_entry(s, p), p);
}

/// Whether `p` holds no line feed.
fn is_line_text(p: &str) -> (r: bool)
    ensures
        r == is_line(p@),
{
    let n = p.unicode_len();
    let mut i: usize = 0;
    while i < n
        invariant
            n == p@.len(),
            i <= n,
            forall|j: int| 0 <= j < i ==> p@[j] != '\n',
        decreases n - i,
    {
        if p.get_char(i) == '\n' {
            return false;
        }
        i = i + 1;
    }
    !(n > 0 && p.get_char(n - 1) == '\r')
}

impl Ledger {
    /// Every entry stands on a line of its own.
    pub open spec fn wf(&self) -> bool {
        forall|i: int| 0 <= i < self@.len() ==> no_line_feed(#[trigger] self@[i])
    }

    /// A ledger that tracks nothing.
    pub fn new() -> (r: Ledger)
        ensures
            r@ == Seq::<Seq<char>>::empty(),
            r.wf(),
    {
        let r = Ledger { entries: Vec::new() };
        assert(r@ =~= Seq::<Seq<char>>::empty());
        r
    }

    /// Reads a ledger from its stored text, one entry per line.
    pub fn from_text(text: &str) -> (r: Ledger)
        ensures
            r@ == lines_of(text@),
            r.wf(),
    {
        let n = text.unicode_len();
        let mut entries: Vec<String> = Vec::new();
        let mut start: usize = 0;
        let mut i: usize = 0;
        assert(text@.skip(0) =~= text@);
        assert(entries@.map_values(|e: String| e@) =~= Seq::<Seq<char>>::empty());
        while i < n
            invariant
                n == text@.len(),
                start <= i <= n,
                forall|j: int| start <= j < i ==> text@[j] != '\n',
                lines_of(text@) == entries@.map_values(|e: String| e@) + lines_of(
                    text@.skip(start as int),
                ),
                forall|k: int|
                    0 <= k < entries@.len() ==> no_line_feed(#[trigger] entries@[k]@),
            decreases n - i,
        {
            if text.get_char(i) == '\n' {
                let end: usize = if i > start && text.get_char(i - 1) == '\r' {
                    i - 1
                } else {
                    i
                };
                let line = text.substring_char(start, end);
                let ghost rest = text@.skip(start as int);
                proof {
                    assert forall|j: int| 0 <= j < i - start implies rest[j] != '\n' by {
                        assert(rest[j] == text@[start + j]);
                    }
                    lemma_first_nl_at(rest, i - start);
                    let piece = rest.take(i - start);
                    if i > start {
                        assert(piece.last() == text@[i - 1]);
                    }
                    assert(strip_cr(piece) =~= line@);
                    assert(rest.skip(i - start + 1) =~= text@.skip(i + 1));
                }
                let ghost before = entries@;
                entries.push(String::from_str(line));
                proof {
                    assert(entries@.map_values(|e: String| e@) =~= before.map_values(
                        |e: String| e@,
                    ).push(line@));
                }
                start = i + 1;
            }
            i = i + 1;
        }
        if start < n {
            let line = text.substring_char(start, n);
            let ghost rest = text@.skip(start as int);
            proof {
                assert(rest =~= line@);
                assert(no_line_feed(rest)) by {
                    assert forall|j: int| 0 <= j < rest.len() implies rest[j] != '\n' by {
                        assert(rest[j] == text@[start + j]);
                    }
                }
                lemma_first_nl_none(rest);
            }
            let ghost before = entries@;
            entries.push(String::from_str(line));
            proof {
                assert(entries@.map_values(|e: String| e@) =~= before.map_values(|e: String| e@).push(
                    line@,
                ));
            }
        } else {
            assert(text@.skip(start as int) =~= Seq::<char>::empty());
        }
        let r = Ledger { entries };
        assert(r@ =~= lines_of(text@));
        r
    }

    /// The stored text of the ledger: each entry followed by a line feed.
    pub fn to_text(&self) -> (r: String)
        ensures
            r@ == text_of(self@),
    {
        proof {
            reveal_strlit("\n");
            reveal_strlit("");
        }
        let mut r = String::from_str("");
        let mut i: usize = 0;
        assert(self@.skip(0) =~= self@);
        while i < self.entries.len()
            invariant
                i <= self.entries@.len(),
                text_of(self@) == r@ + text_of(self@.skip(i as int)),
            decreases self.entries@.len() - i,
        {
            let ghost rest = self@.skip(i as int);
            let ghost before = r@;
            proof {
                reveal_strlit("\n");
                assert(rest[0] == self.entries@[i as int]@);
                assert(rest.drop_first() =~= self@.skip(i + 1));
                assert(text_of(rest) == rest[0] + seq!['\n'] + text_of(self@.skip(i + 1)));
            }
            r.append(self.entries[i].as_str());
            r.append("\n");
            assert(r@ =~= before + rest[0] + seq!['\n']);
            assert(before + text_of(rest) =~= r@ + text_of(self@.skip(i + 1)));
            i = i + 1;
        }
        assert(self@.skip(i as int) =~= Seq::<Seq<char>>::empty());
        r
    }

    /// The tracked paths, in their order.
    pub fn list(&self) -> (r: Vec<String>)
        ensures
            r@.map_values(|e: String| e@) == self@,
    {
        let mut r: Vec<String> = Vec::new();
        let mut i: usize = 0;
        while i < self.entries.len()
            invariant
                i <= self.entries@.len(),
                r@.map_values(|e: String| e@) == self@.take(i as int),
            decreases self.entries@.len() - i,
        {
            let ghost before = r@;
            let e = self.entries[i].clone();
            r.push(e);
            proof {
                assert(r@ == before.push(e));
                assert(r@.map_values(|e: String| e@) =~= before.map_values(|e: String| e@).push(
                    e@,
                ));
                assert(self@.take(i + 1) =~= self@.take(i as int).push(self@[i as int]));
            }
            i = i + 1;
        }
        assert(self@.take(i as int) =~= self@);
        r
    }

    /// Whether `path` is tracked.
    pub fn contains(&self, path: &str) -> (r: bool)
        ensures
            r == self@.contains(path@),
    {
        let mut i: usize = 0;
        while i < self.entries.len()
            invariant
                i <= self.entries@.len(),
                forall|j: int| 0 <= j < i ==> self@[j] != path@,
            decreases self.entries@.len() - i,
        {
            if same_text(self.entries[i].as_str(), path) {
                assert(self@[i as int] == path@);
                return true;
            }
            i = i + 1;
        }
        false
    }

    /// Tracks `path`. Returns `Ok(false)`, with the ledger unchanged, when
    /// it is tracked already, and an error when it holds a line feed.
    pub fn push(&mut self, path: &str) -> (r: Result<bool, PathError>)
        requires
            old(self).wf(),
        ensures
            final(self).wf(),
            is_line(path@) ==> (r matches Ok(added) && added == !old(self)@.contains(path@)
                && final(self)@ == with_entry(old(self)@, path@)),
            !is_line(path@) ==> (r matches Err(PathError::InvalidLedgerEntry(e)) && e@ == path@
                && final(self)@ == old(self)@),
    {
        if !is_line_text(path) {
            return Err(PathError::InvalidLedgerEntry(String::from_str(path)));
        }
        if self.contains(path) {
            return Ok(false);
        }
        let ghost before = self.entries@;
        self.entries.push(String::from_str(path));
        proof {
            assert(self.entries@.map_values(|e: String| e@) =~= before.map_values(|e: String| e@).push(
                path@,
            ));
        }
        Ok(true)
    }

    /// Stops tracking `path`, keeping the other entries in their order.
    /// Returns whether it was tracked.
    pub fn remove(&mut self, path: &str) -> (r: bool)
        requires
            old(self).wf(),
        ensures
            final(self).wf(),
            r == old(self)@.contains(path@),
            final(self)@ == without_entry(old(self)@, path@),
    {
        let ghost s = self@;
        let mut kept: Vec<String> = Vec::new();
        let mut found = false;
        let mut i: usize = 0;
        while i < self.entries.len()
            invariant
                s == self@,
                i <= self.entries@.len(),
                kept@.map_values(|e: String| e@) == without_entry(s.take(i as int), path@),
                found == s.take(i as int).contains(path@),
                forall|k: int| 0 <= k < kept@.len() ==> no_line_feed(#[trigger] kept@[k]@),
                forall|k: int| 0 <= k < s.len() ==> no_line_feed(#[trigger] s[k]),
            decreases self.entries@.len() - i,
        {
            let ghost before = kept@;
            proof {
                assert(s.take(i + 1).drop_last() =~= s.take(i as int));
                assert(s.take(i + 1).last() == s[i as int]);
                assert(s[i as int] == self.entries@[i as int]@);
            }
            if same_text(self.entries[i].as_str(), path) {
                found = true;
                assert(s.take(i + 1)[i as int] == path@);
            } else {
                kept.push(self.entries[i].clone());
                proof {
                    assert(kept@.map_values(|e: String| e@) =~= before.map_values(|e: String| e@).push(
                        s[i as int],
                    ));
                    assert(no_line_feed(s[i as int]));
                }
            }
            assert(found == s.take(i + 1).contains(path@)) by {
                let t = s.take(i + 1);
                let u = s.take(i as int);
                if found && !u.contains(path@) {
                    assert(t[i as int] == path@);
                }
                if u.contains(path@) {
                    let j = choose|j: int| 0 <= j < u.len() && #[trigger] u[j] == path@;
                    assert(t[j] == path@);
                }
                if t.contains(path@) {
                    let j = choose|j: int| 0 <= j < t.len() && #[trigger] t[j] == path@;
                    if j < i {
                        assert(u[j] == path@);
                    }
                }
            }
            i = i + 1;
        }
        assert(s.take(i as int) =~= s);
        self.entries = kept;
        found
    }

    /// Stops tracking every path.
    pub fn clear(&mut self)
        ensures
            final(self)@ == Seq::<Seq<char>>::empty(),
            final(self).wf(),
    {
        self.entries = Vec::new();
        assert(self@ =~= Seq::<Seq<char>>::empty());
    }
}

} // verus!
