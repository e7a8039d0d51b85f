use vstd::prelude::*;

use crate::text::{
    index_from, is_ascii_space, last_index, parse_i64, parse_i64_spec, StringExtensions,
};

verus! {

/// One snapshot of a virtual machine, as its listing names it.
#[derive(Debug, Clone, PartialEq, Eq)]
pub struct VmSnapshot {
    pub vm_name: String,
    /// Creation time in seconds since the Unix epoch (UTC).
    pub date: i64,
    pub snapsnot_name: String,
}

/// What a snapshot record says.
pub struct SnapshotModel {
    pub vm_name: Seq<char>,
    pub date: int,
    pub id: Seq<char>,
}

impl View for VmSnapshot {
    type V = SnapshotModel;

    open spec fn view(&self) -> SnapshotModel {
        SnapshotModel { vm_name: self.vm_name@, date: self.date as int, id: self.snapsnot_name@ }
    }
}

/// The first index at or after `i` that holds no whitespace (or the length).
pub open spec fn skip_space(s: Seq<char>, i: int) -> int
    decreases s.len() - i,
{
    if i < 0 || i >= s.len() || !is_ascii_space(s[i]) {
        i
    } else {
        skip_space(s, i + 1)
    }
}

/// The first index at or after `i` that holds whitespace (or the length).
pub open spec fn word_end(s: Seq<char>, i: int) -> int
    decreases s.len() - i,
{
    if i < 0 || i >= s.len() || is_ascii_space(s[i]) {
        i
    } else {
        word_end(s, i + 1)
    }
}

/// The first whitespace-delimited token of a line.
pub open spec fn first_token(line: Seq<char>) -> Option<Seq<char>> {
    let a = skip_space(line, 0);
    if a >= line.len() {
        None
    } else {
        Some(line.subrange(a, word_end(line, a)))
    }
}

/// The record named by a snapshot identifier `{vm}.{...}.{epoch seconds}`:
/// the machine is the text before the first `.`, the time the integer after the last.
pub open spec fn snapshot_of_id(id: Seq<char>) -> Option<SnapshotModel> {
    match last_index(id, '.') {
        None => None,
        Some(d) => match parse_i64_spec(id.subrange(d + 1, id.len() as int)) {
            None => None,
            Some(v) => Some(
                SnapshotModel {
                    vm_name: match index_from(id, '.', 0) {
                        Some(f) => id.take(f),
                        None => id,
                    },
                    date: v,
                    id,
                },
            ),
        },
    }
}

pub open spec fn snapshot_of_line(line: Seq<char>) -> Option<SnapshotModel> {
    match first_token(line) {
        Some(t) => snapshot_of_id(t),
        None => None,
    }
}

/// The text cut at each line feed (a text without one is a single line).
pub open spec fn split_lines(s: Seq<char>) -> Seq<Seq<char>>
    decreases s.len(),
{
    if s.len() == 0 {
        seq![Seq::empty()]
    } else {
        let p = split_lines(s.drop_last());
        if s.last() == '\n' {
            p.push(Seq::empty())
        } else {
            p.update(p.len() - 1, p.last().push(s.last()))
        }
    }
}

/// The lines after the two header lines of a listing.
pub open spec fn body_lines(ls: Seq<Seq<char>>) -> Seq<Seq<char>> {
    if ls.len() <= 2 {
        Seq::empty()
    } else {
        ls.subrange(2, ls.len() as int)
    }
}

pub open spec fn option_seq(o: Option<SnapshotModel>) -> Seq<SnapshotModel> {
    match o {
        Some(m) => seq![m],
        None => Seq::empty(),
    }
}

/// The records of the lines that parse, in the order of the lines.
pub open spec fn snapshots_of_lines(ls: Seq<Seq<char>>) -> Seq<SnapshotModel>
    decreases ls.len(),
{
    if ls.len() == 0 {
        Seq::empty()
    } else {
        snapshots_of_lines(ls.drop_last()) + option_seq(snapshot_of_line(ls.last()))
    }
}

/// The records of a snapshot listing: headers skipped, lines that do not
/// parse dropped, listing order kept.
pub open spec fn listing_snapshots(text: Seq<char>) -> Seq<SnapshotModel> {
    snapshots_of_lines(body_lines(split_lines(text)))
}

pub open spec fn views(v: Seq<VmSnapshot>) -> Seq<SnapshotModel> {
    v.map_values(|x: VmSnapshot| x@)
}

fn is_space_char(c: char) -> (r: bool)
    ensures
        r == is_ascii_space(c),
{
    c == ' ' || c == '\t' || c == '\n' || c == '\x0C' || c == '\r'
}

fn first_index_of(s: &str, c: char) -> (r: Option<usize>)
    ensures
        r matches Some(i) ==> index_from(s@, c, 0) == Some(i as int),
        r is None ==> index_from(s@, c, 0) is None,
{
    let n = s.unicode_len();
    let mut i: usize = 0;
    while i < n
        invariant
            i <= n,
            n == s@.len(),
            index_from(s@, c, 0) == index_from(s@, c, i as int),
        decreases n - i,
    {
        if s.get_char(i) == c {
            return Some(i);
        }
        i = i + 1;
    }
    None
}

/// The record named by a snapshot identifier, or `None` when its last
/// `.`-separated part is missing or not a decimal integer.
pub fn parse_snapshot_id(id: &str) -> (r: Option<VmSnapshot>)
    ensures
        r matches Some(v) ==> snapshot_of_id(id@) == Some(v@),
        r is None ==> snapshot_of_id(id@) is None,
{
    let last = id.last_index_of('.');
    proof {
        crate::text::lemma_last_index(id@, '.');
        crate::text::lemma_index_from(id@, '.', 0);
    }
    match last {
        None => None,
        Some(d) => {
            let n = id.unicode_len();
            let suffix = id.substring_char(d + 1, n);
            match parse_i64(suffix) {
                None => None,
                Some(v) => {
                    let vm_name = match first_index_of(id, '.') {
                        Some(f) => String::from_str(id.substring_char(0, f)),
                        None => String::from_str(id),
                    };
                    Some(VmSnapshot { vm_name, date: v, snapsnot_name: String::from_str(id) })
                },
            }
        },
    }
}

/// The record of one listing line, from its first whitespace-delimited token.
pub fn parse_listing_line(line: &str) -> (r: Option<VmSnapshot>)
    ensures
        r matches Some(v) ==> snapshot_of_line(line@) == Some(v@),
        r is None ==> snapshot_of_line(line@) is None,
{
    let n = line.unicode_len();
    let mut a: usize = 0;
    while a < n && is_space_char(line.get_char(a))
        invariant
            a <= n,
            n == line@.len(),
            skip_space(line@, 0) == skip_space(line@, a as int),
        decreases n - a,
    {
        a = a + 1;
    }
    if a == n {
        return None;
    }
    let mut b: usize = a;
    while b < n && !is_space_char(line.get_char(b))
        invariant
            a <= b <= n,
            n == line@.len(),
            word_end(line@, a as int) == word_end(line@, b as int),
        decreases n - b,
    {
        b = b + 1;
    }
    parse_snapshot_id(line.substring_char(a, b))
}

proof fn lemma_split_step(s: Seq<char>, i: int, done: Seq<Seq<char>>, start: int)
    requires
        0 <= start <= i < s.len(),
        split_lines(s.take(i)) == done.push(s.subrange(start, i)),
    ensures
        s[i] == '\n' ==> split_lines(s.take(i + 1)) == done.push(s.subrange(start, i)).push(
            s.subrange(i + 1, i + 1),
        ),
        s[i] != '\n' ==> split_lines(s.take(i + 1)) == done.push(s.subrange(start, i + 1)),
{
    assert(s.take(i + 1).drop_last() =~= s.take(i));
    assert(s.subrange(i + 1, i + 1) =~= Seq::<char>::empty());
    assert(s.subrange(start, i).push(s[i]) =~= s.subrange(start, i + 1));
    let p = done.push(s.subrange(start, i));
    assert(p.update(p.len() - 1, p.last().push(s[i])) =~= done.push(s.subrange(start, i + 1)));
}

proof fn lemma_add_line(done: Seq<Seq<char>>, line: Seq<char>)
    ensures
        snapshots_of_lines(body_lines(done.push(line))) == if done.len() >= 2 {
            snapshots_of_lines(body_lines(done)) + option_seq(snapshot_of_line(line))
        } else {
            Seq::<SnapshotModel>::empty()
        },
{
    if done.len() >= 2 {
        assert(body_lines(done.push(line)).drop_last() =~= body_lines(done));
    }
}

fn add_line(
    result: &mut Vec<VmSnapshot>,
    line: &str,
    line_no: usize,
    Ghost(done): Ghost<Seq<Seq<char>>>,
)
    requires
        line_no == done.len(),
        views(old(result)@) == snapshots_of_lines(body_lines(done)),
    ensures
        views(final(result)@) == snapshots_of_lines(body_lines(done.push(line@))),
{
    proof {
        lemma_add_line(done, line@);
    }
    if line_no >= 2 {
        match parse_listing_line(line) {
            Some(s) => {
                result.push(s);
                assert(views(result@) =~= views(old(result)@).push(s@));
            },
            None => {},
        }
    }
    assert(views(result@) =~= snapshots_of_lines(body_lines(done.push(line@))));
}

/// The records of a snapshot listing: the two header lines skipped, the
/// lines whose first token is no snapshot identifier dropped, order kept.
pub fn parse_snapshot_listing(text: &str) -> (r: Vec<VmSnapshot>)
    ensures
        views(r@) == listing_snapshots(text@),
{
    let n = text.unicode_len();
    let mut result: Vec<VmSnapshot> = Vec::new();
    let mut line_no: usize = 0;
    let mut start: usize = 0;
    let mut i: usize = 0;
    let ghost mut done: Seq<Seq<char>> = Seq::empty();
    assert(text@.take(0) =~= Seq::<char>::empty());
    assert(text@.subrange(0, 0) =~= Seq::<char>::empty());
    assert(split_lines(Seq::<char>::empty()) =~= done.push(Seq::<char>::empty()));
    assert(views(result@) =~= Seq::<SnapshotModel>::empty());
    while i < n
        invariant
            start <= i <= n,
            n == text@.len(),
            line_no <= i,
            line_no == done.len(),
            split_lines(text@.take(i as int)) == done.push(text@.subrange(start as int, i as int)),
            views(result@) == snapshots_of_lines(body_lines(done)),
        decreases n - i,
    {
        proof {
            lemma_split_step(text@, i as int, done, start as int);
        }
        let c = text.get_char(i);
        if c == '\n' {
            let line = text.substring_char(start, i);
            add_line(&mut result, line, line_no, Ghost(done));
            proof {
                done = done.push(line@);
            }
            line_no = line_no + 1;
            start = i + 1;
        }
        i = i + 1;
    }
    let line = text.substring_char(start, n);
    add_line(&mut result, line, line_no, Ghost(done));
    assert(text@.take(n as int) =~= text@);
    result
}

/// The identifier has an epoch suffix after its last `.`, and it reads as `date`.
pub open spec fn has_epoch_suffix(id: Seq<char>, date: int) -> bool {
    last_index(id, '.') matches Some(d) && parse_i64_spec(id.subrange(d + 1, id.len() as int)) == Some(date)
}

proof fn lemma_lines_dated(ls: Seq<Seq<char>>)
    ensures
        forall|i: int| 0 <= i < snapshots_of_lines(ls).len() ==> has_epoch_suffix(
            #[trigger] snapshots_of_lines(ls)[i].id,
            snapshots_of_lines(ls)[i].date,
        ),
    decreases ls.len(),
{
    if ls.len() > 0 {
        lemma_lines_dated(ls.drop_last());
        let a = snapshots_of_lines(ls.drop_last());
        let b = option_seq(snapshot_of_line(ls.last()));
        assert forall|i: int| 0 <= i < snapshots_of_lines(ls).len() implies has_epoch_suffix(
            #[trigger] snapshots_of_lines(ls)[i].id,
            snapshots_of_lines(ls)[i].date,
        ) by {
            if i < a.len() {
                assert(snapshots_of_lines(ls)[i] == a[i]);
            } else {
                assert(snapshots_of_lines(ls)[i] == b[i - a.len()]);
            }
        }
    }
}

/// Every record of a listing carries a decimal epoch suffix that gives its
/// date: lines whose identifier lacks one, or has a non-numeric one, are left
/// out (and parsing a listing never fails).
pub proof fn lemma_listing_only_dated(text: Seq<char>)
    ensures
        forall|i: int| 0 <= i < listing_snapshots(text).len() ==> has_epoch_suffix(
            #[trigger] listing_snapshots(text)[i].id,
            listing_snapshots(text)[i].date,
        ),
        forall|line: Seq<char>| #[trigger] snapshot_of_line(line) is Some ==> (first_token(line) matches Some(t)
            && has_epoch_suffix(t, snapshot_of_line(line)->Some_0.date)),
{
    lemma_lines_dated(body_lines(split_lines(text)));
}

} // verus!
