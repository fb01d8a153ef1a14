//! Ordering of the table: per-column comparators, a stable ascending sort,
//! and the descending order as its exact reverse.
use std::cmp::Ordering;
use vstd::prelude::*;

use crate::entry::{views, ConnectionEntry, EntryView};
use crate::text::{compare_text, lex_cmp};

verus! {

/// The column that orders the table.
#[derive(PartialEq, Eq, Structural, Clone, Copy, Debug)]
pub enum SortColumn {
    Proto,
    LocalIP,
    LocalPort,
    RemoteIP,
    RemotePort,
    State,
    PID,
    Process,
}

/// The direction of the order.
#[derive(PartialEq, Eq, Structural, Clone, Copy, Debug)]
pub enum SortOrder {
    Asc,
    Desc,
}

/// The column of ordinal `n` (1 to 8, in table order).
pub open spec fn column_of(n: u8) -> Option<SortColumn> {
    if n == 1 {
        Some(SortColumn::Proto)
    } else if n == 2 {
        Some(SortColumn::LocalIP)
    } else if n == 3 {
        Some(SortColumn::LocalPort)
    } else if n == 4 {
        Some(SortColumn::RemoteIP)
    } else if n == 5 {
        Some(SortColumn::RemotePort)
    } else if n == 6 {
        Some(SortColumn::State)
    } else if n == 7 {
        Some(SortColumn::PID)
    } else if n == 8 {
        Some(SortColumn::Process)
    } else {
        None
    }
}

impl SortColumn {
    /// The column of an ordinal from 1 to 8; any other ordinal names none.
    pub fn from_ordinal(n: u8) -> (r: Option<SortColumn>)
        ensures
            r == column_of(n),
    {
        if n == 1 {
            Some(SortColumn::Proto)
        } else if n == 2 {
            Some(SortColumn::LocalIP)
        } else if n == 3 {
            Some(SortColumn::LocalPort)
        } else if n == 4 {
            Some(SortColumn::RemoteIP)
        } else if n == 5 {
            Some(SortColumn::RemotePort)
        } else if n == 6 {
            Some(SortColumn::State)
        } else if n == 7 {
            Some(SortColumn::PID)
        } else if n == 8 {
            Some(SortColumn::Process)
        } else {
            None
        }
    }
}

/// The other direction.
pub open spec fn flipped(o: SortOrder) -> SortOrder {
    match o {
        SortOrder::Asc => SortOrder::Desc,
        SortOrder::Desc => SortOrder::Asc,
    }
}

/// Numeric order.
pub open spec fn num_cmp(a: int, b: int) -> Ordering {
    if a < b {
        Ordering::Less
    } else if a > b {
        Ordering::Greater
    } else {
        Ordering::Equal
    }
}

/// Order of strings in which the empty string is "no value": under `Asc` it
/// comes after every other string, under `Desc` before; two empty strings
/// are equal; other strings compare by code point.
pub open spec fn empty_aware_cmp(a: Seq<char>, b: Seq<char>, order: SortOrder) -> Ordering {
    if a.len() == 0 && b.len() == 0 {
        Ordering::Equal
    } else if a.len() == 0 {
        if order == SortOrder::Asc {
            Ordering::Greater
        } else {
            Ordering::Less
        }
    } else if b.len() == 0 {
        if order == SortOrder::Asc {
            Ordering::Less
        } else {
            Ordering::Greater
        }
    } else {
        lex_cmp(a, b)
    }
}

/// Order of ports in which zero is "no port", placed as the empty string is
/// placed by `empty_aware_cmp`.
pub open spec fn zero_aware_cmp(a: u16, b: u16, order: SortOrder) -> Ordering {
    if a == 0 && b == 0 {
        Ordering::Equal
    } else if a == 0 {
        if order == SortOrder::Asc {
            Ordering::Greater
        } else {
            Ordering::Less
        }
    } else if b == 0 {
        if order == SortOrder::Asc {
            Ordering::Less
        } else {
            Ordering::Greater
        }
    } else {
        num_cmp(a as int, b as int)
    }
}

/// The ascending order of two entries by a column.
pub open spec fn column_cmp(a: EntryView, b: EntryView, col: SortColumn) -> Ordering {
    match col {
        SortColumn::Proto => lex_cmp(a.proto, b.proto),
        SortColumn::LocalIP => lex_cmp(a.local_ip, b.local_ip),
        SortColumn::LocalPort => num_cmp(a.local_port as int, b.local_port as int),
        SortColumn::RemoteIP => empty_aware_cmp(a.remote_ip, b.remote_ip, SortOrder::Asc),
        SortColumn::RemotePort => zero_aware_cmp(a.remote_port, b.remote_port, SortOrder::Asc),
        SortColumn::State => empty_aware_cmp(a.state, b.state, SortOrder::Asc),
        SortColumn::PID => num_cmp(a.pid as int, b.pid as int),
        SortColumn::Process => empty_aware_cmp(a.process, b.process, SortOrder::Asc),
    }
}

/// `x` placed into `t` after the longest suffix of `t` whose elements all
/// come strictly after `x`.
pub open spec fn insert_stable(x: EntryView, t: Seq<EntryView>, col: SortColumn) -> Seq<
    EntryView,
>
    decreases t.len(),
{
    if t.len() == 0 {
        seq![x]
    } else if column_cmp(t.last(), x, col) != Ordering::Greater {
        t.push(x)
    } else {
        insert_stable(x, t.drop_last(), col).push(t.last())
    }
}

/// The stable ascending sort of `s` by a column: each element in turn is
/// inserted after all earlier ones that do not come after it.
pub open spec fn sort_ascending(s: Seq<EntryView>, col: SortColumn) -> Seq<EntryView>
    decreases s.len(),
{
    if s.len() == 0 {
        Seq::empty()
    } else {
        insert_stable(s.last(), sort_ascending(s.drop_last(), col), col)
    }
}

/// The table order: the stable ascending sort, reversed as a whole for `Desc`.
pub open spec fn sorted_by(s: Seq<EntryView>, col: SortColumn, order: SortOrder) -> Seq<
    EntryView,
> {
    match order {
        SortOrder::Asc => sort_ascending(s, col),
        SortOrder::Desc => sort_ascending(s, col).reverse(),
    }
}

/// Compares two strings, treating the empty string as "no value" that is
/// pushed to the end of the order `sort_order` names.
pub fn string_compare_with_empty(a: &str, b: &str, sort_order: SortOrder) -> (r: Ordering)
    ensures
        r == empty_aware_cmp(a@, b@, sort_order),
{
    let a_empty = a.is_empty();
    let b_empty = b.is_empty();
    proof {
        assert(a_empty == (a@.len() == 0)) by {
            if a@.len() == 0 {
                assert(a@ =~= Seq::<char>::empty());
            }
        }
        assert(b_empty == (b@.len() == 0)) by {
            if b@.len() == 0 {
                assert(b@ =~= Seq::<char>::empty());
            }
        }
    }
    match sort_order {
        SortOrder::Asc => {
            if a_empty && b_empty {
                Ordering::Equal
            } else if a_empty {
                Ordering::Greater
            } else if b_empty {
                Ordering::Less
            } else {
                compare_text(a, b)
            }
        },
        SortOrder::Desc => {
            if a_empty && b_empty {
                Ordering::Equal
            } else if a_empty {
                Ordering::Less
            } else if b_empty {
                Ordering::Greater
            } else {
                compare_text(a, b)
            }
        },
    }
}

fn compare_numbers(a: u64, b: u64) -> (r: Ordering)
    ensures
        r == num_cmp(a as int, b as int),
{
    if a < b {
        Ordering::Less
    } else if a > b {
        Ordering::Greater
    } else {
        Ordering::Equal
    }
}

/// Compares two remote ports, treating zero as "no port" that is pushed to
/// the end of the order `sort_order` names.
pub fn remote_port_compare(a: u16, b: u16, sort_order: SortOrder) -> (r: Ordering)
    ensures
        r == zero_aware_cmp(a, b, sort_order),
{
    match sort_order {
        SortOrder::Asc => {
            if a == 0 && b == 0 {
                Ordering::Equal
            } else if a == 0 {
                Ordering::Greater
            } else if b == 0 {
                Ordering::Less
            } else {
                compare_numbers(a as u64, b as u64)
            }
        },
        SortOrder::Desc => {
            if a == 0 && b == 0 {
                Ordering::Equal
            } else if a == 0 {
                Ordering::Less
            } else if b == 0 {
                Ordering::Greater
            } else {
                compare_numbers(a as u64, b as u64)
            }
        },
    }
}

/// Compares two entries in the ascending order of a column.
pub fn compare_entries(a: &ConnectionEntry, b: &ConnectionEntry, col: SortColumn) -> (r: Ordering)
    ensures
        r == column_cmp(a@, b@, col),
{
    match col {
        SortColumn::Proto => compare_text(a.proto.as_str(), b.proto.as_str()),
        SortColumn::LocalIP => compare_text(a.local_ip.as_str(), b.local_ip.as_str()),
        SortColumn::LocalPort => compare_numbers(a.local_port as u64, b.local_port as u64),
        SortColumn::RemoteIP => string_compare_with_empty(
            a.remote_ip.as_str(),
            b.remote_ip.as_str(),
            SortOrder::Asc,
        ),
        SortColumn::RemotePort => remote_port_compare(a.remote_port, b.remote_port, SortOrder::Asc),
        SortColumn::State => string_compare_with_empty(
            a.state.as_str(),
            b.state.as_str(),
            SortOrder::Asc,
        ),
        SortColumn::PID => compare_numbers(a.pid as u64, b.pid as u64),
        SortColumn::Process => string_compare_with_empty(
            a.process.as_str(),
            b.process.as_str(),
            SortOrder::Asc,
        ),
    }
}

/// Whether `a` comes strictly after `b` in the ascending order of `col`.
pub fn comes_after(a: &ConnectionEntry, b: &ConnectionEntry, col: SortColumn) -> (r: bool)
    ensures
        r == (column_cmp(a@, b@, col) == Ordering::Greater),
{
    match compare_entries(a, b, col) {
        Ordering::Greater => true,
        _ => false,
    }
}

proof fn lemma_insert_at(x: EntryView, t: Seq<EntryView>, col: SortColumn, p: int)
    requires
        0 <= p <= t.len(),
        forall|j: int| p <= j < t.len() ==> column_cmp(t[j], x, col) == Ordering::Greater,
        p == 0 || column_cmp(t[p - 1], x, col) != Ordering::Greater,
    ensures
        insert_stable(x, t, col) == t.take(p) + seq![x] + t.skip(p),
    decreases t.len(),
{
    if t.len() == 0 {
        assert(t.take(p) + seq![x] + t.skip(p) =~= seq![x]);
    } else if p == t.len() {
        assert(t.take(p) + seq![x] + t.skip(p) =~= t.push(x));
    } else {
        let u = t.drop_last();
        assert(column_cmp(t[t.len() - 1], x, col) == Ordering::Greater);
        lemma_insert_at(x, u, col, p);
        assert(u.take(p) + seq![x] + u.skip(p) + seq![t.last()] =~= t.take(p) + seq![x] + t.skip(
            p,
        ));
        assert((u.take(p) + seq![x] + u.skip(p)).push(t.last()) =~= u.take(p) + seq![x] + u.skip(
            p,
        ) + seq![t.last()]);
    }
}

/// Puts the entries in table order: stable ascending by `col`, and for
/// `Desc` that same order reversed as a whole.
pub fn sort_entries(entries: &mut Vec<ConnectionEntry>, col: SortColumn, order: SortOrder)
    ensures
        views(final(entries)@) == sorted_by(views(old(entries)@), col, order),
{
    let n = entries.len();
    let ghost input = views(entries@);
    let mut result: Vec<ConnectionEntry> = Vec::new();
    let mut i: usize = 0;
    while i < n
        invariant
            n == entries@.len(),
            input == views(entries@),
            i <= n,
            views(result@) == sort_ascending(input.take(i as int), col),
        decreases n - i,
    {
        let x = entries[i].duplicate();
        let mut p: usize = result.len();
        while p > 0 && comes_after(&result[p - 1], &x, col)
            invariant
                p <= result@.len(),
                forall|j: int|
                    p <= j < result@.len() ==> column_cmp(result@[j]@, x@, col)
                        == Ordering::Greater,
            decreases p,
        {
            p = p - 1;
        }
        let ghost before = views(result@);
        proof {
            lemma_insert_at(x@, before, col, p as int);
            assert(input.take(i + 1).drop_last() =~= input.take(i as int));
            assert(input.take(i + 1).last() == x@);
        }
        result.insert(p, x);
        assert(views(result@) =~= before.take(p as int) + seq![x@] + before.skip(p as int));
        i = i + 1;
    }
    assert(input.take(n as int) =~= input);
    match order {
        SortOrder::Asc => {
            *entries = result;
        },
        SortOrder::Desc => {
            let m = result.len();
            let mut out: Vec<ConnectionEntry> = Vec::new();
            let mut k: usize = 0;
            while k < m
                invariant
                    m == result@.len(),
                    k <= m,
                    views(out@) =~= views(result@).reverse().take(k as int),
                decreases m - k,
            {
                let ghost r = views(result@);
                assert(r.reverse()[k as int] == r[m - 1 - k]);
                let e = result[m - 1 - k].duplicate();
                assert(e@ == r[m - 1 - k]);
                let ghost before = out@;
                out.push(e);
                assert(out@ == before.push(e));
                assert(views(out@) =~= views(before).push(e@));
                assert(views(out@) =~= r.reverse().take(k + 1));
                k = k + 1;
            }
            assert(views(result@).reverse().take(m as int) =~= views(result@).reverse());
            *entries = out;
        },
    }
}

/// For every column and every list, the empty and single-entry lists
/// included, the descending order is the ascending order reversed.
pub proof fn lemma_descending_reverses_ascending(s: Seq<EntryView>, col: SortColumn)
    ensures
        sorted_by(s, col, SortOrder::Desc) == sorted_by(s, col, SortOrder::Asc).reverse(),
{
}

proof fn lemma_insert_keeps_elements(x: EntryView, t: Seq<EntryView>, col: SortColumn)
    ensures
        insert_stable(x, t, col).to_multiset() == t.to_multiset().insert(x),
    decreases t.len(),
{
    broadcast use vstd::multiset::group_multiset_axioms;

    if t.len() == 0 {
        assert(t =~= Seq::<EntryView>::empty());
        assert(seq![x] =~= Seq::<EntryView>::empty().push(x));
        Seq::<EntryView>::empty().to_multiset_ensures();
        Seq::<EntryView>::empty().push(x).to_multiset_ensures();
    } else if column_cmp(t.last(), x, col) != Ordering::Greater {
        t.to_multiset_ensures();
    } else {
        let u = t.drop_last();
        lemma_insert_keeps_elements(x, u, col);
        insert_stable(x, u, col).to_multiset_ensures();
        u.to_multiset_ensures();
        assert(u.push(t.last()) =~= t);
        assert(t.to_multiset() == u.to_multiset().insert(t.last()));
        assert(insert_stable(x, t, col) == insert_stable(x, u, col).push(t.last()));
        assert(insert_stable(x, t, col).to_multiset() =~= t.to_multiset().insert(x));
    }
}

/// Sorting only reorders: the sorted list holds the same entries, each as
/// often, for either direction.
pub proof fn lemma_sort_keeps_entries(s: Seq<EntryView>, col: SortColumn, order: SortOrder)
    ensures
        sorted_by(s, col, order).to_multiset() == s.to_multiset(),
    decreases s.len(),
{
    lemma_ascending_keeps_entries(s, col);
    if order == SortOrder::Desc {
        let a = sort_ascending(s, col);
        lemma_reverse_keeps_entries(a);
    }
}

proof fn lemma_ascending_keeps_entries(s: Seq<EntryView>, col: SortColumn)
    ensures
        sort_ascending(s, col).to_multiset() == s.to_multiset(),
    decreases s.len(),
{
    if s.len() == 0 {
        assert(s =~= Seq::<EntryView>::empty());
    } else {
        let u = s.drop_last();
        lemma_ascending_keeps_entries(u, col);
        lemma_insert_keeps_elements(s.last(), sort_ascending(u, col), col);
        u.to_multiset_ensures();
        assert(u.push(s.last()) =~= s);
        assert(s.to_multiset() == u.to_multiset().insert(s.last()));
    }
}

proof fn lemma_reverse_keeps_entries(a: Seq<EntryView>)
    ensures
        a.reverse().to_multiset() == a.to_multiset(),
    decreases a.len(),
{
    if a.len() == 0 {
        assert(a =~= a.reverse());
    } else {
        let u = a.drop_last();
        let l = a.last();
        lemma_reverse_keeps_entries(u);
        assert(a.reverse() =~= seq![l] + u.reverse());
        vstd::seq_lib::lemma_seq_union_to_multiset_commutative(seq![l], u.reverse());
        assert(u.reverse() + seq![l] =~= u.reverse().push(l));
        u.reverse().to_multiset_ensures();
        u.to_multiset_ensures();
        assert(u.push(l) =~= a);
        assert(a.to_multiset() == u.to_multiset().insert(l));
        assert(u.reverse().push(l).to_multiset() == u.reverse().to_multiset().insert(l));
    }
}

proof fn lemma_lex_flip(a: Seq<char>, b: Seq<char>)
    ensures
        (lex_cmp(a, b) == Ordering::Greater) == (lex_cmp(b, a) == Ordering::Less),
    decreases a.len(),
{
    if a.len() > 0 && b.len() > 0 && (a[0] as u32) == (b[0] as u32) {
        lemma_lex_flip(a.drop_first(), b.drop_first());
    }
}

proof fn lemma_lex_trans(a: Seq<char>, b: Seq<char>, c: Seq<char>)
    requires
        lex_cmp(a, b) != Ordering::Greater,
        lex_cmp(b, c) != Ordering::Greater,
    ensures
        lex_cmp(a, c) != Ordering::Greater,
    decreases a.len(),
{
    if a.len() > 0 && b.len() > 0 && c.len() > 0 && (a[0] as u32) == (b[0] as u32) && (b[0] as u32)
        == (c[0] as u32) {
        lemma_lex_trans(a.drop_first(), b.drop_first(), c.drop_first());
    }
}

proof fn lemma_column_flip(a: EntryView, b: EntryView, col: SortColumn)
    ensures
        (column_cmp(a, b, col) == Ordering::Greater) == (column_cmp(b, a, col) == Ordering::Less),
{
    lemma_lex_flip(a.proto, b.proto);
    lemma_lex_flip(a.local_ip, b.local_ip);
    lemma_lex_flip(a.remote_ip, b.remote_ip);
    lemma_lex_flip(a.state, b.state);
    lemma_lex_flip(a.process, b.process);
}

proof fn lemma_column_trans(a: EntryView, b: EntryView, c: EntryView, col: SortColumn)
    requires
        column_cmp(a, b, col) != Ordering::Greater,
        column_cmp(b, c, col) != Ordering::Greater,
    ensures
        column_cmp(a, c, col) != Ordering::Greater,
{
    match col {
        SortColumn::Proto => lemma_lex_trans(a.proto, b.proto, c.proto),
        SortColumn::LocalIP => lemma_lex_trans(a.local_ip, b.local_ip, c.local_ip),
        SortColumn::RemoteIP => if a.remote_ip.len() > 0 && b.remote_ip.len() > 0
            && c.remote_ip.len() > 0 {
            lemma_lex_trans(a.remote_ip, b.remote_ip, c.remote_ip)
        },
        SortColumn::State => if a.state.len() > 0 && b.state.len() > 0 && c.state.len() > 0 {
            lemma_lex_trans(a.state, b.state, c.state)
        },
        SortColumn::Process => if a.process.len() > 0 && b.process.len() > 0 && c.process.len()
            > 0 {
            lemma_lex_trans(a.process, b.process, c.process)
        },
        _ => {},
    }
}

/// No entry of the list comes after its successors in the order of `col`.
pub open spec fn ordered(s: Seq<EntryView>, col: SortColumn) -> bool {
    forall|i: int, j: int|
        0 <= i < j < s.len() ==> column_cmp(#[trigger] s[i], #[trigger] s[j], col)
            != Ordering::Greater
}

proof fn lemma_insert_bounded(x: EntryView, t: Seq<EntryView>, col: SortColumn, y: EntryView)
    requires
        forall|k: int| 0 <= k < t.len() ==> column_cmp(#[trigger] t[k], y, col) != Ordering::Greater,
        column_cmp(x, y, col) != Ordering::Greater,
    ensures
        forall|k: int|
            0 <= k < insert_stable(x, t, col).len() ==> column_cmp(
                #[trigger] insert_stable(x, t, col)[k],
                y,
                col,
            ) != Ordering::Greater,
        insert_stable(x, t, col).len() == t.len() + 1,
    decreases t.len(),
{
    if t.len() > 0 && column_cmp(t.last(), x, col) == Ordering::Greater {
        lemma_insert_bounded(x, t.drop_last(), col, y);
    }
}

proof fn lemma_insert_ordered(x: EntryView, t: Seq<EntryView>, col: SortColumn)
    requires
        ordered(t, col),
    ensures
        ordered(insert_stable(x, t, col), col),
    decreases t.len(),
{
    let r = insert_stable(x, t, col);
    if t.len() == 0 {
    } else if column_cmp(t.last(), x, col) != Ordering::Greater {
        assert forall|i: int, j: int| 0 <= i < j < r.len() implies column_cmp(
            #[trigger] r[i],
            #[trigger] r[j],
            col,
        ) != Ordering::Greater by {
            if j == t.len() && i < t.len() - 1 {
                lemma_column_trans(t[i], t.last(), x, col);
            }
        }
    } else {
        let u = t.drop_last();
        let l = t.last();
        lemma_insert_ordered(x, u, col);
        lemma_column_flip(l, x, col);
        lemma_insert_bounded(x, u, col, l);
        let w = insert_stable(x, u, col);
        assert forall|i: int, j: int| 0 <= i < j < r.len() implies column_cmp(
            #[trigger] r[i],
            #[trigger] r[j],
            col,
        ) != Ordering::Greater by {
            if j == w.len() {
                assert(r[i] == w[i]);
                assert(r[j] == l);
            } else {
                assert(r[i] == w[i]);
                assert(r[j] == w[j]);
            }
        }
    }
}

/// The ascending sort puts the entries in the order of the column, and the
/// descending sort in the opposite order.
pub proof fn lemma_sort_orders_entries(s: Seq<EntryView>, col: SortColumn)
    ensures
        ordered(sorted_by(s, col, SortOrder::Asc), col),
        forall|i: int, j: int|
            0 <= i < j < s.len() ==> column_cmp(
                #[trigger] sorted_by(s, col, SortOrder::Desc)[j],
                #[trigger] sorted_by(s, col, SortOrder::Desc)[i],
                col,
            ) != Ordering::Greater,
    decreases s.len(),
{
    lemma_ascending_ordered(s, col);
    let a = sort_ascending(s, col);
    lemma_ascending_keeps_entries(s, col);
    a.to_multiset_ensures();
    s.to_multiset_ensures();
    assert(a.len() == s.len());
    assert forall|i: int, j: int| 0 <= i < j < s.len() implies column_cmp(
        #[trigger] sorted_by(s, col, SortOrder::Desc)[j],
        #[trigger] sorted_by(s, col, SortOrder::Desc)[i],
        col,
    ) != Ordering::Greater by {
        let n = a.len();
        assert(sorted_by(s, col, SortOrder::Desc)[j] == a[n - 1 - j]);
        assert(sorted_by(s, col, SortOrder::Desc)[i] == a[n - 1 - i]);
    }
}

proof fn lemma_ascending_ordered(s: Seq<EntryView>, col: SortColumn)
    ensures
        ordered(sort_ascending(s, col), col),
    decreases s.len(),
{
    if s.len() > 0 {
        lemma_ascending_ordered(s.drop_last(), col);
        lemma_insert_ordered(s.last(), sort_ascending(s.drop_last(), col), col);
    }
}

} // verus!
