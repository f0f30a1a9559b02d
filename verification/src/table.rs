//! Tables as sequences of rows under primary keys: selecting, finding,
//! writing and dropping rows, and the laws of these.

use vstd::prelude::*;
use crate::text::same;

verus! {

/// A row of a table: it has a primary key, and it can be copied out. The
/// view of a row is the value that it stands for.
pub trait Row: View + Sized {
    /// The primary key of a row's value.
    spec fn key_of(v: Self::V) -> Seq<char>;

    /// The primary key of the row.
    fn key(&self) -> (k: &str)
        ensures
            k@ == Self::key_of(self@),
    ;

    /// A copy of the row.
    fn duplicate(&self) -> (r: Self)
        ensures
            r@ == self@,
    ;
}

/// The values under the key `key`.
pub open spec fn keyed<T: Row>(key: Seq<char>) -> spec_fn(T::V) -> bool {
    |v: T::V| T::key_of(v) == key
}

/// The values that `dropped` does not accept.
pub open spec fn except<A>(dropped: spec_fn(A) -> bool) -> spec_fn(A) -> bool {
    |a: A| !dropped(a)
}

/// No two rows share a primary key.
pub open spec fn distinct<T: Row>(s: Seq<T::V>) -> bool {
    forall|i: int, j: int| 0 <= i < j < s.len() ==> T::key_of(s[i]) != T::key_of(s[j])
}

/// The table after `row` was written over whatever stood under its key.
pub open spec fn replaced<T: Row>(s: Seq<T::V>, row: T::V) -> Seq<T::V> {
    s.filter(except(keyed::<T>(T::key_of(row)))).push(row)
}

/// What a table holds: the values of its rows, in table order.
pub open spec fn contents<T: Row>(rows: Seq<T>) -> Seq<T::V> {
    Seq::new(rows.len(), |i: int| rows[i]@)
}

/// The first value that `wanted` accepts, if any.
pub open spec fn first_where<A>(s: Seq<A>, wanted: spec_fn(A) -> bool) -> Option<A> {
    let hits = s.filter(wanted);
    if hits.len() > 0 {
        Some(hits[0])
    } else {
        None
    }
}

/// Filtering one value more either appends that value or changes nothing.
pub proof fn lemma_filter_step<A>(s: Seq<A>, k: int, wanted: spec_fn(A) -> bool)
    requires
        0 <= k < s.len(),
    ensures
        s.take(k + 1).filter(wanted) == if wanted(s[k]) {
            s.take(k).filter(wanted).push(s[k])
        } else {
            s.take(k).filter(wanted)
        },
{
    reveal(Seq::filter);
    assert(s.take(k + 1).drop_last() == s.take(k));
}

/// The first wanted value is the one before which nothing is wanted.
pub proof fn lemma_first_hit<A>(s: Seq<A>, k: int, wanted: spec_fn(A) -> bool)
    requires
        0 <= k < s.len(),
        s.take(k).filter(wanted).len() == 0,
        wanted(s[k]),
    ensures
        first_where(s, wanted) == Some(s[k]),
{
    lemma_filter_step(s, k, wanted);
    let head = s.take(k + 1);
    let tail = s.skip(k + 1);
    assert(s == head + tail);
    Seq::filter_distributes_over_add(head, tail, wanted);
    assert(head.filter(wanted) == seq![s[k]]);
}

/// Filtering keeps the order of what it keeps: each kept value stood in
/// the table, and a later kept value stood later.
pub proof fn lemma_filter_origin<A>(s: Seq<A>, wanted: spec_fn(A) -> bool, i: int) -> (m: int)
    requires
        0 <= i < s.filter(wanted).len(),
    ensures
        0 <= m < s.len(),
        s[m] == s.filter(wanted)[i],
        wanted(s[m]),
        s.take(m).filter(wanted).len() == i,
    decreases s.len(),
{
    reveal(Seq::filter);
    let rest = s.drop_last();
    assert(s.take(s.len() - 1) == rest);
    if wanted(s.last()) && i == rest.filter(wanted).len() {
        s.len() - 1
    } else {
        let m = lemma_filter_origin(rest, wanted, i);
        assert(rest.take(m) == s.take(m));
        m
    }
}

/// Filtering a longer prefix keeps no less, and more if a wanted value
/// stands in between.
pub proof fn lemma_filter_take_len<A>(s: Seq<A>, wanted: spec_fn(A) -> bool, a: int, b: int)
    requires
        0 <= a <= b <= s.len(),
    ensures
        s.take(a).filter(wanted).len() <= s.take(b).filter(wanted).len(),
        a < b && wanted(s[a]) ==> s.take(a).filter(wanted).len() < s.take(b).filter(wanted).len(),
    decreases b - a,
{
    if a < b {
        lemma_filter_step(s, a, wanted);
        lemma_filter_take_len(s, wanted, a + 1, b);
    }
}

/// Filtering a table with one row under each key leaves such a table.
pub proof fn lemma_filter_distinct<T: Row>(s: Seq<T::V>, wanted: spec_fn(T::V) -> bool)
    requires
        distinct::<T>(s),
    ensures
        distinct::<T>(s.filter(wanted)),
{
    let f = s.filter(wanted);
    assert forall|i: int, j: int| 0 <= i < j < f.len() implies T::key_of(f[i]) != T::key_of(
        f[j],
    ) by {
        let a = lemma_filter_origin(s, wanted, i);
        let b = lemma_filter_origin(s, wanted, j);
        if a >= b {
            lemma_filter_take_len(s, wanted, b, a);
        }
        assert(a < b);
    }
}

/// Writing a row into a table with one row under each key leaves such a
/// table.
pub proof fn lemma_replaced_distinct<T: Row>(s: Seq<T::V>, row: T::V)
    requires
        distinct::<T>(s),
    ensures
        distinct::<T>(replaced::<T>(s, row)),
{
    let wanted = except(keyed::<T>(T::key_of(row)));
    let f = s.filter(wanted);
    lemma_filter_distinct::<T>(s, wanted);
    let r = replaced::<T>(s, row);
    assert forall|i: int, j: int| 0 <= i < j < r.len() implies T::key_of(r[i]) != T::key_of(
        r[j],
    ) by {
        if j == f.len() {
            let m = lemma_filter_origin(s, wanted, i);
            assert(wanted(f[i]));
        } else {
            assert(r[i] == f[i] && r[j] == f[j]);
        }
    }
}

/// A first value is found exactly when some value is wanted, and then it is
/// a wanted value of the table.
pub proof fn lemma_first_where<A>(s: Seq<A>, wanted: spec_fn(A) -> bool)
    ensures
        first_where(s, wanted) is Some <==> exists|i: int| 0 <= i < s.len() && wanted(s[i]),
        first_where(s, wanted) matches Some(v) ==> wanted(v) && s.contains(v),
{
    let hits = s.filter(wanted);
    if hits.len() > 0 {
        let m = lemma_filter_origin(s, wanted, 0);
        assert(0 <= m < s.len() && wanted(s[m]));
    } else {
        assert forall|i: int| 0 <= i < s.len() implies !wanted(s[i]) by {
            if wanted(s[i]) {
                lemma_filter_take_len(s, wanted, i, s.len() as int);
                assert(s.take(s.len() as int) == s);
            }
        }
    }
}

/// What filtering keeps is wanted, and nothing wanted is lost.
pub proof fn lemma_filter_members<A>(s: Seq<A>, wanted: spec_fn(A) -> bool)
    ensures
        forall|i: int| 0 <= i < s.filter(wanted).len() ==> wanted(#[trigger] s.filter(wanted)[i]),
        forall|i: int|
            0 <= i < s.filter(wanted).len() ==> s.contains(#[trigger] s.filter(wanted)[i]),
        forall|i: int| 0 <= i < s.len() && wanted(s[i]) ==> s.filter(wanted).contains(#[trigger] s[i]),
{
    let f = s.filter(wanted);
    assert forall|i: int| 0 <= i < f.len() implies wanted(#[trigger] f[i]) && s.contains(f[i]) by {
        let m = lemma_filter_origin(s, wanted, i);
    }
    assert forall|i: int| 0 <= i < s.len() && wanted(s[i]) implies f.contains(#[trigger] s[i]) by {
        lemma_filter_step(s, i, wanted);
        let k = s.take(i).filter(wanted).len() as int;
        lemma_filter_take_len(s, wanted, i + 1, s.len() as int);
        assert(s.take(s.len() as int) == s);
        lemma_filter_prefix(s, wanted, i + 1);
        assert(f[k] == s.take(i + 1).filter(wanted)[k]);
        assert(f[k] == s[i]);
    }
}

/// What filtering keeps of a prefix is a prefix of what it keeps of the
/// whole.
pub proof fn lemma_filter_prefix<A>(s: Seq<A>, wanted: spec_fn(A) -> bool, k: int)
    requires
        0 <= k <= s.len(),
    ensures
        s.take(k).filter(wanted) == s.filter(wanted).take(s.take(k).filter(wanted).len() as int),
        s.take(k).filter(wanted).len() <= s.filter(wanted).len(),
{
    let head = s.take(k);
    let tail = s.skip(k);
    assert(s == head + tail);
    Seq::filter_distributes_over_add(head, tail, wanted);
    assert((head.filter(wanted) + tail.filter(wanted)).take(head.filter(wanted).len() as int)
        == head.filter(wanted));
}

/// Filtering by what every value meets changes nothing.
pub proof fn lemma_filter_all<A>(s: Seq<A>, wanted: spec_fn(A) -> bool)
    requires
        forall|i: int| 0 <= i < s.len() ==> wanted(s[i]),
    ensures
        s.filter(wanted) == s,
    decreases s.len(),
{
    reveal(Seq::filter);
    if s.len() > 0 {
        lemma_filter_all(s.drop_last(), wanted);
        assert(s.drop_last().push(s.last()) == s);
    }
}

/// Filtering by what no value meets leaves nothing.
pub proof fn lemma_filter_none<A>(s: Seq<A>, wanted: spec_fn(A) -> bool)
    requires
        forall|i: int| 0 <= i < s.len() ==> !wanted(s[i]),
    ensures
        s.filter(wanted).len() == 0,
{
    if s.filter(wanted).len() > 0 {
        let m = lemma_filter_origin(s, wanted, 0);
    }
}

/// A row that was written is the row found under its key.
pub proof fn written_row_is_found<T: Row>(s: Seq<T::V>, row: T::V)
    ensures
        first_where(replaced::<T>(s, row), keyed::<T>(T::key_of(row))) == Some(row),
{
    let under = keyed::<T>(T::key_of(row));
    let kept = s.filter(except(under));
    lemma_filter_members(s, except(under));
    lemma_filter_none(kept, under);
    let after = replaced::<T>(s, row);
    assert(after.take(kept.len() as int) == kept);
    lemma_first_hit(after, kept.len() as int, under);
}

/// Writing a row leaves the rows under other keys as they were, and in
/// their order.
pub proof fn writing_spares_other_keys<T: Row>(s: Seq<T::V>, row: T::V, key: Seq<char>)
    requires
        key != T::key_of(row),
    ensures
        replaced::<T>(s, row).filter(keyed::<T>(key)) == s.filter(keyed::<T>(key)),
{
    let under = keyed::<T>(T::key_of(row));
    let wanted = keyed::<T>(key);
    let kept = s.filter(except(under));
    reveal(Seq::filter);
    assert(replaced::<T>(s, row).drop_last() == kept);
    lemma_filter_twice(s, except(under), wanted);
}

/// Filtering by a narrower wish after a wider one gives what the narrower
/// gives alone.
pub proof fn lemma_filter_twice<A>(s: Seq<A>, wider: spec_fn(A) -> bool, narrower: spec_fn(A) -> bool)
    requires
        forall|i: int| 0 <= i < s.len() && narrower(#[trigger] s[i]) ==> wider(s[i]),
    ensures
        s.filter(wider).filter(narrower) == s.filter(narrower),
    decreases s.len(),
{
    reveal(Seq::filter);
    if s.len() > 0 {
        assert forall|i: int| 0 <= i < s.drop_last().len() && narrower(
            #[trigger] s.drop_last()[i],
        ) implies wider(s.drop_last()[i]) by {
            assert(s.drop_last()[i] == s[i]);
        }
        lemma_filter_twice(s.drop_last(), wider, narrower);
        if wider(s.last()) {
            let f = s.drop_last().filter(wider);
            assert(f.push(s.last()).drop_last() == f);
        }
    }
}

/// Writing a row twice is writing it once.
pub proof fn writing_twice_is_writing_once<T: Row>(s: Seq<T::V>, row: T::V)
    ensures
        replaced::<T>(replaced::<T>(s, row), row) == replaced::<T>(s, row),
{
    let others = except(keyed::<T>(T::key_of(row)));
    let kept = s.filter(others);
    let once = replaced::<T>(s, row);
    lemma_filter_members(s, others);
    lemma_filter_all(kept, others);
    reveal(Seq::filter);
    assert(once.drop_last() == kept);
    assert(once.filter(others) == kept);
}

/// What holds of every value of a table holds of every value that
/// filtering keeps.
pub proof fn lemma_filter_keeps<A>(s: Seq<A>, wanted: spec_fn(A) -> bool, good: spec_fn(A) -> bool)
    requires
        forall|i: int| 0 <= i < s.len() ==> good(s[i]),
    ensures
        forall|i: int| 0 <= i < s.filter(wanted).len() ==> good(#[trigger] s.filter(wanted)[i]),
{
    let f = s.filter(wanted);
    assert forall|i: int| 0 <= i < f.len() implies good(#[trigger] f[i]) by {
        let m = lemma_filter_origin(s, wanted, i);
    }
}

/// What holds of every value of a table and of a new row holds of every
/// value once the row was written.
pub proof fn lemma_replaced_keeps<T: Row>(s: Seq<T::V>, row: T::V, good: spec_fn(T::V) -> bool)
    requires
        forall|i: int| 0 <= i < s.len() ==> good(s[i]),
        good(row),
    ensures
        forall|i: int|
            0 <= i < replaced::<T>(s, row).len() ==> good(#[trigger] replaced::<T>(s, row)[i]),
{
    let wanted = except(keyed::<T>(T::key_of(row)));
    lemma_filter_keeps(s, wanted, good);
    let r = replaced::<T>(s, row);
    assert forall|i: int| 0 <= i < r.len() implies good(#[trigger] r[i]) by {
        if i < s.filter(wanted).len() {
            assert(r[i] == s.filter(wanted)[i]);
        }
    }
}

/// Copies out the rows that `keep` accepts, in table order.
pub(crate) fn select<T: Row, F: Fn(&T) -> bool>(rows: &Vec<T>, keep: F, Ghost(wanted): Ghost<spec_fn(T::V) -> bool>) -> (out: Vec<T>)
    requires
        forall|t: &T| call_requires(keep, (t,)),
        forall|t: &T, b: bool| call_ensures(keep, (t,), b) ==> b == wanted(t@),
    ensures
        contents(out@) == contents(rows@).filter(wanted),
{
    let mut out: Vec<T> = Vec::new();
    let mut i: usize = 0;
    proof {
        reveal(Seq::filter);
        assert(contents(rows@).take(0).filter(wanted) == Seq::<T::V>::empty());
        assert(contents(out@) == Seq::<T::V>::empty());
    }
    while i < rows.len()
        invariant
            0 <= i <= rows.len(),
            forall|t: &T| call_requires(keep, (t,)),
            forall|t: &T, b: bool| call_ensures(keep, (t,), b) ==> b == wanted(t@),
            contents(out@) == contents(rows@).take(i as int).filter(wanted),
        decreases rows.len() - i,
    {
        proof {
            lemma_filter_step(contents(rows@), i as int, wanted);
        }
        let ghost before = out@;
        if keep(&rows[i]) {
            let copy = rows[i].duplicate();
            out.push(copy);
            assert(contents(out@) == contents(before).push(copy@));
        }
        i += 1;
    }
    assert(contents(rows@).take(rows.len() as int) == contents(rows@));
    out
}

/// Copies out the first row that `wanted` accepts.
pub(crate) fn find_first<T: Row, F: Fn(&T) -> bool>(rows: &Vec<T>, hit: F, Ghost(wanted): Ghost<spec_fn(T::V) -> bool>) -> (r: Option<T>)
    requires
        forall|t: &T| call_requires(hit, (t,)),
        forall|t: &T, b: bool| call_ensures(hit, (t,), b) ==> b == wanted(t@),
    ensures
        match r {
            Some(t) => first_where(contents(rows@), wanted) == Some(t@),
            None => first_where(contents(rows@), wanted).is_none(),
        },
{
    let mut i: usize = 0;
    proof {
        reveal(Seq::filter);
        assert(contents(rows@).take(0).filter(wanted) == Seq::<T::V>::empty());
    }
    while i < rows.len()
        invariant
            0 <= i <= rows.len(),
            forall|t: &T| call_requires(hit, (t,)),
            forall|t: &T, b: bool| call_ensures(hit, (t,), b) ==> b == wanted(t@),
            contents(rows@).take(i as int).filter(wanted).len() == 0,
        decreases rows.len() - i,
    {
        if hit(&rows[i]) {
            proof {
                lemma_first_hit(contents(rows@), i as int, wanted);
            }
            return Some(rows[i].duplicate());
        }
        proof {
            lemma_filter_step(contents(rows@), i as int, wanted);
        }
        i += 1;
    }
    assert(contents(rows@).take(rows.len() as int) == contents(rows@));
    None
}

/// Writes `row` over whatever stands under its key.
pub(crate) fn put<T: Row>(rows: &mut Vec<T>, row: T)
    requires
        distinct::<T>(contents(old(rows)@)),
    ensures
        contents(final(rows)@) == replaced::<T>(contents(old(rows)@), row@),
        distinct::<T>(contents(final(rows)@)),
{
    let ghost before = contents(rows@);
    let ghost value = row@;
    let ghost under = keyed::<T>(T::key_of(value));
    let taken = |t: &T| -> (b: bool)
        ensures
            b == under(t@),
        { same_key(t, &row) };
    discard(rows, taken, Ghost(under));
    let ghost kept = rows@;
    rows.push(row);
    assert(contents(rows@) == contents(kept).push(value));
    proof {
        lemma_replaced_distinct::<T>(before, value);
    }
}

/// Whether a row stands under a key.
pub(crate) fn has_key<T: Row>(row: &T, key: &str) -> (r: bool)
    ensures
        r == keyed::<T>(key@)(row@),
{
    same(row.key(), key)
}

/// Whether two rows stand under one key.
pub(crate) fn same_key<T: Row>(a: &T, b: &T) -> (r: bool)
    ensures
        r == (T::key_of(a@) == T::key_of(b@)),
{
    same(a.key(), b.key())
}

/// Drops the rows that `dropped` accepts.
pub(crate) fn discard<T: Row, F: Fn(&T) -> bool>(rows: &mut Vec<T>, drop: F, Ghost(dropped): Ghost<spec_fn(T::V) -> bool>)
    requires
        distinct::<T>(contents(old(rows)@)),
        forall|t: &T| call_requires(drop, (t,)),
        forall|t: &T, b: bool| call_ensures(drop, (t,), b) ==> b == dropped(t@),
    ensures
        contents(final(rows)@) == contents(old(rows)@).filter(except(dropped)),
        distinct::<T>(contents(final(rows)@)),
{
    let ghost before = contents(rows@);
    let mut kept: Vec<T> = Vec::new();
    let mut i: usize = 0;
    proof {
        reveal(Seq::filter);
        assert(before.take(0).filter(except(dropped)) == Seq::<T::V>::empty());
        assert(contents(kept@) == Seq::<T::V>::empty());
    }
    while i < rows.len()
        invariant
            0 <= i <= rows.len(),
            before == contents(rows@),
            forall|t: &T| call_requires(drop, (t,)),
            forall|t: &T, b: bool| call_ensures(drop, (t,), b) ==> b == dropped(t@),
            contents(kept@) == before.take(i as int).filter(except(dropped)),
        decreases rows.len() - i,
    {
        proof {
            lemma_filter_step(before, i as int, except(dropped));
        }
        let ghost so_far = kept@;
        if !drop(&rows[i]) {
            let copy = rows[i].duplicate();
            kept.push(copy);
            assert(contents(kept@) == contents(so_far).push(copy@));
        }
        i += 1;
    }
    assert(before.take(rows.len() as int) == before);
    proof {
        lemma_filter_distinct::<T>(before, except(dropped));
    }
    *rows = kept;
}

/// Whether no two rows share a primary key.
pub(crate) fn keys_distinct<T: Row>(rows: &Vec<T>) -> (r: bool)
    ensures
        r == distinct::<T>(contents(rows@)),
{
    let ghost s = contents(rows@);
    let mut j: usize = 0;
    while j < rows.len()
        invariant
            0 <= j <= rows.len(),
            s == contents(rows@),
            forall|a: int, b: int| 0 <= a < b < j ==> T::key_of(s[a]) != T::key_of(s[b]),
        decreases rows.len() - j,
    {
        let mut i: usize = 0;
        while i < j
            invariant
                0 <= i <= j < rows.len(),
                s == contents(rows@),
                forall|a: int| 0 <= a < i ==> T::key_of(s[a]) != T::key_of(s[j as int]),
            decreases j - i,
        {
            if same_key(&rows[i], &rows[j]) {
                assert(T::key_of(s[i as int]) == T::key_of(s[j as int]));
                return false;
            }
            i += 1;
        }
        j += 1;
    }
    true
}

/// Copies out every row, in table order.
pub(crate) fn copy_all<T: Row>(rows: &Vec<T>) -> (out: Vec<T>)
    ensures
        contents(out@) == contents(rows@),
{
    let mut out: Vec<T> = Vec::new();
    let mut i: usize = 0;
    while i < rows.len()
        invariant
            0 <= i <= rows.len(),
            contents(out@) == contents(rows@).take(i as int),
        decreases rows.len() - i,
    {
        let ghost so_far = out@;
        let copy = rows[i].duplicate();
        out.push(copy);
        assert(contents(out@) == contents(so_far).push(copy@));
        assert(contents(rows@).take(i + 1) == contents(rows@).take(i as int).push(copy@));
        i += 1;
    }
    assert(contents(rows@).take(rows.len() as int) == contents(rows@));
    out
}

} // verus!
