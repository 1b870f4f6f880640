//! Association lists keyed by string content: the shape of the handler
//! registry and of the cooldown map.

use vstd::prelude::*;

verus! {

/// First value bound to `key`, scanning left to right.
pub open spec fn table_lookup<V>(t: Seq<(String, V)>, key: Seq<char>) -> Option<V>
    decreases t.len(),
{
    if t.len() == 0 {
        None
    } else if t[0].0@ == key {
        Some(t[0].1)
    } else {
        table_lookup(t.drop_first(), key)
    }
}

/// Index of the first entry bound to `key`.
pub fn table_find<V>(t: &Vec<(String, V)>, key: &String) -> (r: Option<usize>)
    ensures
        r matches Some(i) ==> i < t@.len() && t@[i as int].0@ == key@ && (forall|j: int|
            0 <= j < i ==> t@[j].0@ != key@),
        r is None ==> forall|j: int| 0 <= j < t@.len() ==> t@[j].0@ != key@,
{
    let mut i: usize = 0;
    while i < t.len()
        invariant
            0 <= i <= t@.len(),
            forall|j: int| 0 <= j < i ==> t@[j].0@ != key@,
        decreases t@.len() - i,
    {
        if t[i].0 == *key {
            return Some(i);
        }
        i += 1;
    }
    None
}

/// A left-to-right scan that stops at `i` finds the value stored there.
pub proof fn lemma_lookup_at_index<V>(t: Seq<(String, V)>, key: Seq<char>, i: int)
    requires
        0 <= i < t.len(),
        t[i].0@ == key,
        forall|j: int| 0 <= j < i ==> t[j].0@ != key,
    ensures
        table_lookup(t, key) == Some(t[i].1),
    decreases i,
{
    if i > 0 {
        lemma_lookup_at_index(t.drop_first(), key, i - 1);
    }
}

/// A key that appears on no entry is not bound.
pub proof fn lemma_lookup_absent<V>(t: Seq<(String, V)>, key: Seq<char>)
    requires
        forall|j: int| 0 <= j < t.len() ==> t[j].0@ != key,
    ensures
        table_lookup(t, key) is None,
    decreases t.len(),
{
    if t.len() > 0 {
        lemma_lookup_absent(t.drop_first(), key);
    }
}

/// Overwriting the value at the first entry bound to some key rebinds that
/// key and leaves every other key's binding alone.
pub proof fn lemma_lookup_update<V>(t: Seq<(String, V)>, i: int, v: V)
    requires
        0 <= i < t.len(),
        forall|j: int| 0 <= j < i ==> t[j].0@ != t[i].0@,
    ensures
        table_lookup(t.update(i, (t[i].0, v)), t[i].0@) == Some(v),
        forall|o: Seq<char>|
            o != t[i].0@ ==> #[trigger] table_lookup(t.update(i, (t[i].0, v)), o) == table_lookup(
                t,
                o,
            ),
    decreases i,
{
    let key = t[i].0@;
    let t2 = t.update(i, (t[i].0, v));
    if i == 0 {
        assert(t2.drop_first() =~= t.drop_first());
        assert(table_lookup(t2, key) == Some(v));
        assert forall|o: Seq<char>|
            o != key implies #[trigger] table_lookup(t2, o) == table_lookup(t, o) by {
            assert(table_lookup(t2, o) == table_lookup(t2.drop_first(), o));
            assert(table_lookup(t, o) == table_lookup(t.drop_first(), o));
        }
    } else {
        let tr = t.drop_first();
        let rec = tr.update(i - 1, (tr[i - 1].0, v));
        assert(t2[0] == t[0]);
        assert(t2.drop_first() =~= rec);
        lemma_lookup_update(tr, i - 1, v);
        assert(tr[i - 1].0@ == key);
        assert(t[0].0@ != key);
        assert(table_lookup(t2, key) == table_lookup(rec, key));
        assert forall|o: Seq<char>|
            o != key implies #[trigger] table_lookup(t2, o) == table_lookup(t, o) by {
            if t2[0].0@ != o {
                assert(table_lookup(t2, o) == table_lookup(rec, o));
                assert(table_lookup(t, o) == table_lookup(tr, o));
            }
        }
    }
}

/// Appending an entry binds its key if the key was unbound, and leaves every
/// other key's binding alone.
pub proof fn lemma_lookup_push<V>(t: Seq<(String, V)>, name: String, v: V)
    ensures
        table_lookup(t, name@) is None ==> table_lookup(t.push((name, v)), name@) == Some(v),
        forall|o: Seq<char>|
            o != name@ ==> #[trigger] table_lookup(t.push((name, v)), o) == table_lookup(t, o),
    decreases t.len(),
{
    let t2 = t.push((name, v));
    if t.len() == 0 {
        assert(t2[0] == (name, v));
        assert(t2.drop_first() =~= Seq::<(String, V)>::empty());
        assert forall|o: Seq<char>|
            o != name@ implies #[trigger] table_lookup(t2, o) == table_lookup(t, o) by {
            assert(table_lookup(t2, o) == table_lookup(t2.drop_first(), o));
        }
    } else {
        let tr = t.drop_first();
        assert(t2[0] == t[0]);
        assert(t2.drop_first() =~= tr.push((name, v)));
        lemma_lookup_push(tr, name, v);
        if table_lookup(t, name@) is None {
            assert(t[0].0@ != name@);
            assert(table_lookup(t2, name@) == table_lookup(tr.push((name, v)), name@));
        }
        assert forall|o: Seq<char>|
            o != name@ implies #[trigger] table_lookup(t2, o) == table_lookup(t, o) by {
            if t2[0].0@ != o {
                assert(table_lookup(t2, o) == table_lookup(tr.push((name, v)), o));
                assert(table_lookup(t, o) == table_lookup(tr, o));
            }
        }
    }
}

/// IDEMPOTENT REGISTRATION: whatever was bound to a name before, after two
/// writes to the same name only the second value is in effect, and no other
/// name's binding has moved.  The hypotheses are exactly what `register`
/// ensures of each write.
pub proof fn lemma_register_last_wins<V>(
    t0: Seq<(String, V)>,
    t1: Seq<(String, V)>,
    t2: Seq<(String, V)>,
    name: Seq<char>,
    h1: V,
    h2: V,
)
    requires
        table_lookup(t1, name) == Some(h1),
        forall|o: Seq<char>| o != name ==> #[trigger] table_lookup(t1, o) == table_lookup(t0, o),
        table_lookup(t2, name) == Some(h2),
        forall|o: Seq<char>| o != name ==> #[trigger] table_lookup(t2, o) == table_lookup(t1, o),
    ensures
        table_lookup(t2, name) == Some(h2),
        forall|o: Seq<char>| o != name ==> #[trigger] table_lookup(t2, o) == table_lookup(t0, o),
{
}

} // verus!
