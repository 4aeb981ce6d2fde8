//! Objects read as records of optional members: the canonical member order,
//! which members a record has, and how the encoded members of a record are
//! laid out.

use vstd::prelude::*;
use crate::error::{Failure, Field};
use crate::json::{JsonValue, find_key, lemma_find_key_push};

verus! {

/// A record whose wire form is an object of optional members.
pub trait Members: Sized {
    /// The members in the order in which they are written.
    spec fn members() -> Seq<Field>;

    /// This record has the member `f`.
    spec fn has(self, f: Field) -> bool;

    /// `v` encodes the member `f` of this record.
    spec fn member_encodes(self, f: Field, v: JsonValue) -> bool;

    /// The member `f` of this record is what the member of that name in `es`
    /// decodes to.
    spec fn member_decodes(self, es: Seq<(String, JsonValue)>, f: Field) -> bool;

    /// Why the member `f` in `es` does not decode, where it does not.
    spec fn member_failure(es: Seq<(String, JsonValue)>, f: Field) -> Option<Failure>;

    /// A member found under its name, encoded, decodes back to itself; a
    /// member that the record lacks is not found and decodes to nothing.
    proof fn lemma_member_round_trip(self, es: Seq<(String, JsonValue)>, f: Field)
        requires
            Self::members().contains(f),
            self.has(f) ==> exists|i: int|
                0 <= i < es.len() && find_key(es, f.spec_name()) == Some(i) && self.member_encodes(f, #[trigger] es[i].1),
            !self.has(f) ==> find_key(es, f.spec_name()) is None,
        ensures
            Self::member_failure(es, f) is None,
            self.member_decodes(es, f),
    ;
}

/// `es` encodes the members of `x` among the first `i` of `fs`.
pub open spec fn encodes_members_prefix<T: Members>(x: T, es: Seq<(String, JsonValue)>, fs: Seq<Field>, i: int) -> bool {
    let p = present_in(x, fs.take(i));
    &&& 0 <= i <= fs.len()
    &&& es.len() == p.len()
    &&& forall|a: int|
        0 <= a < es.len() ==> es[a].0@ == (#[trigger] p[a]).spec_name() && x.member_encodes(p[a], es[a].1)
}

/// One more member considered: kept where the record has it.
pub proof fn lemma_present_step<T: Members>(x: T, fs: Seq<Field>, i: int)
    requires
        0 <= i < fs.len(),
    ensures
        present_in(x, fs.take(i + 1)) == if x.has(fs[i]) {
            present_in(x, fs.take(i)).push(fs[i])
        } else {
            present_in(x, fs.take(i))
        },
{
    assert(fs.take(i + 1).drop_last() =~= fs.take(i));
    assert(fs.take(i + 1).last() == fs[i]);
}

/// Encoding one more member extends the encoded prefix.
pub proof fn lemma_prefix_extend<T: Members>(x: T, before: Seq<(String, JsonValue)>, after: Seq<(String, JsonValue)>, fs: Seq<Field>, i: int)
    requires
        0 <= i < fs.len(),
        encodes_members_prefix(x, before, fs, i),
        present_in(x, fs.take(i + 1)) == if x.has(fs[i]) {
            present_in(x, fs.take(i)).push(fs[i])
        } else {
            present_in(x, fs.take(i))
        },
        !x.has(fs[i]) ==> after == before,
        x.has(fs[i]) ==> after.len() == before.len() + 1 && after.drop_last() == before
            && after.last().0@ == fs[i].spec_name() && x.member_encodes(fs[i], after.last().1),
    ensures
        encodes_members_prefix(x, after, fs, i + 1),
{
    let p = present_in(x, fs.take(i + 1));
    if x.has(fs[i]) {
        assert forall|a: int| 0 <= a < after.len() implies after[a].0@ == (#[trigger] p[a]).spec_name() && x.member_encodes(p[a], after[a].1) by {
            if a < before.len() {
                assert(after[a] == after.drop_last()[a]);
            } else {
                assert(after[a] == after.last());
            }
        }
    }
}

/// The prefix over all members is the whole encoding.
pub proof fn lemma_prefix_complete<T: Members>(x: T, es: Seq<(String, JsonValue)>, fs: Seq<Field>)
    requires
        fs == T::members(),
        encodes_members_prefix(x, es, fs, fs.len() as int),
    ensures
        encodes_members(x, es),
{
    assert(fs.take(fs.len() as int) =~= fs);
}

/// Failures from position `i` on are absent where no member from there on fails.
pub proof fn lemma_failure_from_none<T: Members>(es: Seq<(String, JsonValue)>, fs: Seq<Field>, i: int)
    requires
        0 <= i,
        forall|k: int| i <= k < fs.len() ==> T::member_failure(es, #[trigger] fs[k]) is None,
    ensures
        failure_from::<T>(es, fs, i) is None,
    decreases fs.len() - i,
{
    if i < fs.len() {
        lemma_failure_from_none::<T>(es, fs, i + 1);
    }
}

/// Members whose lookups match a record decode back to that record.
pub proof fn lemma_members_round_trip<T: Members>(x: T, es: Seq<(String, JsonValue)>)
    requires
        lookups_match(x, es),
    ensures
        failure_from::<T>(es, T::members(), 0) is None,
        decodes_members(x, es),
{
    let m = T::members();
    assert forall|f: Field| m.contains(f) implies T::member_failure(es, f) is None && x.member_decodes(es, f) by {
        x.lemma_member_round_trip(es, f);
    }
    assert forall|k: int| 0 <= k < m.len() implies T::member_failure(es, #[trigger] m[k]) is None by {
        assert(m.contains(m[k]));
    }
    lemma_failure_from_none::<T>(es, m, 0);
}

/// The members of `fs` that `x` has, in order.
pub open spec fn present_in<T: Members>(x: T, fs: Seq<Field>) -> Seq<Field>
    decreases fs.len(),
{
    if fs.len() == 0 {
        Seq::empty()
    } else {
        let p = present_in(x, fs.drop_last());
        if x.has(fs.last()) {
            p.push(fs.last())
        } else {
            p
        }
    }
}

/// `es` holds exactly the members that `x` has, in canonical order, each
/// encoded.
pub open spec fn encodes_members<T: Members>(x: T, es: Seq<(String, JsonValue)>) -> bool {
    let p = present_in(x, T::members());
    &&& es.len() == p.len()
    &&& forall|i: int|
        0 <= i < es.len() ==> es[i].0@ == (#[trigger] p[i]).spec_name() && x.member_encodes(p[i], es[i].1)
}

/// No two names in `fs` are spelled alike.
pub open spec fn distinct_names(fs: Seq<Field>) -> bool {
    forall|i: int, j: int| 0 <= i < j < fs.len() ==> (#[trigger] fs[i]).spec_name() != (#[trigger] fs[j]).spec_name()
}

/// The first failure among the members `fs[i..]`, in order.
pub open spec fn failure_from<T: Members>(es: Seq<(String, JsonValue)>, fs: Seq<Field>, i: int) -> Option<Failure>
    decreases fs.len() - i,
{
    if i < 0 || i >= fs.len() {
        None
    } else {
        match T::member_failure(es, fs[i]) {
            Some(f) => Some(f),
            None => failure_from::<T>(es, fs, i + 1),
        }
    }
}

/// Every member of `x` is what its namesake in `es` decodes to.
pub open spec fn decodes_members<T: Members>(x: T, es: Seq<(String, JsonValue)>) -> bool {
    forall|f: Field| T::members().contains(f) ==> #[trigger] x.member_decodes(es, f)
}

/// What `present_in` keeps, and that it keeps every member the record has.
pub proof fn lemma_present_in<T: Members>(x: T, fs: Seq<Field>)
    ensures
        forall|i: int| 0 <= i < present_in(x, fs).len() ==> fs.contains(#[trigger] present_in(x, fs)[i]) && x.has(present_in(x, fs)[i]),
        forall|f: Field| fs.contains(f) && x.has(f) ==> #[trigger] present_in(x, fs).contains(f),
        present_in(x, fs).len() <= fs.len(),
    decreases fs.len(),
{
    if fs.len() > 0 {
        let q = fs.drop_last();
        lemma_present_in(x, q);
        let p = present_in(x, q);
        assert forall|i: int| 0 <= i < present_in(x, fs).len() implies fs.contains(#[trigger] present_in(x, fs)[i]) && x.has(present_in(x, fs)[i]) by {
            if i < p.len() {
                assert(present_in(x, fs)[i] == p[i]);
                let k = choose|k: int| 0 <= k < q.len() && q[k] == p[i];
                assert(fs[k] == q[k]);
            } else {
                assert(fs[fs.len() - 1] == fs.last());
            }
        }
        assert forall|f: Field| fs.contains(f) && x.has(f) implies #[trigger] present_in(x, fs).contains(f) by {
            let k = choose|k: int| 0 <= k < fs.len() && fs[k] == f;
            if k < fs.len() - 1 {
                assert(q[k] == f);
                assert(q.contains(f));
                assert(p.contains(f));
                let m = choose|m: int| 0 <= m < p.len() && p[m] == f;
                if x.has(fs.last()) {
                    assert(present_in(x, fs)[m] == f);
                } else {
                    assert(present_in(x, fs) == p);
                }
            } else {
                assert(present_in(x, fs)[p.len() as int] == f);
            }
        }
    }
}

/// `present_in` keeps names distinct.
pub proof fn lemma_present_in_distinct<T: Members>(x: T, fs: Seq<Field>)
    requires
        distinct_names(fs),
    ensures
        distinct_names(present_in(x, fs)),
    decreases fs.len(),
{
    if fs.len() > 0 {
        let q = fs.drop_last();
        assert(distinct_names(q)) by {
            assert forall|i: int, j: int| 0 <= i < j < q.len() implies (#[trigger] q[i]).spec_name() != (#[trigger] q[j]).spec_name() by {
                assert(q[i] == fs[i] && q[j] == fs[j]);
            }
        }
        lemma_present_in_distinct(x, q);
        lemma_present_in(x, q);
        let p = present_in(x, q);
        if x.has(fs.last()) {
            let r = p.push(fs.last());
            assert forall|i: int, j: int| 0 <= i < j < r.len() implies (#[trigger] r[i]).spec_name() != (#[trigger] r[j]).spec_name() by {
                if j == r.len() - 1 {
                    assert(r[i] == p[i]);
                    assert(q.contains(p[i]));
                    let k = choose|k: int| 0 <= k < q.len() && q[k] == p[i];
                    assert(fs[k] == q[k]);
                    assert(fs[fs.len() - 1] == fs.last());
                } else {
                    assert(r[i] == p[i] && r[j] == p[j]);
                }
            }
        }
    }
}

/// In members with distinct names, each name is found where it stands.
pub proof fn lemma_find_key_distinct(es: Seq<(String, JsonValue)>, i: int)
    requires
        0 <= i < es.len(),
        forall|a: int, b: int| 0 <= a < b < es.len() ==> (#[trigger] es[a]).0@ != (#[trigger] es[b]).0@,
    ensures
        find_key(es, es[i].0@) == Some(i),
    decreases es.len(),
{
    if i < es.len() - 1 {
        let q = es.drop_last();
        assert(es.last() == es[es.len() - 1]);
        assert forall|a: int, b: int| 0 <= a < b < q.len() implies (#[trigger] q[a]).0@ != (#[trigger] q[b]).0@ by {
            assert(q[a] == es[a] && q[b] == es[b]);
        }
        lemma_find_key_distinct(q, i);
        assert(q[i] == es[i]);
    }
}

/// A name spelled by none of the members is not found.
pub proof fn lemma_find_key_absent(es: Seq<(String, JsonValue)>, name: Seq<char>)
    requires
        forall|a: int| 0 <= a < es.len() ==> (#[trigger] es[a]).0@ != name,
    ensures
        find_key(es, name) is None,
    decreases es.len(),
{
    if es.len() > 0 {
        let q = es.drop_last();
        assert(es.last() == es[es.len() - 1]);
        assert forall|a: int| 0 <= a < q.len() implies (#[trigger] q[a]).0@ != name by {
            assert(q[a] == es[a]);
        }
        lemma_find_key_absent(q, name);
    }
}

/// Every member of `x` is found under its name in `es`, encoded; no member
/// that `x` lacks is found.
pub open spec fn lookups_match<T: Members>(x: T, es: Seq<(String, JsonValue)>) -> bool {
    forall|f: Field| #[trigger] T::members().contains(f) ==> {
        &&& x.has(f) ==> exists|i: int|
            0 <= i < es.len() && find_key(es, f.spec_name()) == Some(i) && x.member_encodes(f, #[trigger] es[i].1)
        &&& !x.has(f) ==> find_key(es, f.spec_name()) is None
    }
}

/// Where `es` encodes the members of `x`, each member of `x` is found under
/// its name, and a member that `x` lacks is not found.
proof fn lemma_encoded_lookup<T: Members>(x: T, es: Seq<(String, JsonValue)>, f: Field)
    requires
        encodes_members(x, es),
        distinct_names(T::members()),
        T::members().contains(f),
    ensures
        x.has(f) ==> exists|i: int|
            0 <= i < es.len() && find_key(es, f.spec_name()) == Some(i) && x.member_encodes(f, #[trigger] es[i].1),
        !x.has(f) ==> find_key(es, f.spec_name()) is None,
{
    let p = present_in(x, T::members());
    lemma_present_in(x, T::members());
    lemma_present_in_distinct(x, T::members());
    assert forall|a: int, b: int| 0 <= a < b < es.len() implies (#[trigger] es[a]).0@ != (#[trigger] es[b]).0@ by {
        assert(es[a].0@ == p[a].spec_name());
        assert(es[b].0@ == p[b].spec_name());
    }
    if x.has(f) {
        assert(p.contains(f));
        let i = choose|i: int| 0 <= i < p.len() && p[i] == f;
        assert(es[i].0@ == p[i].spec_name());
        lemma_find_key_distinct(es, i);
        assert(x.member_encodes(f, es[i].1));
    } else {
        let m = T::members();
        let k = choose|k: int| 0 <= k < m.len() && m[k] == f;
        assert forall|a: int| 0 <= a < es.len() implies (#[trigger] es[a]).0@ != f.spec_name() by {
            assert(es[a].0@ == p[a].spec_name());
            assert(m.contains(p[a]));
            let j = choose|j: int| 0 <= j < m.len() && m[j] == p[a];
            if j != k {
                if j < k {
                    assert(m[j].spec_name() != m[k].spec_name());
                } else {
                    assert(m[k].spec_name() != m[j].spec_name());
                }
            }
        }
        lemma_find_key_absent(es, f.spec_name());
    }
}

/// The lookups of encoded members match.
pub proof fn lemma_encoded_lookups<T: Members>(x: T, es: Seq<(String, JsonValue)>)
    requires
        encodes_members(x, es),
        distinct_names(T::members()),
    ensures
        lookups_match(x, es),
{
    assert forall|f: Field| #[trigger] T::members().contains(f) implies {
        &&& x.has(f) ==> exists|i: int|
            0 <= i < es.len() && find_key(es, f.spec_name()) == Some(i) && x.member_encodes(f, #[trigger] es[i].1)
        &&& !x.has(f) ==> find_key(es, f.spec_name()) is None
    } by {
        lemma_encoded_lookup(x, es, f);
    }
}

/// A member put in front does not hide a name it does not spell.
pub proof fn lemma_find_key_prepend(t: (String, JsonValue), es: Seq<(String, JsonValue)>, name: Seq<char>)
    requires
        t.0@ != name,
    ensures
        find_key(seq![t] + es, name) == match find_key(es, name) {
            Some(j) => Some(j + 1),
            None => None,
        },
    decreases es.len(),
{
    let all = seq![t] + es;
    assert(all.len() == es.len() + 1);
    if es.len() == 0 {
        assert(all.last() == t);
        assert(all.drop_last() =~= Seq::<(String, JsonValue)>::empty());
        assert(find_key(all.drop_last(), name) is None);
    } else {
        assert(all.last() == es.last());
        assert(all.drop_last() =~= seq![t] + es.drop_last());
        lemma_find_key_prepend(t, es.drop_last(), name);
        if es.last().0@ != name {
            assert(find_key(all, name) == find_key(all.drop_last(), name));
            assert(find_key(es, name) == find_key(es.drop_last(), name));
        }
    }
}

/// Lookups still match in `[t] + es + tail` where neither `t` nor the one
/// member of `tail`, if any, spells a name of the record.
pub proof fn lemma_lookups_frame<T: Members>(x: T, t: (String, JsonValue), es: Seq<(String, JsonValue)>, tail: Seq<(String, JsonValue)>)
    requires
        lookups_match(x, es),
        tail.len() <= 1,
        forall|f: Field| #[trigger] T::members().contains(f) ==> f.spec_name() != t.0@ && (tail.len() == 1 ==> f.spec_name() != tail[0].0@),
    ensures
        lookups_match(x, seq![t] + es + tail),
{
    let all = seq![t] + es + tail;
    assert forall|f: Field| #[trigger] T::members().contains(f) implies {
        &&& x.has(f) ==> exists|i: int|
            0 <= i < all.len() && find_key(all, f.spec_name()) == Some(i) && x.member_encodes(f, #[trigger] all[i].1)
        &&& !x.has(f) ==> find_key(all, f.spec_name()) is None
    } by {
        lemma_find_key_prepend(t, es, f.spec_name());
        if tail.len() == 1 {
            assert(all =~= (seq![t] + es).push(tail[0]));
            lemma_find_key_push(seq![t] + es, tail[0], f.spec_name());
        } else {
            assert(all =~= seq![t] + es);
        }
        if x.has(f) {
            let i = choose|i: int| 0 <= i < es.len() && find_key(es, f.spec_name()) == Some(i) && x.member_encodes(f, #[trigger] es[i].1);
            assert(all[i + 1] == es[i]);
        }
    }
}

} // verus!
