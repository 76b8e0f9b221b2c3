//! Lexicographic order on text, the deadline order of a room's actions and
//! the time order of its audit record.

use vstd::prelude::*;

use crate::demo::{AuditEvent, DemoAction};
use crate::text::chars_of;

verus! {

broadcast use vstd::string::group_string_axioms;

/// `a` sorts before or with `b`, character by character (the order of
/// SQLite's binary collation on UTF-8 text).
pub open spec fn text_le(a: Seq<char>, b: Seq<char>) -> bool
    decreases a.len(),
{
    if a.len() == 0 {
        true
    } else if b.len() == 0 {
        false
    } else if a[0] != b[0] {
        a[0] < b[0]
    } else {
        text_le(a.drop_first(), b.drop_first())
    }
}

/// Any two texts are ordered one way or the other, and texts ordered both
/// ways are equal.
pub proof fn lemma_text_le_total(a: Seq<char>, b: Seq<char>)
    ensures
        text_le(a, b) || text_le(b, a),
        text_le(a, b) && text_le(b, a) ==> a == b,
    decreases a.len(),
{
    if a.len() > 0 && b.len() > 0 && a[0] == b[0] {
        lemma_text_le_total(a.drop_first(), b.drop_first());
        if text_le(a, b) && text_le(b, a) {
            assert(a =~= seq![a[0]] + a.drop_first());
            assert(b =~= seq![b[0]] + b.drop_first());
        }
    } else if a.len() == 0 && b.len() == 0 {
        assert(a =~= b);
    }
}

/// The text order is transitive.
pub proof fn lemma_text_le_transitive(a: Seq<char>, b: Seq<char>, c: Seq<char>)
    requires
        text_le(a, b),
        text_le(b, c),
    ensures
        text_le(a, c),
    decreases a.len(),
{
    if a.len() > 0 && b.len() > 0 && c.len() > 0 && a[0] == b[0] && b[0] == c[0] {
        lemma_text_le_transitive(a.drop_first(), b.drop_first(), c.drop_first());
    }
}

/// Whether `a` comes strictly before `b` in binary collation: `a` is a
/// proper prefix of `b`, or the two first differ at a position where `a`'s
/// character is the smaller.
pub open spec fn binary_before(a: Seq<char>, b: Seq<char>) -> bool {
    ||| (a.len() < b.len() && b.take(a.len() as int) == a)
    ||| exists|k: int|
        0 <= k < a.len() && k < b.len() && #[trigger] a.take(k) == b.take(k) && a[k] < b[k]
}

/// Two texts that first differ at position `k`, where `a`'s character is the
/// smaller, sort `a` strictly first, whatever their lengths.
proof fn lemma_first_difference_decides(a: Seq<char>, b: Seq<char>, k: int)
    requires
        0 <= k < a.len(),
        k < b.len(),
        a.take(k) == b.take(k),
        a[k] < b[k],
    ensures
        text_le(a, b),
        !text_le(b, a),
    decreases k,
{
    if k > 0 {
        assert(a.take(k)[0] == a[0] && b.take(k)[0] == b[0]);
        assert(a.take(k)[0] == b.take(k)[0]);
        assert(a[0] == b[0]);
        assert(a.drop_first().take(k - 1) =~= a.take(k).drop_first());
        assert(b.drop_first().take(k - 1) =~= b.take(k).drop_first());
        lemma_first_difference_decides(a.drop_first(), b.drop_first(), k - 1);
    }
}

/// A proper prefix sorts strictly before the longer text.
proof fn lemma_prefix_first(a: Seq<char>, b: Seq<char>)
    requires
        a.len() < b.len(),
        b.take(a.len() as int) == a,
    ensures
        text_le(a, b),
        !text_le(b, a),
    decreases a.len(),
{
    if a.len() > 0 {
        assert(b.take(a.len() as int)[0] == b[0]);
        assert(b.drop_first().take(a.drop_first().len() as int) =~= a.drop_first());
        lemma_prefix_first(a.drop_first(), b.drop_first());
    }
}

/// The text order is binary collation, as SQLite's `ORDER BY` on text: a
/// text sorts strictly before another exactly when it is a proper prefix of
/// it or, where they first differ, its character is the smaller, whatever
/// their lengths.
pub proof fn lemma_text_order_is_binary_collation(a: Seq<char>, b: Seq<char>)
    ensures
        binary_before(a, b) <==> (text_le(a, b) && a != b),
        binary_before(a, b) ==> !text_le(b, a),
{
    if a.len() < b.len() && b.take(a.len() as int) == a {
        lemma_prefix_first(a, b);
    }
    if exists|k: int| 0 <= k < a.len() && k < b.len() && #[trigger] a.take(k) == b.take(k) && a[k] < b[k] {
        let k = choose|k: int| 0 <= k < a.len() && k < b.len() && #[trigger] a.take(k) == b.take(k) && a[k] < b[k];
        lemma_first_difference_decides(a, b, k);
    }
    if text_le(a, b) && a != b {
        lemma_le_is_binary(a, b);
    }
}

/// A text sorted strictly before another is a proper prefix of it or first
/// differs from it with a smaller character.
proof fn lemma_le_is_binary(a: Seq<char>, b: Seq<char>)
    requires
        text_le(a, b),
        a != b,
    ensures
        binary_before(a, b),
    decreases a.len(),
{
    if a.len() == 0 {
        assert(b.len() > 0) by {
            if b.len() == 0 {
                assert(a =~= b);
            }
        }
        assert(b.take(0) =~= a);
    } else if a[0] != b[0] {
        assert(a.take(0) =~= b.take(0));
    } else {
        let (a1, b1) = (a.drop_first(), b.drop_first());
        assert(a1 != b1) by {
            if a1 == b1 {
                assert(a =~= seq![a[0]] + a1);
                assert(b =~= seq![b[0]] + b1);
            }
        }
        lemma_le_is_binary(a1, b1);
        if a1.len() < b1.len() && b1.take(a1.len() as int) == a1 {
            assert(b.take(a.len() as int) =~= seq![a[0]] + a1);
            assert(a =~= seq![a[0]] + a1);
        } else {
            let k = choose|k: int|
                0 <= k < a1.len() && k < b1.len() && #[trigger] a1.take(k) == b1.take(k) && a1[k]
                    < b1[k];
            assert(a.take(k + 1) =~= seq![a[0]] + a1.take(k));
            assert(b.take(k + 1) =~= seq![b[0]] + b1.take(k));
            assert(a.take(k + 1) == b.take(k + 1));
            assert(a[k + 1] < b[k + 1]);
        }
    }
}

/// The sort key of an action: its deadline text, then its id.
pub open spec fn action_le(x: (Seq<char>, Seq<char>), y: (Seq<char>, Seq<char>)) -> bool {
    (text_le(x.0, y.0) && x.0 != y.0) || (x.0 == y.0 && text_le(x.1, y.1))
}

/// Any two action keys are ordered one way or the other.
pub proof fn lemma_action_le_total(x: (Seq<char>, Seq<char>), y: (Seq<char>, Seq<char>))
    ensures
        action_le(x, y) || action_le(y, x),
{
    lemma_text_le_total(x.0, y.0);
    lemma_text_le_total(x.1, y.1);
}

/// The action key order is transitive.
pub proof fn lemma_action_le_transitive(
    x: (Seq<char>, Seq<char>),
    y: (Seq<char>, Seq<char>),
    z: (Seq<char>, Seq<char>),
)
    requires
        action_le(x, y),
        action_le(y, z),
    ensures
        action_le(x, z),
{
    lemma_text_le_total(x.0, y.0);
    lemma_text_le_total(y.0, z.0);
    lemma_text_le_total(x.0, z.0);
    if x.0 != z.0 {
        lemma_text_le_transitive(x.0, y.0, z.0);
    } else {
        if x.0 == y.0 {
            lemma_text_le_transitive(x.1, y.1, z.1);
        } else {
            lemma_text_le_total(y.0, x.0);
        }
    }
}

/// Values listed in the order of a key of two texts: a time, then an id.
pub trait SortKey: Sized {
    /// The key by which the value is listed.
    spec fn sort_key(&self) -> (Seq<char>, Seq<char>);

    /// Whether `self` is listed before or with `other`.
    fn sorts_before_or_with(&self, other: &Self) -> (r: bool)
        ensures
            r == action_le(self.sort_key(), other.sort_key()),
    ;
}

/// Whether `s` is in key order.
pub open spec fn in_key_order<T: SortKey>(s: Seq<T>) -> bool {
    forall|i: int, j: int| 0 <= i < j < s.len() ==> action_le(s[i].sort_key(), s[j].sort_key())
}

/// Whether `a` sorts before or with `b`.
pub fn text_le_chars(a: &[char], b: &[char]) -> (r: bool)
    ensures
        r == text_le(a@, b@),
{
    let mut i: usize = 0;
    assert(a@.skip(0) =~= a@);
    assert(b@.skip(0) =~= b@);
    while i < a.len() && i < b.len() && a[i] == b[i]
        invariant
            i <= a@.len(),
            i <= b@.len(),
            text_le(a@, b@) == text_le(a@.skip(i as int), b@.skip(i as int)),
        decreases a@.len() - i,
    {
        assert(a@.skip(i as int).drop_first() =~= a@.skip(i + 1));
        assert(b@.skip(i as int).drop_first() =~= b@.skip(i + 1));
        i = i + 1;
    }
    if i == a.len() {
        true
    } else if i == b.len() {
        false
    } else {
        assert(a@.skip(i as int)[0] == a@[i as int]);
        assert(b@.skip(i as int)[0] == b@[i as int]);
        a[i] < b[i]
    }
}

/// Whether the key (`at`, `id`) sorts before or with (`at2`, `id2`).
fn key_le(at: &str, id: &str, at2: &str, id2: &str) -> (r: bool)
    ensures
        r == action_le((at@, id@), (at2@, id2@)),
{
    let xd = chars_of(at);
    let yd = chars_of(at2);
    if !crate::text::chars_eq(&xd, &yd) {
        text_le_chars(&xd, &yd)
    } else {
        text_le_chars(&chars_of(id), &chars_of(id2))
    }
}

impl SortKey for DemoAction {
    /// An action is listed by its deadline, then its id.
    open spec fn sort_key(&self) -> (Seq<char>, Seq<char>) {
        (self.due_at@, self.id@)
    }

    fn sorts_before_or_with(&self, other: &Self) -> (r: bool) {
        key_le(self.due_at.as_str(), self.id.as_str(), other.due_at.as_str(), other.id.as_str())
    }
}

impl SortKey for AuditEvent {
    /// An audit event is listed by when it occurred, then its id.
    open spec fn sort_key(&self) -> (Seq<char>, Seq<char>) {
        (self.occurred_at@, self.id@)
    }

    fn sorts_before_or_with(&self, other: &Self) -> (r: bool) {
        key_le(
            self.occurred_at.as_str(),
            self.id.as_str(),
            other.occurred_at.as_str(),
            other.id.as_str(),
        )
    }
}

/// Whether `s` is in deadline order, ties broken by id.
pub open spec fn in_deadline_order(s: Seq<DemoAction>) -> bool {
    in_key_order(s)
}

/// Open requests listed in deadline order never put a later deadline
/// first: for any two listed actions, the one listed second never has a
/// deadline text that sorts strictly before (in binary collation) the
/// deadline of the one listed first.
pub proof fn lemma_deadlines_listed_earliest_first(s: Seq<DemoAction>, i: int, j: int)
    requires
        in_deadline_order(s),
        0 <= i < j < s.len(),
    ensures
        !binary_before(s[j].due_at@, s[i].due_at@),
{
    assert(action_le(s[i].sort_key(), s[j].sort_key()));
    assert(s[i].sort_key() == (s[i].due_at@, s[i].id@));
    assert(s[j].sort_key() == (s[j].due_at@, s[j].id@));
    lemma_text_order_is_binary_collation(s[j].due_at@, s[i].due_at@);
}

/// The values in key order, earliest first, ties broken by id; nothing is
/// added or lost.
pub fn order_by_key<T: SortKey>(items: Vec<T>) -> (r: Vec<T>)
    ensures
        in_key_order(r@),
        r@.to_multiset() == items@.to_multiset(),
{
    broadcast use vstd::seq_lib::group_to_multiset_ensures;

    let ghost original = items@;
    let mut rest = items;
    let mut out: Vec<T> = Vec::new();
    while rest.len() > 0
        invariant
            in_key_order(out@),
            rest@.to_multiset().add(out@.to_multiset()) == original.to_multiset(),
        decreases rest@.len(),
    {
        let ghost before_rest = rest@;
        let x = rest.pop().unwrap();
        proof {
            assert(before_rest =~= rest@.push(x));
            vstd::seq_lib::to_multiset_build(rest@, x);
        }
        let mut p: usize = 0;
        while p < out.len() && !(x.sorts_before_or_with(&out[p]) && !out[p].sorts_before_or_with(
            &x,
        ))
            invariant
                p <= out@.len(),
                forall|k: int| 0 <= k < p ==> action_le(out@[k].sort_key(), x.sort_key()),
            decreases out@.len() - p,
        {
            proof {
                lemma_action_le_total(x.sort_key(), out@[p as int].sort_key());
            }
            p = p + 1;
        }
        let ghost old_out = out@;
        proof {
            vstd::seq_lib::to_multiset_insert(old_out, p as int, x);
            assert forall|j: int| p <= j < old_out.len() implies action_le(
                x.sort_key(),
                (#[trigger] old_out[j]).sort_key(),
            ) by {
                if j > p {
                    lemma_action_le_transitive(
                        x.sort_key(),
                        old_out[p as int].sort_key(),
                        old_out[j].sort_key(),
                    );
                }
            }
        }
        out.insert(p, x);
        proof {
            assert forall|i: int, j: int| 0 <= i < j < out@.len() implies action_le(
                out@[i].sort_key(),
                out@[j].sort_key(),
            ) by {
                if j < p {
                    assert(out@[i] == old_out[i] && out@[j] == old_out[j]);
                } else if j == p {
                    assert(out@[i] == old_out[i]);
                } else if i < p {
                    assert(out@[i] == old_out[i] && out@[j] == old_out[j - 1]);
                    lemma_action_le_transitive(
                        old_out[i].sort_key(),
                        x.sort_key(),
                        old_out[j - 1].sort_key(),
                    );
                } else if i == p {
                    assert(out@[j] == old_out[j - 1]);
                } else {
                    assert(out@[i] == old_out[i - 1] && out@[j] == old_out[j - 1]);
                }
            }
        }
    }
    proof {
        assert(rest@ =~= Seq::<T>::empty());
    }
    out
}

/// The actions in deadline order, earliest first, ties broken by id: the
/// order in which open requests are listed.
pub fn order_by_deadline(actions: Vec<DemoAction>) -> (r: Vec<DemoAction>)
    ensures
        in_deadline_order(r@),
        r@.to_multiset() == actions@.to_multiset(),
{
    order_by_key(actions)
}

/// The audit events in the order they occurred, ties broken by id.
pub fn order_by_time(events: Vec<AuditEvent>) -> (r: Vec<AuditEvent>)
    ensures
        in_key_order(r@),
        r@.to_multiset() == events@.to_multiset(),
{
    order_by_key(events)
}

} // verus!
