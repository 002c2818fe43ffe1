//! Collections of strings kept in the order of strings, without repetition.

use vstd::prelude::*;

use crate::text::{
    comes_before, same_text, text_less, text_less_irreflexive, text_less_total,
    text_less_transitive,
};

verus! {

/// The keys stand in strictly ascending order.
pub open spec fn ascending(keys: Seq<Seq<char>>) -> bool {
    forall|i: int, j: int| 0 <= i < j < keys.len() ==> text_less(#[trigger] keys[i], #[trigger] keys[j])
}

/// The place of a key among ascending keys: how many of them come before it.
pub open spec fn place(keys: Seq<Seq<char>>, key: Seq<char>) -> int
    decreases keys.len(),
{
    if keys.len() > 0 && text_less(keys[0], key) {
        1 + place(keys.drop_first(), key)
    } else {
        0
    }
}

/// Ascending keys with one more among them.
pub open spec fn with_key(keys: Seq<Seq<char>>, key: Seq<char>) -> Seq<Seq<char>> {
    let at = place(keys, key);
    if at < keys.len() && keys[at] == key {
        keys
    } else {
        keys.insert(at, key)
    }
}

/// The place separates the keys that come before the given one from the others.
pub proof fn lemma_place(keys: Seq<Seq<char>>, key: Seq<char>)
    requires
        ascending(keys),
    ensures
        0 <= place(keys, key) <= keys.len(),
        forall|i: int| 0 <= i < place(keys, key) ==> text_less(#[trigger] keys[i], key),
        forall|i: int| place(keys, key) <= i < keys.len() ==> !text_less(#[trigger] keys[i], key),
    decreases keys.len(),
{
    if keys.len() > 0 && text_less(keys[0], key) {
        let rest = keys.drop_first();
        assert(ascending(rest)) by {
            assert forall|i: int, j: int| 0 <= i < j < rest.len() implies text_less(
                #[trigger] rest[i],
                #[trigger] rest[j],
            ) by {
                assert(rest[i] == keys[i + 1] && rest[j] == keys[j + 1]);
            }
        }
        lemma_place(rest, key);
        assert forall|i: int| 0 <= i < place(keys, key) implies text_less(
            #[trigger] keys[i],
            key,
        ) by {
            if i > 0 {
                assert(rest[i - 1] == keys[i]);
            }
        }
        assert forall|i: int| place(keys, key) <= i < keys.len() implies !text_less(
            #[trigger] keys[i],
            key,
        ) by {
            assert(rest[i - 1] == keys[i]);
        }
    } else if keys.len() > 0 {
        assert forall|i: int| 0 <= i < keys.len() implies !text_less(#[trigger] keys[i], key) by {
            if text_less(keys[i], key) && i > 0 {
                text_less_transitive(keys[0], keys[i], key);
            }
        }
    }
}

/// A number of keys that separates those before the given key from the others is its place.
proof fn lemma_place_is(keys: Seq<Seq<char>>, key: Seq<char>, at: int)
    requires
        ascending(keys),
        0 <= at <= keys.len(),
        forall|i: int| 0 <= i < at ==> text_less(#[trigger] keys[i], key),
        at < keys.len() ==> !text_less(keys[at], key),
    ensures
        place(keys, key) == at,
{
    lemma_place(keys, key);
    let p = place(keys, key);
    if p < at {
        assert(!text_less(keys[p], key));
    } else if at < p {
        assert(text_less(keys[at], key));
    }
}

/// Adding a key keeps the keys ascending, and adds that key and no other.
pub proof fn lemma_with_key(keys: Seq<Seq<char>>, key: Seq<char>)
    requires
        ascending(keys),
    ensures
        ascending(with_key(keys, key)),
        forall|k: Seq<char>| #[trigger]
            with_key(keys, key).contains(k) <==> keys.contains(k) || k == key,
{
    lemma_place(keys, key);
    let at = place(keys, key);
    let new = with_key(keys, key);
    if at < keys.len() && keys[at] == key {
        assert(keys.contains(key));
    } else {
        assert forall|i: int| at <= i < keys.len() implies text_less(key, #[trigger] keys[i]) by {
            text_less_total(keys[i], key);
            if keys[i] == key && i > at {
                assert(text_less(keys[at], keys[i]));
            }
        }
        assert forall|i: int, j: int| 0 <= i < j < new.len() implies text_less(
            #[trigger] new[i],
            #[trigger] new[j],
        ) by {
            let oi = if i < at {
                i
            } else {
                i - 1
            };
            let oj = if j < at {
                j
            } else {
                j - 1
            };
            if i == at {
                assert(new[j] == keys[oj]);
            } else if j == at {
                assert(new[i] == keys[oi]);
            } else {
                assert(new[i] == keys[oi] && new[j] == keys[oj]);
            }
        }
        assert forall|k: Seq<char>| #[trigger] new.contains(k) <==> keys.contains(k) || k == key by {
            if keys.contains(k) {
                let i = choose|i: int| 0 <= i < keys.len() && keys[i] == k;
                assert(new[if i < at {
                    i
                } else {
                    i + 1
                }] == k);
            }
            if k == key {
                assert(new[at] == key);
            }
            if new.contains(k) && k != key {
                let i = choose|i: int| 0 <= i < new.len() && new[i] == k;
                assert(keys[if i < at {
                    i
                } else {
                    i - 1
                }] == k);
            }
        }
    }
}

/// Two ascending lists with the same keys are the same list.
pub proof fn ascending_is_determined_by_its_keys(a: Seq<Seq<char>>, b: Seq<Seq<char>>)
    requires
        ascending(a),
        ascending(b),
        forall|k: Seq<char>| #[trigger] a.contains(k) <==> b.contains(k),
    ensures
        a == b,
    decreases a.len(),
{
    if a.len() == 0 {
        if b.len() > 0 {
            assert(b.contains(b[0]));
            assert(a.contains(b[0]));
        }
        assert(a =~= b);
    } else {
        assert(a.contains(a[0]));
        assert(b.contains(a[0]));
        assert(b.contains(b[0]));
        assert(a.contains(b[0]));
        let i = choose|i: int| 0 <= i < b.len() && b[i] == a[0];
        let j = choose|j: int| 0 <= j < a.len() && a[j] == b[0];
        if i > 0 && j > 0 {
            assert(text_less(b[0], b[i]));
            assert(text_less(a[0], a[j]));
            text_less_transitive(a[0], b[0], a[0]);
            text_less_irreflexive(a[0]);
        }
        assert(a[0] == b[0]);
        let ra = a.drop_first();
        let rb = b.drop_first();
        lemma_tail_ascending(a);
        lemma_tail_ascending(b);
        assert forall|k: Seq<char>| #[trigger] ra.contains(k) <==> rb.contains(k) by {
            lemma_tail_keys(a, k);
            lemma_tail_keys(b, k);
            assert(a.contains(k) <==> b.contains(k));
        }
        ascending_is_determined_by_its_keys(ra, rb);
        assert(a =~= seq![a[0]] + ra);
        assert(b =~= seq![b[0]] + rb);
    }
}

proof fn lemma_tail_ascending(a: Seq<Seq<char>>)
    requires
        ascending(a),
        a.len() > 0,
    ensures
        ascending(a.drop_first()),
{
    let rest = a.drop_first();
    assert forall|i: int, j: int| 0 <= i < j < rest.len() implies text_less(
        #[trigger] rest[i],
        #[trigger] rest[j],
    ) by {
        assert(rest[i] == a[i + 1] && rest[j] == a[j + 1]);
    }
}

proof fn lemma_tail_keys(a: Seq<Seq<char>>, k: Seq<char>)
    requires
        ascending(a),
        a.len() > 0,
    ensures
        a.drop_first().contains(k) <==> a.contains(k) && k != a[0],
{
    let rest = a.drop_first();
    if rest.contains(k) {
        let i = choose|i: int| 0 <= i < rest.len() && rest[i] == k;
        assert(a[i + 1] == k);
        assert(text_less(a[0], a[i + 1]));
        text_less_irreflexive(k);
    }
    if a.contains(k) && k != a[0] {
        let i = choose|i: int| 0 <= i < a.len() && a[i] == k;
        assert(rest[i - 1] == k);
    }
}

/// The texts of a list of strings.
pub open spec fn texts(items: Seq<String>) -> Seq<Seq<char>> {
    items.map_values(|s: String| s@)
}

/// Adds a string to an ascending list of strings, unless it is there.
pub fn add_key(keys: &mut Vec<String>, key: &str)
    requires
        ascending(texts(old(keys)@)),
    ensures
        texts(final(keys)@) == with_key(texts(old(keys)@), key@),
        ascending(texts(final(keys)@)),
{
    let ghost before = texts(keys@);
    let mut at: usize = 0;
    while at < keys.len() && comes_before(keys[at].as_str(), key)
        invariant
            texts(keys@) == before,
            at <= keys@.len(),
            forall|i: int| 0 <= i < at ==> text_less(#[trigger] before[i], key@),
        decreases keys.len() - at,
    {
        assert(before[at as int] == keys@[at as int]@);
        at += 1;
    }
    proof {
        if at < keys@.len() {
            assert(before[at as int] == keys@[at as int]@);
        }
        lemma_place_is(before, key@, at as int);
        lemma_with_key(before, key@);
    }
    if at < keys.len() && same_text(keys[at].as_str(), key) {
        return;
    }
    keys.insert(at, key.to_owned());
    assert(texts(keys@) =~= before.insert(at as int, key@));
}

} // verus!
