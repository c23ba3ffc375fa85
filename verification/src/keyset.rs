//! The set of stored keys: a list of records kept in ascending order of
//! their identifiers, each identifier at most once.

use vstd::prelude::*;
use vstd::utf8::*;
use crate::codec::models_of;
use crate::record::{KeyMetadata, KeyMetadataModel};
use crate::text::text_equal;

verus! {

/// Lexicographic order on byte strings: `a` comes strictly before `b`.
pub open spec fn lex_lt(a: Seq<u8>, b: Seq<u8>) -> bool
    decreases a.len(),
{
    if b.len() == 0 {
        false
    } else if a.len() == 0 {
        true
    } else if a[0] < b[0] {
        true
    } else if a[0] > b[0] {
        false
    } else {
        lex_lt(a.skip(1), b.skip(1))
    }
}

/// The order of identifiers: lexicographic on their UTF-8 bytes.
pub open spec fn id_lt(a: Seq<char>, b: Seq<char>) -> bool {
    lex_lt(encode_utf8(a), encode_utf8(b))
}

/// No byte string comes before itself.
pub proof fn lemma_lex_irreflexive(a: Seq<u8>)
    ensures
        !lex_lt(a, a),
    decreases a.len(),
{
    if a.len() > 0 {
        lemma_lex_irreflexive(a.skip(1));
    }
}

/// The order is transitive.
pub proof fn lemma_lex_transitive(a: Seq<u8>, b: Seq<u8>, c: Seq<u8>)
    requires
        lex_lt(a, b),
        lex_lt(b, c),
    ensures
        lex_lt(a, c),
    decreases a.len(),
{
    if a.len() > 0 && b.len() > 0 && c.len() > 0 {
        if a[0] == b[0] && b[0] == c[0] {
            lemma_lex_transitive(a.skip(1), b.skip(1), c.skip(1));
        }
    }
}

/// Of two different byte strings one comes before the other.
pub proof fn lemma_lex_total(a: Seq<u8>, b: Seq<u8>)
    ensures
        a == b || lex_lt(a, b) || lex_lt(b, a),
    decreases a.len(),
{
    if a.len() == 0 || b.len() == 0 {
        if a.len() == 0 && b.len() == 0 {
            assert(a =~= b);
        }
    } else if a[0] == b[0] {
        lemma_lex_total(a.skip(1), b.skip(1));
        if a.skip(1) == b.skip(1) {
            assert(a =~= seq![a[0]] + a.skip(1));
            assert(b =~= seq![b[0]] + b.skip(1));
        }
    }
}

/// Identifiers with the same UTF-8 bytes are the same identifier.
pub proof fn lemma_id_bytes_injective(a: Seq<char>, b: Seq<char>)
    requires
        encode_utf8(a) == encode_utf8(b),
    ensures
        a == b,
{
    encode_utf8_decode_utf8(a);
    encode_utf8_decode_utf8(b);
}

/// Of two different identifiers one comes before the other, and never both
/// nor an identifier before itself.
pub proof fn lemma_id_order(a: Seq<char>, b: Seq<char>)
    ensures
        a == b || id_lt(a, b) || id_lt(b, a),
        !id_lt(a, a),
        !(id_lt(a, b) && id_lt(b, a)),
{
    lemma_lex_total(encode_utf8(a), encode_utf8(b));
    if encode_utf8(a) == encode_utf8(b) {
        lemma_id_bytes_injective(a, b);
    }
    lemma_lex_irreflexive(encode_utf8(a));
    if id_lt(a, b) && id_lt(b, a) {
        lemma_lex_transitive(encode_utf8(a), encode_utf8(b), encode_utf8(a));
    }
}

/// Whether one byte string comes strictly before another.
pub fn bytes_less(a: &[u8], b: &[u8]) -> (less: bool)
    ensures
        less == lex_lt(a@, b@),
{
    let mut i: usize = 0;
    assert(a@.skip(0) =~= a@ && b@.skip(0) =~= b@);
    while i < a.len() && i < b.len()
        invariant
            i <= a.len(),
            i <= b.len(),
            lex_lt(a@, b@) == lex_lt(a@.skip(i as int), b@.skip(i as int)),
        decreases a.len() - i,
    {
        assert(a@.skip(i as int)[0] == a@[i as int]);
        assert(b@.skip(i as int)[0] == b@[i as int]);
        if a[i] < b[i] {
            return true;
        }
        if a[i] > b[i] {
            return false;
        }
        assert(a@.skip(i as int).skip(1) =~= a@.skip(i + 1));
        assert(b@.skip(i as int).skip(1) =~= b@.skip(i + 1));
        i = i + 1;
    }
    i < b.len()
}

/// Whether one identifier comes strictly before another.
pub fn id_less(a: &str, b: &str) -> (less: bool)
    ensures
        less == id_lt(a@, b@),
{
    bytes_less(a.as_bytes(), b.as_bytes())
}

/// The identifiers ascend strictly; so none occurs twice.
pub open spec fn ids_sorted(keys: Seq<KeyMetadataModel>) -> bool {
    forall|i: int, j: int|
        0 <= i < j < keys.len() ==> id_lt((#[trigger] keys[i]).id, (#[trigger] keys[j]).id)
}

/// Some record carries the identifier.
pub open spec fn has_id(keys: Seq<KeyMetadataModel>, id: Seq<char>) -> bool {
    exists|i: int| 0 <= i < keys.len() && (#[trigger] keys[i]).id == id
}

/// The record stored under an identifier, when there is one.
pub open spec fn lookup(keys: Seq<KeyMetadataModel>, id: Seq<char>) -> Option<KeyMetadataModel> {
    if has_id(keys, id) {
        Some(keys[choose|i: int| 0 <= i < keys.len() && (#[trigger] keys[i]).id == id])
    } else {
        None
    }
}

/// In a sorted list the record at an index is the one stored under its
/// identifier.
pub proof fn lemma_lookup_at(keys: Seq<KeyMetadataModel>, i: int)
    requires
        ids_sorted(keys),
        0 <= i < keys.len(),
    ensures
        lookup(keys, keys[i].id) == Some(keys[i]),
{
    let id = keys[i].id;
    assert(has_id(keys, id));
    let j = choose|j: int| 0 <= j < keys.len() && (#[trigger] keys[j]).id == id;
    lemma_id_order(keys[i].id, keys[j].id);
    if j < i {
        assert(id_lt(keys[j].id, keys[i].id));
    } else if i < j {
        assert(id_lt(keys[i].id, keys[j].id));
    }
}

/// Two sorted lists that store the same record under every identifier are
/// the same list: what is stored under each identifier determines the list.
pub proof fn law_lookups_determine_list(a: Seq<KeyMetadataModel>, b: Seq<KeyMetadataModel>)
    requires
        ids_sorted(a),
        ids_sorted(b),
        forall|id: Seq<char>| lookup(a, id) == lookup(b, id),
    ensures
        a == b,
    decreases a.len(),
{
    if a.len() == 0 {
        if b.len() > 0 {
            lemma_lookup_at(b, 0);
            assert(lookup(a, b[0].id) == lookup(b, b[0].id));
        }
        assert(a =~= b);
    } else if b.len() == 0 {
        lemma_lookup_at(a, 0);
        assert(lookup(a, a[0].id) == lookup(b, a[0].id));
    } else {
        // The first records agree: each is the least of its list.
        lemma_lookup_at(a, 0);
        lemma_lookup_at(b, 0);
        assert(lookup(b, a[0].id) == Some(a[0]));
        assert(lookup(a, b[0].id) == Some(b[0]));
        let ja = choose|j: int| 0 <= j < b.len() && (#[trigger] b[j]).id == a[0].id;
        let jb = choose|j: int| 0 <= j < a.len() && (#[trigger] a[j]).id == b[0].id;
        lemma_id_order(a[0].id, b[0].id);
        if ja > 0 {
            assert(id_lt(b[0].id, b[ja].id));
        }
        if jb > 0 {
            assert(id_lt(a[0].id, a[jb].id));
        }
        assert(a[0].id == b[0].id);
        assert(a[0] == b[0]);
        let ta = a.skip(1);
        let tb = b.skip(1);
        assert(ids_sorted(ta)) by {
            assert forall|i: int, j: int| 0 <= i < j < ta.len() implies id_lt(
                (#[trigger] ta[i]).id,
                (#[trigger] ta[j]).id,
            ) by {
                assert(ta[i] == a[i + 1] && ta[j] == a[j + 1]);
            }
        }
        assert(ids_sorted(tb)) by {
            assert forall|i: int, j: int| 0 <= i < j < tb.len() implies id_lt(
                (#[trigger] tb[i]).id,
                (#[trigger] tb[j]).id,
            ) by {
                assert(tb[i] == b[i + 1] && tb[j] == b[j + 1]);
            }
        }
        assert forall|id: Seq<char>| lookup(ta, id) == lookup(tb, id) by {
            lemma_lookup_tail(a, id);
            lemma_lookup_tail(b, id);
        }
        law_lookups_determine_list(ta, tb);
        assert(a =~= seq![a[0]] + ta);
        assert(b =~= seq![b[0]] + tb);
    }
}

/// Below the first record of a sorted list, lookups are those of the whole
/// list but for the first identifier.
pub proof fn lemma_lookup_tail(keys: Seq<KeyMetadataModel>, id: Seq<char>)
    requires
        ids_sorted(keys),
        keys.len() > 0,
    ensures
        lookup(keys.skip(1), id) == if id == keys[0].id {
            None
        } else {
            lookup(keys, id)
        },
{
    let tail = keys.skip(1);
    assert(ids_sorted(tail)) by {
        assert forall|i: int, j: int| 0 <= i < j < tail.len() implies id_lt(
            (#[trigger] tail[i]).id,
            (#[trigger] tail[j]).id,
        ) by {
            assert(tail[i] == keys[i + 1] && tail[j] == keys[j + 1]);
        }
    }
    if has_id(tail, id) {
        let j = choose|j: int| 0 <= j < tail.len() && (#[trigger] tail[j]).id == id;
        assert(tail[j] == keys[j + 1]);
        lemma_lookup_at(tail, j);
        lemma_lookup_at(keys, j + 1);
        lemma_id_order(keys[0].id, keys[j + 1].id);
        assert(id_lt(keys[0].id, keys[j + 1].id));
    } else {
        if id != keys[0].id && has_id(keys, id) {
            let j = choose|j: int| 0 <= j < keys.len() && (#[trigger] keys[j]).id == id;
            assert(j > 0);
            assert(tail[j - 1] == keys[j]);
            assert(false);
        }
    }
}

/// The index of the record with an identifier, when there is one.
pub fn find(keys: &Vec<KeyMetadata>, id: &str) -> (index: Option<usize>)
    ensures
        match index {
            Some(i) => i < keys@.len() && keys@[i as int]@.id == id@,
            None => !has_id(models_of(keys@), id@),
        },
{
    let mut i: usize = 0;
    while i < keys.len()
        invariant
            i <= keys.len(),
            forall|j: int| 0 <= j < i ==> (#[trigger] models_of(keys@)[j]).id != id@,
        decreases keys.len() - i,
    {
        if text_equal(keys[i].id.as_str(), id) {
            return Some(i);
        }
        assert(models_of(keys@)[i as int].id != id@);
        i = i + 1;
    }
    None
}

/// Stores a record under its identifier, in place of the record that was
/// stored there, if any. Every other record stays as it was.
pub fn put(keys: &mut Vec<KeyMetadata>, key: KeyMetadata)
    requires
        ids_sorted(models_of(old(keys)@)),
    ensures
        ids_sorted(models_of(final(keys)@)),
        lookup(models_of(final(keys)@), key@.id) == Some(key@),
        forall|id: Seq<char>|
            id != key@.id ==> lookup(models_of(final(keys)@), id) == lookup(
                models_of(old(keys)@),
                id,
            ),
{
    let ghost before = models_of(keys@);
    let ghost new_key = key@;
    let mut position: usize = 0;
    while position < keys.len() && id_less(keys[position].id.as_str(), key.id.as_str())
        invariant
            position <= keys.len(),
            keys@ == old(keys)@,
            before == models_of(keys@),
            new_key == key@,
            forall|j: int| 0 <= j < position ==> id_lt((#[trigger] before[j]).id, new_key.id),
        decreases keys.len() - position,
    {
        assert(before[position as int].id == keys@[position as int]@.id);
        position = position + 1;
    }
    let replace = position < keys.len() && text_equal(
        keys[position].id.as_str(),
        key.id.as_str(),
    );
    if replace {
        let _old = keys.remove(position);
    }
    keys.insert(position, key);
    proof {
        let after = models_of(keys@);
        let p = position as int;
        let shift: int = if replace {
            0
        } else {
            1
        };
        assert(after.len() == before.len() + shift);
        assert(after[p] == new_key);
        assert forall|j: int| 0 <= j < p implies #[trigger] after[j] == before[j] by {}
        assert forall|j: int| p < j < after.len() implies #[trigger] after[j] == before[j - shift]
            && id_lt(new_key.id, after[j].id) by {
            assert(after[j] == before[j - shift]);
            if replace {
                assert(before[p].id == new_key.id);
                assert(id_lt(before[p].id, before[j].id));
            } else {
                lemma_id_order(before[p].id, new_key.id);
                assert(!id_lt(before[p].id, new_key.id));
                assert(before[p].id != new_key.id);
                if j - 1 > p {
                    assert(id_lt(before[p].id, before[j - 1].id));
                    lemma_lex_transitive(
                        encode_utf8(new_key.id),
                        encode_utf8(before[p].id),
                        encode_utf8(before[j - 1].id),
                    );
                }
            }
        }
        assert(ids_sorted(after)) by {
            assert forall|i: int, j: int| 0 <= i < j < after.len() implies id_lt(
                (#[trigger] after[i]).id,
                (#[trigger] after[j]).id,
            ) by {
                if j < p {
                    assert(id_lt(before[i].id, before[j].id));
                } else if j == p {
                    assert(id_lt(before[i].id, new_key.id));
                } else if i < p {
                    assert(id_lt(before[i].id, before[j - shift].id));
                } else if i == p {
                } else {
                    assert(id_lt(before[i - shift].id, before[j - shift].id));
                }
            }
        }
        lemma_lookup_at(after, p);
        assert forall|id: Seq<char>| id != new_key.id implies lookup(after, id) == lookup(
            before,
            id,
        ) by {
            if has_id(before, id) {
                let j = choose|j: int| 0 <= j < before.len() && (#[trigger] before[j]).id == id;
                lemma_lookup_at(before, j);
                let k = if j < p {
                    j
                } else {
                    j + shift
                };
                if replace {
                    assert(j != p);
                }
                assert(after[k] == before[j]);
                lemma_lookup_at(after, k);
            } else if has_id(after, id) {
                let k = choose|k: int| 0 <= k < after.len() && (#[trigger] after[k]).id == id;
                assert(k != p);
                let j = if k < p {
                    k
                } else {
                    k - shift
                };
                assert(before[j] == after[k]);
                assert(false);
            }
        }
    }
}

/// Removes the record stored under an identifier, if there is one. Every
/// other record stays as it was.
pub fn remove(keys: &mut Vec<KeyMetadata>, id: &str)
    requires
        ids_sorted(models_of(old(keys)@)),
    ensures
        ids_sorted(models_of(final(keys)@)),
        lookup(models_of(final(keys)@), id@) is None,
        forall|other: Seq<char>|
            other != id@ ==> lookup(models_of(final(keys)@), other) == lookup(
                models_of(old(keys)@),
                other,
            ),
{
    let ghost before = models_of(keys@);
    match find(keys, id) {
        None => {},
        Some(position) => {
            let _old = keys.remove(position);
            proof {
                let after = models_of(keys@);
                let p = position as int;
                assert forall|j: int| 0 <= j < after.len() implies #[trigger] after[j] == before[if j
                    < p {
                    j
                } else {
                    j + 1
                }] by {}
                assert(ids_sorted(after)) by {
                    assert forall|i: int, j: int| 0 <= i < j < after.len() implies id_lt(
                        (#[trigger] after[i]).id,
                        (#[trigger] after[j]).id,
                    ) by {
                        let bi = if i < p {
                            i
                        } else {
                            i + 1
                        };
                        let bj = if j < p {
                            j
                        } else {
                            j + 1
                        };
                        assert(id_lt(before[bi].id, before[bj].id));
                    }
                }
                if has_id(after, id@) {
                    let k = choose|k: int| 0 <= k < after.len() && (#[trigger] after[k]).id == id@;
                    let bk = if k < p {
                        k
                    } else {
                        k + 1
                    };
                    assert(after[k] == before[bk]);
                    lemma_id_order(before[bk].id, before[p].id);
                    if bk < p {
                        assert(id_lt(before[bk].id, before[p].id));
                    } else {
                        assert(id_lt(before[p].id, before[bk].id));
                    }
                    assert(false);
                }
                assert forall|other: Seq<char>| other != id@ implies lookup(after, other)
                    == lookup(before, other) by {
                    if has_id(before, other) {
                        let j = choose|j: int|
                            0 <= j < before.len() && (#[trigger] before[j]).id == other;
                        lemma_lookup_at(before, j);
                        assert(j != p);
                        let k = if j < p {
                            j
                        } else {
                            j - 1
                        };
                        assert(after[k] == before[j]);
                        lemma_lookup_at(after, k);
                    } else if has_id(after, other) {
                        let k = choose|k: int|
                            0 <= k < after.len() && (#[trigger] after[k]).id == other;
                        let bk = if k < p {
                            k
                        } else {
                            k + 1
                        };
                        assert(before[bk] == after[k]);
                        assert(false);
                    }
                }
            }
        },
    }
}

} // verus!
