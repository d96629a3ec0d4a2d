//! Grouping the characteristics of a connected peripheral by service.
use vstd::prelude::*;
use std::collections::HashMap;
use crate::async_msg::{
    Characteristic, CharacteristicSet, CharacteristicView, characteristic_lt, strictly_sorted,
};

verus! {

broadcast use vstd::std_specs::hash::group_hash_axioms;

/// The service UUIDs of the characteristics.
pub open spec fn service_uuids(chars: Seq<CharacteristicView>) -> Set<u128> {
    chars.map_values(|c: CharacteristicView| c.service_uuid).to_set()
}

/// The characteristics of service `s`, in their order.
pub open spec fn chars_of_service(chars: Seq<CharacteristicView>, s: u128) -> Seq<CharacteristicView> {
    chars.filter(|c: CharacteristicView| c.service_uuid == s)
}

/// The values of a list of characteristics.
pub open spec fn group_view(v: Seq<Characteristic>) -> Seq<CharacteristicView> {
    v.map_values(|c: Characteristic| c@)
}

/// Strictly ascending list of UUIDs.
pub open spec fn ascending_uuids(s: Seq<u128>) -> bool {
    forall|i: int, j: int| 0 <= i < j < s.len() ==> s[i] < s[j]
}

/// What grouping gives for a set of characteristics: the service UUIDs in
/// ascending order, each once, and for each of them the characteristics of
/// that service in the order of the set.
pub open spec fn grouped(
    chars: Seq<CharacteristicView>,
    keys: Seq<u128>,
    groups: Map<u128, Seq<CharacteristicView>>,
) -> bool {
    &&& ascending_uuids(keys)
    &&& keys.to_set() == service_uuids(chars)
    &&& groups.dom() == keys.to_set()
    &&& forall|k: u128| #[trigger] groups.contains_key(k) ==> groups[k] == chars_of_service(chars, k)
    &&& forall|k: u128| #[trigger] groups.contains_key(k) ==> strictly_sorted(groups[k])
}

/// The values of a map from service UUIDs to lists of characteristics.
pub open spec fn groups_view(m: Map<u128, Vec<Characteristic>>) -> Map<u128, Seq<CharacteristicView>> {
    m.map_values(|v: Vec<Characteristic>| group_view(v@))
}

/// Grouping loses nothing and mixes nothing: each characteristic is listed
/// under its own service, and each one listed under a service belongs to it.
pub proof fn lemma_grouping_is_a_partition(
    chars: Seq<CharacteristicView>,
    keys: Seq<u128>,
    groups: Map<u128, Seq<CharacteristicView>>,
    i: int,
    k: u128,
    j: int,
)
    requires
        grouped(chars, keys, groups),
        0 <= i < chars.len(),
    ensures
        groups.contains_key(chars[i].service_uuid),
        groups[chars[i].service_uuid].contains(chars[i]),
        groups.contains_key(k) && 0 <= j < groups[k].len() ==> groups[k][j].service_uuid == k
            && chars.contains(groups[k][j]),
{
    broadcast use vstd::seq_lib::group_filter_ensures;

    let u = chars[i].service_uuid;
    let f = |c: CharacteristicView| c.service_uuid;
    assert(chars.map_values(f)[i] == u);
    assert(service_uuids(chars).contains(u));
    let p = |c: CharacteristicView| c.service_uuid == u;
    chars.lemma_filter_contains(p, i);
    if groups.contains_key(k) && 0 <= j < groups[k].len() {
        let q = |c: CharacteristicView| c.service_uuid == k;
        assert(groups[k] == chars.filter(q));
        assert(groups[k].contains(groups[k][j]));
        chars.lemma_filter_contains_rev(q, groups[k][j]);
    }
}

/// Keeping some characteristics of an ascending list keeps it ascending.
proof fn lemma_filter_keeps_order(s: Seq<CharacteristicView>, p: spec_fn(CharacteristicView) -> bool)
    requires
        strictly_sorted(s),
    ensures
        strictly_sorted(s.filter(p)),
    decreases s.len(),
{
    reveal(Seq::filter);
    if s.len() > 0 {
        let d = s.drop_last();
        assert(strictly_sorted(d));
        lemma_filter_keeps_order(d, p);
        let f = d.filter(p);
        if p(s.last()) {
            let g = f.push(s.last());
            assert(s.filter(p) == g);
            assert forall|a: int, b: int|
                #![trigger g[a], g[b]]
                0 <= a < b < g.len() implies characteristic_lt(g[a], g[b]) by {
                if b == f.len() {
                    assert(f.contains(f[a]));
                    d.lemma_filter_contains_rev(p, f[a]);
                    let k = choose|k: int| 0 <= k < d.len() && d[k] == f[a];
                    assert(s[k] == g[a]);
                    assert(s[s.len() - 1] == g[b]);
                } else {
                    assert(g[a] == f[a] && g[b] == f[b]);
                }
            }
        }
    }
}

/// Inserts `u` into an ascending list of UUIDs, unless it is there already.
fn insert_uuid(keys: &mut Vec<u128>, u: u128)
    requires
        ascending_uuids(old(keys)@),
    ensures
        ascending_uuids(final(keys)@),
        final(keys)@.to_set() == old(keys)@.to_set().insert(u),
{
    let ghost old_keys = keys@;
    let mut i: usize = 0;
    while i < keys.len() && keys[i] < u
        invariant
            i <= keys.len(),
            keys@ == old_keys,
            forall|j: int| 0 <= j < i ==> keys@[j] < u,
        decreases keys.len() - i,
    {
        i = i + 1;
    }
    if i < keys.len() && keys[i] == u {
        assert(old_keys.to_set().insert(u) =~= old_keys.to_set()) by {
            assert(old_keys[i as int] == u);
        }
        return;
    }
    keys.insert(i, u);
    proof {
        let nk = old_keys.insert(i as int, u);
        assert(keys@ == nk);
        assert forall|a: int, b: int| 0 <= a < b < nk.len() implies nk[a] < nk[b] by {
            if b < i {
            } else if b == i {
            } else if a < i {
                assert(old_keys[a] < u);
            } else if a == i {
                assert(old_keys[i as int] > u);
            } else {
            }
        }
        assert(nk.to_set() =~= old_keys.to_set().insert(u)) by {
            assert forall|x: u128| nk.to_set().contains(x) implies old_keys.to_set().insert(u).contains(x) by {
                let k = choose|k: int| 0 <= k < nk.len() && nk[k] == x;
                if k < i {
                    assert(old_keys[k] == x);
                } else if k > i {
                    assert(old_keys[k - 1] == x);
                }
            }
            assert forall|x: u128| old_keys.to_set().insert(u).contains(x) implies nk.to_set().contains(x) by {
                if x == u {
                    assert(nk[i as int] == x);
                } else {
                    let k = choose|k: int| 0 <= k < old_keys.len() && old_keys[k] == x;
                    if k < i {
                        assert(nk[k] == x);
                    } else {
                        assert(nk[k + 1] == x);
                    }
                }
            }
        }
    }
}

/// The characteristics of service `s`, copied, in the order of the set.
fn chars_in_service(chars: &CharacteristicSet, s: u128) -> (res: Vec<Characteristic>)
    ensures
        group_view(res@) == chars_of_service(chars@, s),
{
    let ghost pred = |c: CharacteristicView| c.service_uuid == s;
    let mut out: Vec<Characteristic> = Vec::new();
    let n = chars.len();
    let mut i: usize = 0;
    while i < n
        invariant
            n == chars@.len(),
            i <= n,
            pred == (|c: CharacteristicView| c.service_uuid == s),
            group_view(out@) =~= chars@.take(i as int).filter(pred),
        decreases n - i,
    {
        let c = chars.get(i);
        proof {
            assert(chars@.take(i + 1) =~= chars@.take(i as int).push(chars@[i as int]));
            chars@.take(i as int).lemma_filter_push(chars@[i as int], pred);
        }
        if c.service_uuid == s {
            let d = c.copy();
            out.push(d);
            proof {
                assert(pred(chars@[i as int]));
                assert(chars@.take(i + 1).filter(pred) == chars@.take(i as int).filter(pred).push(
                    chars@[i as int],
                ));
                assert(group_view(out@) =~= group_view(out@).drop_last().push(d@));
            }
        } else {
            proof {
                assert(!pred(chars@[i as int]));
                assert(chars@.take(i + 1).filter(pred) == chars@.take(i as int).filter(pred));
            }
        }
        i = i + 1;
    }
    assert(chars@.take(n as int) =~= chars@);
    out
}

/// Groups the characteristics by service: the service UUIDs in ascending
/// order, each once, and a map from each of them to the characteristics of
/// that service, in ascending order.
pub fn sort_svcs_chars(chars: &CharacteristicSet) -> (res: (Vec<u128>, HashMap<u128, Vec<Characteristic>>))
    ensures
        grouped(chars@, res.0@, groups_view(res.1@)),
{
    let n = chars.len();
    let mut keys: Vec<u128> = Vec::new();
    let mut i: usize = 0;
    while i < n
        invariant
            n == chars@.len(),
            i <= n,
            ascending_uuids(keys@),
            keys@.to_set() == service_uuids(chars@.take(i as int)),
        decreases n - i,
    {
        let u = chars.get(i).service_uuid;
        insert_uuid(&mut keys, u);
        proof {
            let f = |c: CharacteristicView| c.service_uuid;
            assert(chars@.take(i + 1) =~= chars@.take(i as int).push(chars@[i as int]));
            assert(chars@.take(i + 1).map_values(f) =~= chars@.take(i as int).map_values(f).push(u));
            chars@.take(i as int).map_values(f).lemma_push_to_set_commute(u);
        }
        i = i + 1;
    }
    assert(chars@.take(n as int) =~= chars@);
    let mut groups: HashMap<u128, Vec<Characteristic>> = HashMap::new();
    let mut j: usize = 0;
    while j < keys.len()
        invariant
            j <= keys.len(),
            ascending_uuids(keys@),
            keys@.to_set() == service_uuids(chars@),
            groups@.dom() == keys@.take(j as int).to_set(),
            forall|k: u128| #[trigger] groups@.contains_key(k) ==> group_view(groups@[k]@) == chars_of_service(chars@, k),
            forall|k: u128| #[trigger] groups@.contains_key(k) ==> strictly_sorted(group_view(groups@[k]@)),
            strictly_sorted(chars@),
        decreases keys.len() - j,
    {
        let k = keys[j];
        let g = chars_in_service(chars, k);
        proof {
            lemma_filter_keeps_order(chars@, |c: CharacteristicView| c.service_uuid == k);
        }
        groups.insert(k, g);
        proof {
            assert(keys@.take(j + 1) =~= keys@.take(j as int).push(k));
            keys@.take(j as int).lemma_push_to_set_commute(k);
        }
        j = j + 1;
    }
    assert(keys@.take(j as int) =~= keys@);
    assert(groups_view(groups@).dom() =~= keys@.to_set());
    (keys, groups)
}

} // verus!
