//! Hotkey replacement: moving every record of a hotkey over to a new one.

use vstd::prelude::*;
use std::collections::BTreeMap;
use std::collections::BTreeSet;
use crate::types::{NetworkError, SubnetNode};
use crate::network::{Network, get_or, map_get, map_set, map_remove};
use crate::registry::{flat, nested_insert, KeysMeta, NodesMeta, OverwatchMeta};
use crate::nodes::{swap_keys, map_swap, hotkeys_of};

verus! {

/// Whether `m` holds a nonzero stake of hotkey `a` in subnet `s`.
pub open spec fn has_stake(m: Map<(u64, u32), u128>, a: u64, s: u32) -> bool {
    m.contains_key((a, s)) && m[(a, s)] != 0
}

/// The stakes `m` after every nonzero stake of hotkey `a` moved to hotkey `b`,
/// subnet by subnet (a zero stake of `a` stays where it is).
pub open spec fn moved_stakes(m: Map<(u64, u32), u128>, a: u64, b: u64) -> Map<(u64, u32), u128> {
    Map::new(
        |k: (u64, u32)| (m.contains_key(k) && !(k.0 == a && m[k] != 0)) || (k.0 == b && has_stake(m, a, k.1)),
        |k: (u64, u32)| if k.0 == b && has_stake(m, a, k.1) { m[(a, k.1)] } else { m[k] },
    )
}

/// The entry of `m` that the entry `q` of `moved_stakes(m, a, b)` comes from.
pub open spec fn stake_source(m: Map<(u64, u32), u128>, a: u64, b: u64, q: (u64, u32)) -> (u64, u32) {
    if q.0 == b && has_stake(m, a, q.1) { (a, q.1) } else { q }
}

/// Move every nonzero stake of hotkey `a` to hotkey `b`.
pub fn move_hotkey_stakes(m: &mut BTreeMap<(u64, u32), u128>, a: u64, b: u64)
    requires
        a != b,
    ensures
        final(m)@ == moved_stakes(old(m)@, a, b),
{
    let mut out: BTreeMap<(u64, u32), u128> = BTreeMap::new();
    let ghost m0 = m@;
    let ghost target = moved_stakes(m0, a, b);
    for (k, v) in it: m.iter()
        invariant
            m0 == m@,
            a != b,
            target == moved_stakes(m0, a, b),
            forall|q: (u64, u32)| #[trigger] out@.contains_key(q) ==> target.contains_key(q) && out@[q] == target[q],
            forall|q: (u64, u32)| #[trigger] target.contains_key(q) && !out@.contains_key(q) ==>
                exists|j: int| it.index() <= j < it.seq().len() && *it.seq()[j].0 == stake_source(m0, a, b, q),
    {
        let ghost idx = it.index();
        proof {
            assert(*it.seq()[idx].0 == *k);
            assert(*it.seq()[idx].1 == *v);
            assert(m0.contains_key(*k) && m0[*k] == *v);
        }
        let key: (u64, u32) = *k;
        let val: u128 = *v;
        let a_staked: bool = match m.get(&(a, key.1)) {
            Some(x) => *x != 0,
            None => false,
        };
        if key.0 == a && val != 0 {
            out.insert((b, key.1), val);
        } else if key.0 == b && a_staked {
        } else {
            out.insert(key, val);
        }
        proof {
            assert forall|q: (u64, u32)| #[trigger] target.contains_key(q) && !out@.contains_key(q) implies
                exists|j: int| idx + 1 <= j < it.seq().len() && *it.seq()[j].0 == stake_source(m0, a, b, q) by {
                let j = choose|j: int| idx <= j < it.seq().len() && *it.seq()[j].0 == stake_source(m0, a, b, q);
                assert(j != idx);
            }
        }
    }
    proof {
        assert forall|q: (u64, u32)| target.contains_key(q) implies #[trigger] out@.contains_key(q) by {
            if !out@.contains_key(q) {
                assert(m0.contains_key(stake_source(m0, a, b, q)));
            }
        }
        assert(out@ =~= target);
    }
    *m = out;
}

/// `n` acting with hotkey `hotkey`.
pub open spec fn with_hotkey(n: SubnetNode, hotkey: u64) -> SubnetNode {
    SubnetNode { hotkey: hotkey, ..n }
}

/// Node records `m` after node (`s`, `id`), if there is one, took hotkey `hotkey`.
pub open spec fn rekeyed_node(m: Map<(u32, u32), SubnetNode>, s: u32, id: u32, hotkey: u64) -> Map<(u32, u32), SubnetNode> {
    if m.contains_key((s, id)) { m.insert((s, id), with_hotkey(m[(s, id)], hotkey)) } else { m }
}

/// Give node (`s`, `id`) of `m`, if there is one, the hotkey `hotkey`.
pub fn set_node_hotkey(m: &mut BTreeMap<u32, BTreeMap<u32, SubnetNode>>, s: u32, id: u32, hotkey: u64)
    ensures
        flat(final(m)@) == rekeyed_node(flat(old(m)@), s, id, hotkey),
{
    if m.contains_key(&s) {
        let mut inner = match m.remove(&s) {
            Some(i) => i,
            None => BTreeMap::new(),
        };
        match inner.remove(&id) {
            Some(node) => {
                let mut node = node;
                node.hotkey = hotkey;
                inner.insert(id, node);
            },
            None => {},
        }
        m.insert(s, inner);
    }
    proof {
        assert(flat(m@) =~= rekeyed_node(flat(old(m)@), s, id, hotkey));
    }
}

/// Exchange the entries under (`s`, `a`) and (`s`, `b`).
pub fn nested_swap(m: &mut BTreeMap<u32, BTreeMap<u64, u32>>, s: u32, a: u64, b: u64)
    ensures
        flat(final(m)@) == swap_keys(flat(old(m)@), (s, a), (s, b)),
{
    if m.contains_key(&s) {
        let mut inner = match m.remove(&s) {
            Some(i) => i,
            None => BTreeMap::new(),
        };
        map_swap(&mut inner, a, b);
        m.insert(s, inner);
    }
    proof {
        assert(flat(m@) =~= swap_keys(flat(old(m)@), (s, a), (s, b)));
    }
}

impl Network {
    /// Why `coldkey` may not replace its hotkey `old_hotkey` by `new_hotkey`, if so.
    pub open spec fn update_hotkey_error(&self, coldkey: u64, old_hotkey: u64, new_hotkey: u64) -> Option<NetworkError> {
        let hotkeys = hotkeys_of(self.keys.coldkey_hotkeys@, coldkey);
        if self.tx_pause {
            Some(NetworkError::Paused)
        } else if coldkey == new_hotkey {
            Some(NetworkError::ColdkeyMatchesHotkey)
        } else if get_or(self.keys.hotkey_owner@, old_hotkey, 0u64) != coldkey {
            Some(NetworkError::NotKeyOwner)
        } else if self.keys.hotkey_owner@.contains_key(new_hotkey) {
            Some(NetworkError::HotkeyHasOwner)
        } else if hotkeys.contains(new_hotkey) {
            Some(NetworkError::HotkeyAlreadyRegisteredToColdkey)
        } else if !hotkeys.contains(old_hotkey) {
            Some(NetworkError::OldHotkeyNotRegistered)
        } else {
            None
        }
    }

    /// Whether the key records of `n` are those of `self` after `old_hotkey`
    /// of `coldkey` was replaced by `new_hotkey`.
    pub open spec fn keys_moved(&self, n: Network, coldkey: u64, old_hotkey: u64, new_hotkey: u64) -> bool {
        let o = *self;
        &&& n.keys.hotkey_owner@ == swap_keys(o.keys.hotkey_owner@, old_hotkey, new_hotkey)
        &&& n.keys.coldkey_hotkeys@.contains_key(coldkey)
        &&& n.keys.coldkey_hotkeys@.remove(coldkey) == o.keys.coldkey_hotkeys@.remove(coldkey)
        &&& hotkeys_of(n.keys.coldkey_hotkeys@, coldkey)
            == hotkeys_of(o.keys.coldkey_hotkeys@, coldkey).remove(old_hotkey).insert(new_hotkey)
        &&& n.keys.account_subnet_stake@ == moved_stakes(o.keys.account_subnet_stake@, old_hotkey, new_hotkey)
        &&& n.keys == (KeysMeta {
            hotkey_owner: n.keys.hotkey_owner,
            coldkey_hotkeys: n.keys.coldkey_hotkeys,
            hotkey_subnet_id: n.keys.hotkey_subnet_id,
            account_subnet_stake: n.keys.account_subnet_stake,
            ..o.keys
        })
    }

    /// Whether the overwatch records of `n` are those of `self` after
    /// `old_hotkey` was replaced by `new_hotkey`: its overwatch node and its
    /// overwatch stake follow the new hotkey.
    pub open spec fn overwatch_moved(&self, n: Network, old_hotkey: u64, new_hotkey: u64) -> bool {
        let o = self.ow;
        let m = n.ow;
        &&& if o.hotkey_overwatch_node_id@.contains_key(old_hotkey) {
            let id = o.hotkey_overwatch_node_id@[old_hotkey];
            &&& m.overwatch_node_id_hotkey@ == o.overwatch_node_id_hotkey@.insert(id, new_hotkey)
            &&& m.hotkey_overwatch_node_id@ == o.hotkey_overwatch_node_id@.remove(old_hotkey).insert(new_hotkey, id)
            &&& m.overwatch_nodes@ == if o.overwatch_nodes@.contains_key(id) {
                o.overwatch_nodes@.insert(id, new_hotkey)
            } else {
                o.overwatch_nodes@
            }
        } else {
            &&& m.overwatch_node_id_hotkey@ == o.overwatch_node_id_hotkey@
            &&& m.hotkey_overwatch_node_id@ == o.hotkey_overwatch_node_id@
            &&& m.overwatch_nodes@ == o.overwatch_nodes@
        }
        &&& m.account_overwatch_stake@ == if get_or(o.account_overwatch_stake@, old_hotkey, 0u128) != 0 {
            o.account_overwatch_stake@.remove(old_hotkey).insert(new_hotkey, o.account_overwatch_stake@[old_hotkey])
        } else {
            o.account_overwatch_stake@
        }
        &&& m == (OverwatchMeta {
            overwatch_node_id_hotkey: m.overwatch_node_id_hotkey,
            hotkey_overwatch_node_id: m.hotkey_overwatch_node_id,
            overwatch_nodes: m.overwatch_nodes,
            account_overwatch_stake: m.account_overwatch_stake,
            ..o
        })
    }

    /// Whether the subnet node records of `n` are those of `self` after
    /// `old_hotkey` was replaced by `new_hotkey`: the subnet of the hotkey, and
    /// its node there with the node's data, follow the new hotkey.
    pub open spec fn node_keys_moved(&self, n: Network, old_hotkey: u64, new_hotkey: u64) -> bool {
        let o = *self;
        if o.keys.hotkey_subnet_id@.contains_key(old_hotkey) {
            let s = o.keys.hotkey_subnet_id@[old_hotkey];
            &&& n.keys.hotkey_subnet_id@ == o.keys.hotkey_subnet_id@.remove(old_hotkey).insert(new_hotkey, s)
            &&& if flat(o.nodes.hotkey_subnet_node_id@).contains_key((s, old_hotkey)) {
                let id = flat(o.nodes.hotkey_subnet_node_id@)[(s, old_hotkey)];
                &&& flat(n.nodes.subnet_node_id_hotkey@) == flat(o.nodes.subnet_node_id_hotkey@).insert((s, id), new_hotkey)
                &&& flat(n.nodes.subnet_nodes_data@) == rekeyed_node(flat(o.nodes.subnet_nodes_data@), s, id, new_hotkey)
                &&& flat(n.nodes.registered_subnet_nodes_data@)
                    == rekeyed_node(flat(o.nodes.registered_subnet_nodes_data@), s, id, new_hotkey)
                &&& flat(n.nodes.hotkey_subnet_node_id@)
                    == swap_keys(flat(o.nodes.hotkey_subnet_node_id@), (s, old_hotkey), (s, new_hotkey))
                &&& n.nodes == (NodesMeta {
                    subnet_node_id_hotkey: n.nodes.subnet_node_id_hotkey,
                    subnet_nodes_data: n.nodes.subnet_nodes_data,
                    registered_subnet_nodes_data: n.nodes.registered_subnet_nodes_data,
                    hotkey_subnet_node_id: n.nodes.hotkey_subnet_node_id,
                    ..o.nodes
                })
            } else {
                n.nodes == o.nodes
            }
        } else {
            &&& n.keys.hotkey_subnet_id@ == o.keys.hotkey_subnet_id@
            &&& n.nodes == o.nodes
        }
    }

    /// Replace the hotkey `old_hotkey` of `coldkey` by `new_hotkey`, which no
    /// one owns yet (the `update_hotkey` call). Ownership, the coldkey's hotkey
    /// set, the overwatch node and overwatch stake, the subnet node with its
    /// data, and every nonzero subnet stake of the old hotkey move to the new one.
    pub fn update_hotkey(&mut self, coldkey: u64, old_hotkey: u64, new_hotkey: u64) -> (r: Result<(), NetworkError>)
        ensures
            match old(self).update_hotkey_error(coldkey, old_hotkey, new_hotkey) {
                Some(e) => r == Err::<(), NetworkError>(e) && *final(self) == *old(self),
                None => {
                    &&& r is Ok
                    &&& old(self).keys_moved(*final(self), coldkey, old_hotkey, new_hotkey)
                    &&& old(self).overwatch_moved(*final(self), old_hotkey, new_hotkey)
                    &&& old(self).node_keys_moved(*final(self), old_hotkey, new_hotkey)
                    &&& *final(self) == (Network { keys: final(self).keys, nodes: final(self).nodes, ow: final(self).ow, ..*old(self) })
                },
            },
    {
        if self.tx_pause {
            return Err(NetworkError::Paused);
        }
        if coldkey == new_hotkey {
            return Err(NetworkError::ColdkeyMatchesHotkey);
        }
        if map_get(&self.keys.hotkey_owner, old_hotkey, 0) != coldkey {
            return Err(NetworkError::NotKeyOwner);
        }
        if self.keys.hotkey_owner.contains_key(&new_hotkey) {
            return Err(NetworkError::HotkeyHasOwner);
        }
        let (has_new, has_old): (bool, bool) = match self.keys.coldkey_hotkeys.get(&coldkey) {
            Some(h) => (h.contains(&new_hotkey), h.contains(&old_hotkey)),
            None => (false, false),
        };
        if has_new {
            return Err(NetworkError::HotkeyAlreadyRegisteredToColdkey);
        }
        if !has_old {
            return Err(NetworkError::OldHotkeyNotRegistered);
        }
        let ghost o = *self;

        // The coldkey's hotkey set and the hotkey's owner.
        let mut hotkeys: BTreeSet<u64> = match self.keys.coldkey_hotkeys.remove(&coldkey) {
            Some(h) => h,
            None => BTreeSet::new(),
        };
        hotkeys.remove(&old_hotkey);
        hotkeys.insert(new_hotkey);
        self.keys.coldkey_hotkeys.insert(coldkey, hotkeys);
        map_swap(&mut self.keys.hotkey_owner, old_hotkey, new_hotkey);
        proof {
            assert(self.keys.coldkey_hotkeys@.remove(coldkey) =~= o.keys.coldkey_hotkeys@.remove(coldkey));
            assert(hotkeys_of(self.keys.coldkey_hotkeys@, coldkey)
                =~= hotkeys_of(o.keys.coldkey_hotkeys@, coldkey).remove(old_hotkey).insert(new_hotkey));
        }

        // The overwatch node of the hotkey.
        let overwatch_node: Option<u32> = match self.ow.hotkey_overwatch_node_id.get(&old_hotkey) {
            Some(id) => Some(*id),
            None => None,
        };
        match overwatch_node {
            Some(id) => {
                map_remove(&mut self.ow.hotkey_overwatch_node_id, old_hotkey);
                map_set(&mut self.ow.overwatch_node_id_hotkey, id, new_hotkey);
                map_set(&mut self.ow.hotkey_overwatch_node_id, new_hotkey, id);
                if self.ow.overwatch_nodes.contains_key(&id) {
                    map_set(&mut self.ow.overwatch_nodes, id, new_hotkey);
                }
            },
            None => {},
        }

        // Its overwatch stake, also when it no longer has an overwatch node.
        let overwatch_stake: u128 = map_get(&self.ow.account_overwatch_stake, old_hotkey, 0);
        if overwatch_stake != 0 {
            map_remove(&mut self.ow.account_overwatch_stake, old_hotkey);
            map_set(&mut self.ow.account_overwatch_stake, new_hotkey, overwatch_stake);
        }

        // Its subnet node.
        let subnet: Option<u32> = match self.keys.hotkey_subnet_id.get(&old_hotkey) {
            Some(s) => Some(*s),
            None => None,
        };
        match subnet {
            Some(s) => {
                map_remove(&mut self.keys.hotkey_subnet_id, old_hotkey);
                let node_id: Option<u32> = match self.nodes.hotkey_subnet_node_id.get(&s) {
                    Some(inner) => match inner.get(&old_hotkey) {
                        Some(id) => Some(*id),
                        None => None,
                    },
                    None => None,
                };
                match node_id {
                    Some(id) => {
                        nested_insert(&mut self.nodes.subnet_node_id_hotkey, s, id, new_hotkey);
                        set_node_hotkey(&mut self.nodes.subnet_nodes_data, s, id, new_hotkey);
                        set_node_hotkey(&mut self.nodes.registered_subnet_nodes_data, s, id, new_hotkey);
                        nested_swap(&mut self.nodes.hotkey_subnet_node_id, s, old_hotkey, new_hotkey);
                    },
                    None => {},
                }
                map_set(&mut self.keys.hotkey_subnet_id, new_hotkey, s);
            },
            None => {},
        }

        // Its stake in every subnet.
        move_hotkey_stakes(&mut self.keys.account_subnet_stake, old_hotkey, new_hotkey);
        Ok(())
    }
}

} // verus!
