//! The single player's data in `level.dat`, under `Data.Player`.
use vstd::prelude::*;

use crate::nbt::nbt::{lemma_list_model, value_model, NbtCompound, NbtValue};
use crate::nbt::wire::{insert_entry, lemma_insert_lookup, lookup, NbtModel};
use crate::nbt::NbtError;

verus! {

/// The position in a player compound: its `Pos` list of three doubles, as
/// their IEEE-754 bits.
pub open spec fn pos_of(m: NbtModel) -> Option<(u64, u64, u64)> {
    match m {
        NbtModel::Compound(es) => match lookup(es, "Pos"@) {
            Some(NbtModel::List(items)) => if items.len() == 3 {
                match (items[0], items[1], items[2]) {
                    (NbtModel::Double(x), NbtModel::Double(y), NbtModel::Double(z)) => Some((x, y, z)),
                    _ => None,
                }
            } else {
                None
            },
            _ => None,
        },
        _ => None,
    }
}

/// The health in a player compound: its `Health` float, as its IEEE-754 bits.
pub open spec fn health_of(m: NbtModel) -> Option<u32> {
    match m {
        NbtModel::Compound(es) => match lookup(es, "Health"@) {
            Some(NbtModel::Float(v)) => Some(v),
            _ => None,
        },
        _ => None,
    }
}

/// The experience level in a player compound: its `XpLevel` int.
pub open spec fn xp_level_of(m: NbtModel) -> Option<i32> {
    match m {
        NbtModel::Compound(es) => match lookup(es, "XpLevel"@) {
            Some(NbtModel::Int(v)) => Some(v),
            _ => None,
        },
        _ => None,
    }
}

/// The player compound with entry `k` set to `v`; a player value that is not
/// a compound is left as it is.
pub open spec fn player_set(m: NbtModel, k: Seq<char>, v: NbtModel) -> NbtModel {
    match m {
        NbtModel::Compound(es) => NbtModel::Compound(insert_entry(es, k, v)),
        _ => m,
    }
}

/// On a player compound, each field reads back as it was last set.
pub proof fn lemma_player_set_get(m: NbtModel, x: u64, y: u64, z: u64, health: u32, xp: i32)
    requires
        m is Compound,
    ensures
        pos_of(
            player_set(
                m,
                "Pos"@,
                NbtModel::List(seq![NbtModel::Double(x), NbtModel::Double(y), NbtModel::Double(z)]),
            ),
        ) == Some((x, y, z)),
        health_of(player_set(m, "Health"@, NbtModel::Float(health))) == Some(health),
        xp_level_of(player_set(m, "XpLevel"@, NbtModel::Int(xp))) == Some(xp),
{
    let es = m->Compound_0;
    let pos = NbtModel::List(seq![NbtModel::Double(x), NbtModel::Double(y), NbtModel::Double(z)]);
    lemma_insert_lookup(es, "Pos"@, pos);
    lemma_insert_lookup(es, "Health"@, NbtModel::Float(health));
    lemma_insert_lookup(es, "XpLevel"@, NbtModel::Int(xp));
}

/// The error of an edit on a player value that is not a compound.
pub open spec fn not_a_compound(e: NbtError) -> bool {
    e matches NbtError::UnknownCompound(k) && k@ == "Data.Player"@
}

/// The player compound of a level, borrowed for reading and editing.
pub struct PlayerData<'a> {
    pub root: &'a mut NbtValue,
}

impl<'a> PlayerData<'a> {
    /// The player's value as a model.
    pub open spec fn model(&self) -> NbtModel {
        value_model(*self.root)
    }

    fn as_compound(&self) -> (r: Result<&NbtCompound, NbtError>)
        ensures
            match self.model() {
                NbtModel::Compound(es) => r matches Ok(c) && c.model() == es,
                _ => r matches Err(e) && not_a_compound(e),
            },
    {
        match &*self.root {
            NbtValue::Compound(map) => Ok(map),
            _ => Err(NbtError::UnknownCompound("Data.Player".to_owned())),
        }
    }

    /// Sets entry `key` of the player compound to `value`.
    fn set_entry(&mut self, key: &str, value: NbtValue) -> (r: Result<(), NbtError>)
        ensures
            match old(self).model() {
                NbtModel::Compound(_) => r is Ok,
                _ => r matches Err(e) && not_a_compound(e),
            },
            final(self).model() == player_set(old(self).model(), key@, value_model(value)),
    {
        match &mut *self.root {
            NbtValue::Compound(map) => {
                let _ = map.insert(key.to_owned(), value);
                Ok(())
            },
            _ => Err(NbtError::UnknownCompound("Data.Player".to_owned())),
        }
    }

    /// The player's position, as the bits of its three doubles.
    pub fn get_pos(&self) -> (r: Option<(u64, u64, u64)>)
        ensures
            r == pos_of(self.model()),
    {
        let map = match self.as_compound() {
            Ok(m) => m,
            Err(_) => return None,
        };
        match map.get("Pos") {
            Some(NbtValue::List(list)) => {
                proof {
                    lemma_list_model(list@, 0);
                }
                if list.len() == 3 {
                    let x = match &list[0] {
                        NbtValue::Double(v) => *v,
                        _ => return None,
                    };
                    let y = match &list[1] {
                        NbtValue::Double(v) => *v,
                        _ => return None,
                    };
                    let z = match &list[2] {
                        NbtValue::Double(v) => *v,
                        _ => return None,
                    };
                    Some((x, y, z))
                } else {
                    None
                }
            },
            _ => None,
        }
    }

    /// Sets the player's position to the doubles with these bits.
    pub fn set_pos(&mut self, x: u64, y: u64, z: u64) -> (r: Result<(), NbtError>)
        ensures
            match old(self).model() {
                NbtModel::Compound(_) => r is Ok,
                _ => r matches Err(e) && not_a_compound(e),
            },
            final(self).model() == player_set(
                old(self).model(),
                "Pos"@,
                NbtModel::List(seq![NbtModel::Double(x), NbtModel::Double(y), NbtModel::Double(z)]),
            ),
    {
        let list = vec![NbtValue::Double(x), NbtValue::Double(y), NbtValue::Double(z)];
        proof {
            lemma_list_model(list@, 0);
            assert(crate::nbt::nbt::list_model(list@, 0) =~= seq![
                NbtModel::Double(x),
                NbtModel::Double(y),
                NbtModel::Double(z),
            ]);
            assert(value_model(NbtValue::List(list)) == NbtModel::List(
                seq![NbtModel::Double(x), NbtModel::Double(y), NbtModel::Double(z)],
            ));
        }
        self.set_entry("Pos", NbtValue::List(list))
    }

    /// The player's health, as the bits of its float.
    pub fn get_health(&self) -> (r: Option<u32>)
        ensures
            r == health_of(self.model()),
    {
        let map = match self.as_compound() {
            Ok(m) => m,
            Err(_) => return None,
        };
        match map.get("Health") {
            Some(NbtValue::Float(v)) => Some(*v),
            _ => None,
        }
    }

    /// Sets the player's health to the float with these bits.
    pub fn set_health(&mut self, v: u32) -> (r: Result<(), NbtError>)
        ensures
            match old(self).model() {
                NbtModel::Compound(_) => r is Ok,
                _ => r matches Err(e) && not_a_compound(e),
            },
            final(self).model() == player_set(old(self).model(), "Health"@, NbtModel::Float(v)),
    {
        self.set_entry("Health", NbtValue::Float(v))
    }

    /// The player's experience level.
    pub fn get_xp_level(&self) -> (r: Option<i32>)
        ensures
            r == xp_level_of(self.model()),
    {
        let map = match self.as_compound() {
            Ok(m) => m,
            Err(_) => return None,
        };
        match map.get("XpLevel") {
            Some(NbtValue::Int(v)) => Some(*v),
            _ => None,
        }
    }

    /// Sets the player's experience level.
    pub fn set_xp_level(&mut self, v: i32) -> (r: Result<(), NbtError>)
        ensures
            match old(self).model() {
                NbtModel::Compound(_) => r is Ok,
                _ => r matches Err(e) && not_a_compound(e),
            },
            final(self).model() == player_set(old(self).model(), "XpLevel"@, NbtModel::Int(v)),
    {
        self.set_entry("XpLevel", NbtValue::Int(v))
    }
}

} // verus!
