//! `level.dat`: the world's name, seed, spawn point, player and game rules.
use vstd::prelude::*;

use crate::nbt::nbt::{value_model, Nbt, NbtValue};
use crate::nbt::wire::{insert_entry, lemma_path_set_lookup, lemma_path_set_sibling, no_dot,
    path_lookup, path_set, NbtModel};
use crate::nbt::NbtError;

pub mod player;

verus! {

/// The error of an edit whose path names nothing of the kind needed.
pub open spec fn unknown_path(e: NbtError, path: Seq<char>) -> bool {
    e matches NbtError::UnknownCompound(k) && k@ == path
}

/// The spawn point in a level document, when all three coordinates are ints.
pub open spec fn spawn_of(es: Seq<(Seq<char>, NbtModel)>) -> Option<(i32, i32, i32)> {
    match (
        path_lookup(es, "Data.SpawnX"@),
        path_lookup(es, "Data.SpawnY"@),
        path_lookup(es, "Data.SpawnZ"@),
    ) {
        (Some(NbtModel::Int(x)), Some(NbtModel::Int(y)), Some(NbtModel::Int(z))) => Some((x, y, z)),
        _ => None,
    }
}

/// The value a game rule is stored as: the string `true` or `false`.
pub open spec fn rule_value(value: bool) -> NbtModel {
    NbtModel::String(
        if value {
            "true"@
        } else {
            "false"@
        },
    )
}

/// Setting the spawn point of a level that has all three coordinates
/// succeeds at each step, and reading the spawn point back gives the one set.
pub proof fn lemma_spawn_set_get(es: Seq<(Seq<char>, NbtModel)>, x: i32, y: i32, z: i32)
    requires
        path_lookup(es, "Data.SpawnX"@) is Some,
        path_lookup(es, "Data.SpawnY"@) is Some,
        path_lookup(es, "Data.SpawnZ"@) is Some,
    ensures
        ({
            let m1 = path_set(es, "Data.SpawnX"@, NbtModel::Int(x));
            let m2 = path_set(m1, "Data.SpawnY"@, NbtModel::Int(y));
            let m3 = path_set(m2, "Data.SpawnZ"@, NbtModel::Int(z));
            &&& path_lookup(m1, "Data.SpawnY"@) is Some
            &&& path_lookup(m2, "Data.SpawnZ"@) is Some
            &&& spawn_of(m3) == Some((x, y, z))
        }),
{
    reveal_strlit("Data.SpawnX");
    reveal_strlit("Data.SpawnY");
    reveal_strlit("Data.SpawnZ");
    let a = seq!['D', 'a', 't', 'a'];
    let bx = seq!['S', 'p', 'a', 'w', 'n', 'X'];
    let by = seq!['S', 'p', 'a', 'w', 'n', 'Y'];
    let bz = seq!['S', 'p', 'a', 'w', 'n', 'Z'];
    let px = "Data.SpawnX"@;
    let py = "Data.SpawnY"@;
    let pz = "Data.SpawnZ"@;
    assert(px =~= a + seq!['.'] + bx);
    assert(py =~= a + seq!['.'] + by);
    assert(pz =~= a + seq!['.'] + bz);
    assert(no_dot(a));
    assert(no_dot(bx));
    assert(no_dot(by));
    assert(no_dot(bz));
    assert(bx[5] != by[5] && bx[5] != bz[5] && by[5] != bz[5]);
    let m1 = path_set(es, px, NbtModel::Int(x));
    let m2 = path_set(m1, py, NbtModel::Int(y));
    let m3 = path_set(m2, pz, NbtModel::Int(z));
    lemma_path_set_lookup(es, px, NbtModel::Int(x));
    lemma_path_set_sibling(es, a, bx, by, NbtModel::Int(x));
    lemma_path_set_sibling(es, a, bx, bz, NbtModel::Int(x));
    lemma_path_set_lookup(m1, py, NbtModel::Int(y));
    lemma_path_set_sibling(m1, a, by, bx, NbtModel::Int(y));
    lemma_path_set_sibling(m1, a, by, bz, NbtModel::Int(y));
    lemma_path_set_lookup(m2, pz, NbtModel::Int(z));
    lemma_path_set_sibling(m2, a, bz, bx, NbtModel::Int(z));
    lemma_path_set_sibling(m2, a, bz, by, NbtModel::Int(z));
}

/// A `level.dat` document.
pub struct LevelData {
    pub nbt: Nbt,
}

impl LevelData {
    /// The world's name, `Data.LevelName`, when it is a string.
    pub fn get_level_name(&self) -> (r: Option<&str>)
        ensures
            match path_lookup(self.nbt.model(), "Data.LevelName"@) {
                Some(NbtModel::String(s)) => r matches Some(n) && n@ == s,
                _ => r is None,
            },
    {
        match self.nbt.try_get("Data.LevelName") {
            Some(NbtValue::String(s)) => Some(s.as_str()),
            _ => None,
        }
    }

    /// Sets the world's name; fails, changing nothing, when there is no
    /// `Data.LevelName`.
    pub fn set_level_name(&mut self, name: String) -> (r: Result<(), NbtError>)
        ensures
            path_lookup(old(self).nbt.model(), "Data.LevelName"@) is Some ==> r is Ok
                && final(self).nbt.model() == path_set(
                old(self).nbt.model(),
                "Data.LevelName"@,
                NbtModel::String(name@),
            ),
            path_lookup(old(self).nbt.model(), "Data.LevelName"@) is None ==> (r matches Err(e)
                && unknown_path(e, "Data.LevelName"@) && final(self).nbt.model() == old(
                self,
            ).nbt.model()),
    {
        let key = "Data.LevelName";
        match self.nbt.try_get_mut(key) {
            Some(v) => {
                *v = NbtValue::String(name);
                Ok(())
            },
            None => Err(NbtError::UnknownCompound(key.to_owned())),
        }
    }

    /// The world's seed, `Data.WorldGenSettings.seed`, when it is a long.
    pub fn get_seed(&self) -> (r: Option<i64>)
        ensures
            match path_lookup(self.nbt.model(), "Data.WorldGenSettings.seed"@) {
                Some(NbtModel::Long(v)) => r == Some(v),
                _ => r is None,
            },
    {
        match self.nbt.try_get("Data.WorldGenSettings.seed") {
            Some(NbtValue::Long(v)) => Some(*v),
            _ => None,
        }
    }

    /// The spawn point, `Data.SpawnX`, `Data.SpawnY` and `Data.SpawnZ`.
    pub fn get_spawn(&self) -> (r: Option<(i32, i32, i32)>)
        ensures
            r == spawn_of(self.nbt.model()),
    {
        let x = match self.nbt.try_get("Data.SpawnX") {
            Some(NbtValue::Int(v)) => *v,
            _ => return None,
        };
        let y = match self.nbt.try_get("Data.SpawnY") {
            Some(NbtValue::Int(v)) => *v,
            _ => return None,
        };
        let z = match self.nbt.try_get("Data.SpawnZ") {
            Some(NbtValue::Int(v)) => *v,
            _ => return None,
        };
        Some((x, y, z))
    }

    /// Sets the spawn point, one coordinate after the other; stops at the
    /// first coordinate that is missing, leaving those before it set.
    pub fn set_spawn(&mut self, x: i32, y: i32, z: i32) -> (r: Result<(), NbtError>)
        ensures
            ({
                let m0 = old(self).nbt.model();
                let m1 = path_set(m0, "Data.SpawnX"@, NbtModel::Int(x));
                let m2 = path_set(m1, "Data.SpawnY"@, NbtModel::Int(y));
                let m3 = path_set(m2, "Data.SpawnZ"@, NbtModel::Int(z));
                if path_lookup(m0, "Data.SpawnX"@) is None {
                    (r matches Err(e) && unknown_path(e, "Data.SpawnX"@)) && final(self).nbt.model()
                        == m0
                } else if path_lookup(m1, "Data.SpawnY"@) is None {
                    (r matches Err(e) && unknown_path(e, "Data.SpawnY"@)) && final(self).nbt.model()
                        == m1
                } else if path_lookup(m2, "Data.SpawnZ"@) is None {
                    (r matches Err(e) && unknown_path(e, "Data.SpawnZ"@)) && final(self).nbt.model()
                        == m2
                } else {
                    r is Ok && final(self).nbt.model() == m3
                }
            }),
    {
        let key_x = "Data.SpawnX";
        let key_y = "Data.SpawnY";
        let key_z = "Data.SpawnZ";
        match self.nbt.try_get_mut(key_x) {
            Some(v) => {
                *v = NbtValue::Int(x);
            },
            None => return Err(NbtError::UnknownCompound(key_x.to_owned())),
        }
        match self.nbt.try_get_mut(key_y) {
            Some(v) => {
                *v = NbtValue::Int(y);
            },
            None => return Err(NbtError::UnknownCompound(key_y.to_owned())),
        }
        match self.nbt.try_get_mut(key_z) {
            Some(v) => {
                *v = NbtValue::Int(z);
            },
            None => return Err(NbtError::UnknownCompound(key_z.to_owned())),
        }
        Ok(())
    }

    /// The player, `Data.Player`.
    pub fn player(&self) -> (r: Option<&NbtValue>)
        ensures
            r matches Some(v) ==> path_lookup(self.nbt.model(), "Data.Player"@) == Some(
                value_model(*v),
            ),
            r is None ==> path_lookup(self.nbt.model(), "Data.Player"@) is None,
    {
        self.nbt.try_get("Data.Player")
    }

    /// The player, `Data.Player`, to change in place.
    pub fn player_mut(&mut self) -> (r: Option<&mut NbtValue>)
        ensures
            r matches Some(v) ==> (path_lookup(old(self).nbt.model(), "Data.Player"@) == Some(
                value_model(*v),
            ) && final(self).nbt.model() == path_set(
                old(self).nbt.model(),
                "Data.Player"@,
                value_model(*final(v)),
            )),
            r is None ==> path_lookup(old(self).nbt.model(), "Data.Player"@) is None
                && final(self).nbt.model() == old(self).nbt.model(),
    {
        self.nbt.try_get_mut("Data.Player")
    }

    /// Sets game rule `rule` to the string `true` or `false` in the compound
    /// `Data.GameRules`; fails, changing nothing, when that is not a compound.
    pub fn set_gamerule(&mut self, rule: &str, value: bool) -> (r: Result<(), NbtError>)
        ensures
            match path_lookup(old(self).nbt.model(), "Data.GameRules"@) {
                Some(NbtModel::Compound(rules)) => r is Ok && final(self).nbt.model() == path_set(
                    old(self).nbt.model(),
                    "Data.GameRules"@,
                    NbtModel::Compound(insert_entry(rules, rule@, rule_value(value))),
                ),
                _ => (r matches Err(e) && unknown_path(e, "Data.GameRules"@))
                    && final(self).nbt.model() == old(self).nbt.model(),
            },
    {
        let key = "Data.GameRules";
        let is_compound = match self.nbt.try_get(key) {
            Some(NbtValue::Compound(_)) => true,
            _ => false,
        };
        if !is_compound {
            return Err(NbtError::UnknownCompound(key.to_owned()));
        }
        match self.nbt.try_get_mut(key) {
            Some(NbtValue::Compound(map)) => {
                let text = if value {
                    "true".to_owned()
                } else {
                    "false".to_owned()
                };
                let _ = map.insert(rule.to_owned(), NbtValue::String(text));
                Ok(())
            },
            _ => Err(NbtError::UnknownCompound(key.to_owned())),
        }
    }
}

} // verus!
