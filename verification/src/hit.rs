use std::collections::HashMap;
use vstd::prelude::*;

use crate::gadget_mapping::GadgetMapping;

verus! {

/// Entity type of a multiplayer level entity.
pub const PROT_ENTITY_MP_LEVEL: u32 = 11;

/// One past the highest entity type.
pub const PROT_ENTITY_MAX: u32 = 14;

/// Where a script call comes from.
#[derive(Debug, Clone, Copy, PartialEq, Eq, Structural)]
pub struct LuaContext {
    pub scene_id: u32,
    pub group_id: u32,
    pub config_id: u32,
    pub source_entity_id: u32,
    pub target_entity_id: u32,
    pub uid: u32,
}

/// A scripted gadget was hurt.
#[derive(Debug, Clone)]
pub struct OnBeHurtEvent {
    pub lua_name: String,
    pub element_type: u32,
    pub strike_type: u32,
    pub is_host: bool,
    pub lua_context: LuaContext,
}

/// The script identity of a defender: its group, its config id and its gadget id,
/// each where it has one.
#[derive(Debug, Clone, Copy, PartialEq, Eq, Structural)]
pub struct DefenderInfo {
    pub group_id: Option<u32>,
    pub config_id: Option<u32>,
    pub gadget_id: Option<u32>,
}

/// What a hit does.
#[derive(Debug, Clone)]
pub enum HitOutcome {
    /// The hit is dropped: a forged attacker, or an unknown party.
    Ignored,
    /// The defender takes the damage.
    Damaged,
    /// The defender takes the damage and its script is told.
    DamagedAndScripted(OnBeHurtEvent),
}

/// The hit must come from the attacker's owner: attackers of a real entity type
/// (below the maximum, other than a multiplayer level) must be known, and an
/// owned one must belong to the player who reported the hit.
pub open spec fn attacker_accepted(originator_uid: u32, entity_type: u32, attacker_owner: Option<Option<u32>>) -> bool {
    (entity_type < PROT_ENTITY_MAX && entity_type != PROT_ENTITY_MP_LEVEL) ==> match attacker_owner {
        None => false,
        Some(owner) => match owner {
            Some(uid) => uid == originator_uid,
            None => true,
        },
    }
}

/// Who may report a hit: for an attacker of a real entity type (below the
/// maximum, other than a multiplayer level), only the player who owns it, or
/// anyone where it has no owner, and never when the attacker is unknown; for any
/// other attacker, anyone.
pub proof fn law_hit_comes_from_the_attacker_owner(originator_uid: u32, entity_type: u32, attacker_owner: Option<Option<u32>>)
    ensures
        entity_type >= 14 || entity_type == 11 ==> attacker_accepted(originator_uid, entity_type, attacker_owner),
        entity_type < 14 && entity_type != 11 ==> {
            &&& attacker_owner is None ==> !attacker_accepted(originator_uid, entity_type, attacker_owner)
            &&& attacker_owner == Some(Option::<u32>::None) ==> attacker_accepted(
                originator_uid,
                entity_type,
                attacker_owner,
            )
            &&& attacker_owner is Some && attacker_owner->0 is Some ==> (attacker_accepted(
                originator_uid,
                entity_type,
                attacker_owner,
            ) <==> attacker_owner->0->0 == originator_uid)
        },
{
}

/// What a hit reported by `originator_uid` does. `ty_shift` splits an entity id
/// into its type (the high bits); `attacker_owner` is the attacker's owner where
/// the attacker is known (`None` where it is not); `defender` is the defender's
/// script identity where the defender is known.
pub fn deal_damage_on_hit(
    originator_uid: u32,
    attacker_id: u32,
    defense_id: u32,
    element_type: u32,
    ty_shift: u32,
    attacker_owner: Option<Option<u32>>,
    defender: Option<DefenderInfo>,
    gadget_names: Option<&HashMap<u32, String>>,
) -> (r: HitOutcome)
    requires
        ty_shift < 32,
    ensures
        !attacker_accepted(originator_uid, attacker_id >> ty_shift, attacker_owner) || defender is None
            <==> r is Ignored,
        ({
            let names = match gadget_names {
                Some(m) => m@,
                None => Map::empty(),
            };
            attacker_accepted(originator_uid, attacker_id >> ty_shift, attacker_owner) && defender is Some ==> {
                let d = defender->0;
                if d.group_id is Some && d.config_id is Some && d.gadget_id is Some
                    && names.contains_key(d.gadget_id->0) {
                    r == HitOutcome::DamagedAndScripted(
                        OnBeHurtEvent {
                            lua_name: names[d.gadget_id->0],
                            element_type,
                            strike_type: 0,
                            is_host: true,
                            lua_context: LuaContext {
                                scene_id: 0,
                                group_id: d.group_id->0,
                                config_id: d.config_id->0,
                                source_entity_id: defense_id,
                                target_entity_id: defense_id,
                                uid: originator_uid,
                            },
                        },
                    )
                } else {
                    r is Damaged
                }
            }
        }),
{
    let entity_type = attacker_id >> ty_shift;
    if entity_type < PROT_ENTITY_MAX && entity_type != PROT_ENTITY_MP_LEVEL {
        match attacker_owner {
            None => return HitOutcome::Ignored,
            Some(owner) => match owner {
                Some(uid) => {
                    if uid != originator_uid {
                        return HitOutcome::Ignored;
                    }
                },
                None => {},
            },
        }
    }
    let d = match defender {
        Some(d) => d,
        None => return HitOutcome::Ignored,
    };
    let (group_id, config_id, gadget_id) = match (d.group_id, d.config_id, d.gadget_id) {
        (Some(g), Some(c), Some(x)) => (g, c, x),
        _ => return HitOutcome::Damaged,
    };
    let lua_name = match GadgetMapping::get_gadget_lua_name(gadget_names, gadget_id) {
        Some(name) => name,
        None => return HitOutcome::Damaged,
    };
    HitOutcome::DamagedAndScripted(
        OnBeHurtEvent {
            lua_name,
            element_type,
            strike_type: 0,
            is_host: true,
            lua_context: LuaContext {
                scene_id: 0,
                group_id,
                config_id,
                source_entity_id: defense_id,
                target_entity_id: defense_id,
                uid: originator_uid,
            },
        },
    )
}

} // verus!
