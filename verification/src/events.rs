use vstd::prelude::*;

use crate::challenge::ChallengeType;

verus! {

/// Events that group scripts react to.
#[derive(Debug, Clone, Copy, PartialEq, Eq, Structural)]
pub enum EventType {
    EventChallengeSuccess,
    EventChallengeFail,
    EventDungeonSettle,
    EventEnterRegion,
    EventLeaveRegion,
}

/// The parameters handed to a script trigger.
#[derive(Debug, Clone, Copy, PartialEq, Eq, Structural)]
pub struct LuaEvt {
    pub param1: u32,
    pub param2: u32,
    pub param3: u32,
    pub source_eid: u32,
    pub target_eid: u32,
}

impl LuaEvt {
    /// An event with every parameter zero.
    pub open spec fn zeroed() -> LuaEvt {
        LuaEvt { param1: 0, param2: 0, param3: 0, source_eid: 0, target_eid: 0 }
    }

    /// An event whose first parameter is `param1` and whose others are zero.
    pub fn with_param1(param1: u32) -> (e: LuaEvt)
        ensures
            e == (LuaEvt { param1, ..LuaEvt::zeroed() }),
    {
        LuaEvt { param1, param2: 0, param3: 0, source_eid: 0, target_eid: 0 }
    }
}

impl Default for LuaEvt {
    fn default() -> (e: LuaEvt)
        ensures
            e == LuaEvt::zeroed(),
    {
        LuaEvt { param1: 0, param2: 0, param3: 0, source_eid: 0, target_eid: 0 }
    }
}

/// A request to run the triggers of a group for an event.
#[derive(Debug, Clone, Copy, PartialEq, Eq, Structural)]
pub struct LuaTriggerEvent {
    pub group_id: u32,
    pub event_type: EventType,
    pub evt: LuaEvt,
}

/// Progress of a running challenge, sent to the client.
#[derive(Debug, Clone, Copy, PartialEq, Eq, Structural)]
pub struct ChallengeProgressEvent {
    pub group_id: u32,
    pub challenge_index: u32,
    pub challenge_type: ChallengeType,
    pub param_index: u32,
    pub value: u32,
}

/// A challenge has started.
#[derive(Debug, Clone)]
pub struct ChallengeStartEvent {
    pub group_id: u32,
    pub challenge_id: u32,
    pub challenge_index: u32,
    pub param_list: Vec<u32>,
}

/// A challenge has ended.
#[derive(Debug, Clone, Copy, PartialEq, Eq, Structural)]
pub struct ChallengeFinishEvent {
    pub group_id: u32,
    pub challenge_id: u32,
    pub challenge_index: u32,
    pub is_success: bool,
    pub time_cost: u32,
}

/// A player interacted with a gadget: player uid, gadget entity id, option.
#[derive(Debug, Clone, Copy, PartialEq, Eq, Structural)]
pub struct GadgetInteractEvent(pub u32, pub u32, pub u32);

/// A script changed the options offered by a worktop gadget.
#[derive(Debug, Clone)]
pub struct SetWorktopOptionsEvent {
    pub player_uid: u32,
    pub group_id: u32,
    pub config_id: u32,
    pub gadget_entity_id: u32,
    pub option_list: Vec<u32>,
    pub del_option: u32,
}

/// A command for the scene's script runtime.
#[derive(Debug, Clone, Copy, PartialEq, Eq, Structural)]
pub enum ScriptCommand {
    LoadGroup { scene_id: u32, block_id: u32, group_id: u32 },
    UnloadGroup { group_id: u32 },
}

} // verus!
