use nod_krai_gi::gadget_mapping::GadgetMapping;
use nod_krai_gi::hit::{deal_damage_on_hit, DefenderInfo, HitOutcome};

fn scripted() -> DefenderInfo {
    DefenderInfo { group_id: Some(10), config_id: Some(20), gadget_id: Some(30) }
}

fn names() -> std::collections::HashMap<u32, String> {
    GadgetMapping::collect(vec![GadgetMapping { gadget_id: 30, server_controller: "Torch".to_string() }])
}

// attacker id 0x0100_0005 with shift 24 is entity type 1 (an avatar)
const AVATAR_ID: u32 = 0x0100_0005;

#[test]
fn hit_by_own_avatar_reaches_the_script() {
    let n = names();
    match deal_damage_on_hit(7, AVATAR_ID, 99, 3, 24, Some(Some(7)), Some(scripted()), Some(&n)) {
        HitOutcome::DamagedAndScripted(ev) => {
            assert_eq!(ev.lua_name, "Torch");
            assert_eq!(ev.element_type, 3);
            assert_eq!(ev.strike_type, 0);
            assert!(ev.is_host);
            assert_eq!(ev.lua_context.group_id, 10);
            assert_eq!(ev.lua_context.config_id, 20);
            assert_eq!(ev.lua_context.source_entity_id, 99);
            assert_eq!(ev.lua_context.target_entity_id, 99);
            assert_eq!(ev.lua_context.uid, 7);
            assert_eq!(ev.lua_context.scene_id, 0);
        },
        _ => panic!("expected a scripted hit"),
    }
}

#[test]
fn forged_or_unknown_attacker_is_ignored() {
    let n = names();
    assert!(matches!(deal_damage_on_hit(7, AVATAR_ID, 99, 3, 24, Some(Some(8)), Some(scripted()), Some(&n)), HitOutcome::Ignored));
    assert!(matches!(deal_damage_on_hit(7, AVATAR_ID, 99, 3, 24, None, Some(scripted()), Some(&n)), HitOutcome::Ignored));
}

#[test]
fn level_entity_attacker_needs_no_owner_check() {
    let n = names();
    // type 11 is a multiplayer level entity; type 14 and above are out of range
    assert!(matches!(deal_damage_on_hit(7, 11 << 24, 99, 3, 24, None, Some(scripted()), Some(&n)), HitOutcome::DamagedAndScripted(_)));
    assert!(matches!(deal_damage_on_hit(7, 20 << 24, 99, 3, 24, None, Some(scripted()), Some(&n)), HitOutcome::DamagedAndScripted(_)));
}

#[test]
fn unknown_defender_is_ignored() {
    let n = names();
    assert!(matches!(deal_damage_on_hit(7, AVATAR_ID, 99, 3, 24, Some(None), None, Some(&n)), HitOutcome::Ignored));
}

#[test]
fn defender_without_script_identity_only_takes_damage() {
    let n = names();
    let bare = DefenderInfo { group_id: Some(10), config_id: None, gadget_id: Some(30) };
    assert!(matches!(deal_damage_on_hit(7, AVATAR_ID, 99, 3, 24, Some(None), Some(bare), Some(&n)), HitOutcome::Damaged));
    let unmapped = DefenderInfo { group_id: Some(10), config_id: Some(20), gadget_id: Some(31) };
    assert!(matches!(deal_damage_on_hit(7, AVATAR_ID, 99, 3, 24, Some(None), Some(unmapped), Some(&n)), HitOutcome::Damaged));
    assert!(matches!(deal_damage_on_hit(7, AVATAR_ID, 99, 3, 24, Some(None), Some(scripted()), None), HitOutcome::Damaged));
}

