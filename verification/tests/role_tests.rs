//! Tests of the gear and role analyzers over a small recorded challenge.

use blert_analysis::analysis::{
    AnalyzerImpl, AnalyzerInstance, AnalyzerKind, AnalyzerOutput, CompletedAnalyzer, Context,
    Level,
};
use blert_analysis::analyzers::gear_analyzer::GearAnalyzer;
use blert_analysis::analyzers::tob_role_analyzer::{Role, SubRole, TobRoleAnalyzer};
use blert_analysis::challenge::{Challenge, ChallengeUuid, Status};
use blert_analysis::delta::ItemDelta;
use blert_analysis::error::Error;
use blert_analysis::event::{
    ChallengeData, ChallengeEvents, Event, EventAttack, EventNpc, EventPlayer, EventType,
    ChallengeMode, ChallengeType, NpcType, PlayerAttack, RoomNpcs, Stage, StageData, StageNpc,
    TobRooms,
};
use blert_analysis::item::{EquipmentSlot, Item, Registry};
use blert_analysis::stage::StageInfo;

fn player(party_index: u32) -> EventPlayer {
    EventPlayer {
        party_index,
        active_prayers: 0,
        off_cooldown_tick: 0,
        attack: None,
        defence: None,
        strength: None,
        hitpoints: None,
        ranged: None,
        prayer: None,
        magic: None,
        equipment_deltas: Vec::new(),
    }
}

fn attack_event(tick: u32, party_index: u32, attack: PlayerAttack, room_id: u64) -> Event {
    Event {
        event_type: EventType::PlayerAttack,
        tick,
        x_coord: 0,
        y_coord: 0,
        player: Some(player(party_index)),
        player_attack: Some(EventAttack {
            attack,
            target: Some(EventNpc { id: 8366, room_id }),
        }),
    }
}

fn equip_event(tick: u32, party_index: u32, slot: EquipmentSlot, id: i32) -> Event {
    let mut p = player(party_index);
    p.equipment_deltas = vec![ItemDelta::Add(slot, id, 1).pack()];
    Event {
        event_type: EventType::PlayerUpdate,
        tick,
        x_coord: 0,
        y_coord: 0,
        player: Some(p),
        player_attack: None,
    }
}

fn item(id: i32, name: &str, slot: EquipmentSlot) -> Item {
    Item { id, name: name.to_string(), tradeable: true, slot: Some(slot), stats: None }
}

/// A 3-scale challenge reaching only the first boss: one player barraged the
/// crabs and carries a third-room melee weapon, one chinned the crabs, and
/// one carries a bulwark.
fn maiden_challenge() -> (Challenge, Registry) {
    let registry = Registry::new(vec![
        item(24219, "swift blade", EquipmentSlot::Weapon),
        item(21015, "bulwark", EquipmentSlot::Weapon),
    ]);

    let data = ChallengeData {
        stage_data: Some(StageData::TobRooms(TobRooms {
            maiden: Some(RoomNpcs {
                npcs: vec![StageNpc {
                    room_id: 7,
                    spawn_npc_id: 8366,
                    spawn_tick: 0,
                    npc_type: NpcType::Basic,
                }],
            }),
            bloat: None,
            nylocas: None,
            sotetseg: None,
            xarpus: None,
            verzik: None,
        })),
    };

    let party = vec!["p1".to_string(), "p2".to_string(), "p3".to_string()];
    let events = vec![
        attack_event(1, 0, PlayerAttack::KodaiBarrage, 7),
        attack_event(1, 1, PlayerAttack::ChinRed, 7),
        equip_event(0, 0, EquipmentSlot::Weapon, 24219),
        equip_event(0, 2, EquipmentSlot::Weapon, 21015),
    ];
    let stage = StageInfo::new(
        &data,
        ChallengeEvents { stage: Stage::TobMaiden, party_names: party.clone(), events },
    )
    .unwrap();

    let challenge = Challenge::assemble(
        ChallengeUuid { hi: 1, lo: 2 },
        ChallengeType::Tob,
        ChallengeMode::TobRegular,
        Status::Wiped,
        Stage::TobMaiden,
        party,
        vec![stage],
    )
    .unwrap();
    (challenge, registry)
}

fn role_of(roles: &[(String, blert_analysis::analyzers::tob_role_analyzer::PlayerRoles)], name: &str)
    -> Role {
    roles
        .iter()
        .find(|(n, _)| n == name)
        .map(|(_, r)| r.role())
        .expect("player must be assigned")
}

#[test]
fn roles_assigned_from_first_boss_evidence() {
    let (challenge, registry) = maiden_challenge();

    // Run the gear analyzer, then hand its output to the role analyzer.
    let no_deps: Vec<CompletedAnalyzer> = Vec::new();
    let ctx = Context::new(&challenge, &registry, Level::Basic, &no_deps);
    let gear = GearAnalyzer::new().analyze(&ctx).unwrap();

    let completed = vec![CompletedAnalyzer {
        instance: AnalyzerInstance {
            logical_name: "gear".to_string(),
            kind: AnalyzerKind::Gear(GearAnalyzer::new()),
        },
        output: AnalyzerOutput::Gear(gear),
    }];
    let ctx = Context::new(&challenge, &registry, Level::Basic, &completed);
    let roles = TobRoleAnalyzer::new().analyze(&ctx).unwrap();

    assert_eq!(roles.len(), 3);
    assert_eq!(role_of(&roles, "p1"), Role::Mage);
    assert_eq!(role_of(&roles, "p2"), Role::Ranger);
    assert_eq!(role_of(&roles, "p3"), Role::Melee);

    // Room sub-roles: the lone freezer at the first boss, and the chinner.
    let p1 = roles.iter().find(|(n, _)| n == "p1").map(|(_, r)| r).unwrap();
    assert!(p1.has_sub_role(SubRole::MaidenSoloFreezer));
    assert!(!p1.has_sub_role(SubRole::MaidenChinner));
    let p2 = roles.iter().find(|(n, _)| n == "p2").map(|(_, r)| r).unwrap();
    assert!(p2.has_sub_role(SubRole::MaidenChinner));
    assert!(!p2.has_sub_role(SubRole::MaidenSoloFreezer));
}

#[test]
fn solo_challenge_assigns_solo_role() {
    let registry = Registry::new(Vec::new());
    let data = ChallengeData { stage_data: None };
    let stage = StageInfo::new(
        &data,
        ChallengeEvents {
            stage: Stage::TobMaiden,
            party_names: vec!["p1".to_string()],
            events: Vec::new(),
        },
    )
    .unwrap();
    let challenge = Challenge::assemble(
        ChallengeUuid { hi: 1, lo: 2 },
        ChallengeType::Tob,
        ChallengeMode::TobRegular,
        Status::Completed,
        Stage::TobMaiden,
        vec!["p1".to_string()],
        vec![stage],
    )
    .unwrap();
    let no_deps: Vec<CompletedAnalyzer> = Vec::new();
    let ctx = Context::new(&challenge, &registry, Level::Basic, &no_deps);
    let gear = GearAnalyzer::new().analyze(&ctx).unwrap();
    let completed = vec![CompletedAnalyzer {
        instance: AnalyzerInstance {
            logical_name: "gear".to_string(),
            kind: AnalyzerKind::Gear(GearAnalyzer::new()),
        },
        output: AnalyzerOutput::Gear(gear),
    }];
    let ctx = Context::new(&challenge, &registry, Level::Basic, &completed);
    let roles = TobRoleAnalyzer::new().analyze(&ctx).unwrap();
    assert_eq!(roles.len(), 1);
    assert_eq!(roles[0].0, "p1");
    assert_eq!(roles[0].1.role(), Role::Solo);
    assert!(!roles[0].1.has_sub_role(SubRole::MaidenSoloFreezer));
}

#[test]
fn missing_gear_dependency_fails() {
    // An analyzer whose definition did not lead to a completed gear output
    // fails with a dependency error at run time.
    let (challenge, registry) = maiden_challenge();
    let no_deps: Vec<CompletedAnalyzer> = Vec::new();
    let ctx = Context::new(&challenge, &registry, Level::Basic, &no_deps);
    match TobRoleAnalyzer::new().analyze(&ctx) {
        Err(Error::Dependency(name)) => assert_eq!(name, "GearAnalyzer"),
        other => panic!("expected a dependency error, got {other:?}"),
    }
}

#[test]
fn gear_analyzer_collects_registry_items() {
    let (challenge, registry) = maiden_challenge();
    let no_deps: Vec<CompletedAnalyzer> = Vec::new();
    let ctx = Context::new(&challenge, &registry, Level::Basic, &no_deps);
    let gear = GearAnalyzer::new().analyze(&ctx).unwrap();

    let p1 = gear.player(&"p1".to_string()).unwrap();
    assert!(p1.has(Stage::TobMaiden, 24219));
    assert!(p1.has_in_challenge(24219));
    assert!(!p1.has_in_challenge(21015));

    let p3 = gear.player(&"p3".to_string()).unwrap();
    assert!(p3.has(Stage::TobMaiden, 21015));
    assert!(!p3.has(Stage::TobMaiden, 24219));

    // Unknown usernames have no gear.
    assert!(gear.player(&"nobody".to_string()).is_none());
    // The context surfaces the dependency by static identity.
    assert!(ctx.get_dependency_output(AnalyzerImpl::Gear).is_none());
}

#[test]
fn role_analyzer_requires_supported_challenge_type() {
    let registry = Registry::new(Vec::new());
    let data = ChallengeData { stage_data: None };
    let stage = StageInfo::new(
        &data,
        ChallengeEvents {
            stage: Stage::ColosseumWave1,
            party_names: vec!["p1".to_string()],
            events: Vec::new(),
        },
    )
    .unwrap();
    let challenge = Challenge::assemble(
        ChallengeUuid { hi: 1, lo: 2 },
        ChallengeType::Colosseum,
        ChallengeMode::NoMode,
        Status::InProgress,
        Stage::ColosseumWave1,
        vec!["p1".to_string()],
        vec![stage],
    )
    .unwrap();
    let no_deps: Vec<CompletedAnalyzer> = Vec::new();
    let ctx = Context::new(&challenge, &registry, Level::Basic, &no_deps);
    match TobRoleAnalyzer::new().analyze(&ctx) {
        Err(Error::FailedPrecondition(_)) => {}
        other => panic!("expected a failed-precondition error, got {other:?}"),
    }
}

#[test]
fn challenge_scale_is_party_length() {
    let (challenge, _) = maiden_challenge();
    assert_eq!(challenge.scale(), challenge.party().len());
    assert_eq!(challenge.scale(), 3);
    assert_eq!(challenge.stages(), vec![Stage::TobMaiden]);
}
