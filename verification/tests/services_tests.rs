use negaboku::battle::{BattleParty, BattleSkill, SkillType};
use negaboku::relationship::RelationshipLevel;
use negaboku::services::{BattleService, GameProgressService, RelationshipService};

#[test]
fn relationship_service_basic_operations() {
    let mut service = RelationshipService::new();

    assert_eq!(service.get_relationship_value("souma", "yuzuki"), 0);

    let new_value = service.modify_relationship("souma", "yuzuki", 25);
    assert_eq!(new_value, 25);
    assert_eq!(service.get_relationship_value("souma", "yuzuki"), 25);

    assert_eq!(service.get_relationship_value("yuzuki", "souma"), 25);
}

#[test]
fn battle_service_integration() {
    let mut service = BattleService::new(RelationshipService::new());
    let party = service.start_battle("souma", "yuzuki");

    assert_eq!(party.character_a, "souma");
    assert_eq!(party.character_b, "yuzuki");
    assert_eq!(party.relationship.value(), 0);
}

#[test]
fn game_progress_service_story_events() {
    let mut service = GameProgressService::new();

    let result = service.process_story_event("共同作業イベント", ("souma", "yuzuki"), 10);

    assert!(result.contains("向上"));
    assert!(result.contains("souma"));
    assert!(result.contains("yuzuki"));
    assert_eq!(service.relationship_service.get_relationship_value("souma", "yuzuki"), 10);
}

#[test]
fn intimate_scene_unlock_condition() {
    let mut service = GameProgressService::new();

    assert!(!service.should_unlock_intimate_scene("souma", "yuzuki"));

    service.relationship_service.modify_relationship("souma", "yuzuki", 75);
    assert!(service.should_unlock_intimate_scene("souma", "yuzuki"));
}

#[test]
fn ending_determination() {
    let mut service = GameProgressService::new();

    service.relationship_service.modify_relationship("souma", "yuzuki", 95);
    let ending = service.determine_ending("souma");
    assert!(ending.contains("True Ending"));

    service.relationship_service.modify_relationship("souma", "retsuji", -60);
    let bad_ending = service.determine_ending("retsuji");
    assert!(bad_ending.contains("Bad Ending"));
}

#[test]
fn game_stats_calculation() {
    let mut service = GameProgressService::new();

    service.relationship_service.modify_relationship("souma", "yuzuki", 50);
    service.relationship_service.modify_relationship("souma", "kai", -30);
    service.relationship_service.modify_relationship("yuzuki", "kai", 20);

    let stats = service.get_game_stats();
    assert_eq!(stats.total_relationships, 3);
    assert_eq!(stats.positive_relationships, 2);
    assert_eq!(stats.negative_relationships, 1);

    assert!(stats.highest_relationship.is_some());
    assert!(stats.lowest_relationship.is_some());
}

#[test]
fn relationship_is_the_same_in_either_order() {
    let mut service = RelationshipService::new();
    service.modify_relationship("yuzuki", "souma", 40);
    assert_eq!(service.get_relationship_value("souma", "yuzuki"), 40);
    assert_eq!(service.get_relationship_value("yuzuki", "souma"), 40);
    service.modify_relationship("souma", "yuzuki", -15);
    assert_eq!(service.get_relationship_value("yuzuki", "souma"), 25);
    assert_eq!(service.get_all_relationships().len(), 1);
}

#[test]
fn relationship_key_orders_the_names() {
    let service = RelationshipService::new();
    assert_eq!(service.create_relationship_key("souma", "yuzuki"), "souma_yuzuki");
    assert_eq!(service.create_relationship_key("yuzuki", "souma"), "souma_yuzuki");
    assert_eq!(service.create_relationship_key("a", "a"), "a_a");
    assert_eq!(service.create_relationship_key("ab", "a"), "a_ab");
    assert_eq!(service.create_relationship_key("", "a"), "_a");
    assert_eq!(service.create_relationship_key("Z", "a"), "Z_a");
    assert_eq!(service.create_relationship_key("ユズキ", "ソウマ"), "ソウマ_ユズキ");
    assert_eq!(service.create_relationship_key("é", "z"), "z_é");
}

#[test]
fn relationship_key_orders_as_strings_are_ordered() {
    let service = RelationshipService::new();
    let names = ["", "a", "A", "ab", "b", "souma", "Souma", "ソウマ", "ユズキ", "é", "z", "\u{10000}", "\u{ffff}"];
    for a in names {
        for b in names {
            let expected = if a <= b { format!("{}_{}", a, b) } else { format!("{}_{}", b, a) };
            assert_eq!(service.create_relationship_key(a, b), expected);
        }
    }
}

#[test]
fn service_clamps_like_a_relationship() {
    let mut service = RelationshipService::new();
    assert_eq!(service.modify_relationship("a", "b", 1000), 100);
    assert_eq!(service.modify_relationship("a", "b", -1000), -100);
    assert_eq!(service.modify_relationship("c", "d", 60), 60);
    assert_eq!(service.modify_relationship("c", "d", -80), -20);
    assert_eq!(service.get_relationship("c", "d").level(), RelationshipLevel::Conflict);
    assert_eq!(service.modify_relationship("e", "f", 200), 100);
    assert_eq!(service.modify_relationship("e", "f", -50), 50);
}

#[test]
fn get_relationship_creates_and_hands_out_the_kept_one() {
    let mut service = RelationshipService::new();
    {
        let relationship = service.get_relationship("yuzuki", "souma");
        assert_eq!(relationship.character_a, "yuzuki");
        assert_eq!(relationship.character_b, "souma");
        assert_eq!(relationship.value(), 0);
        relationship.modify(33);
    }
    assert_eq!(service.get_relationship_value("souma", "yuzuki"), 33);
    let again = service.get_relationship("souma", "yuzuki");
    assert_eq!(again.character_a, "yuzuki");
    assert_eq!(again.value(), 33);
    assert_eq!(service.get_all_relationships(), vec![("souma_yuzuki".to_string(), 33)]);
}

#[test]
fn all_relationships_come_in_the_order_of_creation() {
    let mut service = RelationshipService::new();
    assert!(service.get_all_relationships().is_empty());
    service.modify_relationship("souma", "yuzuki", 5);
    service.modify_relationship("kai", "souma", -7);
    service.modify_relationship("yuzuki", "souma", 1);
    service.get_relationship("x", "y");
    assert_eq!(
        service.get_all_relationships(),
        vec![
            ("souma_yuzuki".to_string(), 6),
            ("kai_souma".to_string(), -7),
            ("x_y".to_string(), 0),
        ]
    );
}

#[test]
fn default_services_are_empty() {
    let service = RelationshipService::default();
    assert!(service.get_all_relationships().is_empty());
    let progress = GameProgressService::default();
    assert!(progress.relationship_service.get_all_relationships().is_empty());
    assert!(progress.character_registry.get("souma").is_none());
    assert_eq!(progress.get_game_stats().total_relationships, 0);
}

#[test]
fn battle_starts_with_the_kept_value() {
    let mut relationships = RelationshipService::new();
    relationships.modify_relationship("yuzuki", "souma", 80);
    let mut service = BattleService::new(relationships);
    let party = service.start_battle("souma", "yuzuki");
    assert_eq!(party.relationship.value(), 80);
    assert_eq!(party.relationship.level(), RelationshipLevel::Intimate);
    assert!(party.conflict_eligible);
    assert_eq!(party.available_skills().len(), 4);
    let other = service.start_battle("kai", "retsuji");
    assert_eq!(other.relationship.value(), 0);
    assert!(!other.conflict_eligible);
}

#[test]
fn cooperative_attack_brings_the_two_closer() {
    let mut relationships = RelationshipService::new();
    relationships.modify_relationship("souma", "yuzuki", 60);
    let mut service = BattleService::new(relationships);
    let party = service.start_battle("souma", "yuzuki");
    let coop = BattleSkill::new("協力技", SkillType::Cooperation, 100, "");
    let result = service.execute_skill_with_relationship_impact(&party, &coop).unwrap();
    assert_eq!(result.final_damage, 130);
    assert!(result.is_cooperative_attack);
    assert_eq!(service.start_battle("souma", "yuzuki").relationship.value(), 65);

    let normal = BattleSkill::new("通常技", SkillType::Normal, 100, "");
    let result = service.execute_skill_with_relationship_impact(&party, &normal).unwrap();
    assert_eq!(result.final_damage, 106);
    assert_eq!(service.start_battle("souma", "yuzuki").relationship.value(), 65);
}

#[test]
fn unusable_skill_changes_nothing() {
    let mut service = BattleService::new(RelationshipService::new());
    let party = service.start_battle("souma", "yuzuki");
    let coop = BattleSkill::new("協力技", SkillType::Cooperation, 100, "");
    let result = service.execute_skill_with_relationship_impact(&party, &coop);
    assert!(result.is_err());
    assert_eq!(
        result.unwrap_err().message(),
        "技「協力技」は現在の関係値（Normal）では使用できません"
    );
    assert_eq!(service.start_battle("souma", "yuzuki").relationship.value(), 0);
}

#[test]
fn strategy_by_level() {
    let service = BattleService::new(RelationshipService::new());
    let mut party = BattleParty::new("souma", "yuzuki");
    assert_eq!(service.suggest_battle_strategy(&party), vec!["基本技で安定した戦闘を心がけましょう"]);
    party.relationship.modify(26);
    assert_eq!(
        service.suggest_battle_strategy(&party),
        vec!["もう少しで協力技が使えるようになります", "基本技で安定した戦闘を心がけましょう"]
    );
    party.relationship.modify(24);
    assert_eq!(
        service.suggest_battle_strategy(&party),
        vec!["協力技を積極的に使用しましょう", "コンビネーション攻撃で大ダメージを狙えます"]
    );
    party.relationship.modify(-51);
    assert_eq!(
        service.suggest_battle_strategy(&party),
        vec!["ソウマの対立技「怒りの一撃」が使用可能です", "関係修復を優先した方が良いかもしれません"]
    );
    let mut other = BattleParty::new("kai", "yuzuki");
    other.relationship.modify(-1);
    assert_eq!(service.suggest_battle_strategy(&other), vec!["関係修復を優先した方が良いかもしれません"]);
    other.relationship.value = 25;
    assert_eq!(service.suggest_battle_strategy(&other), vec!["基本技で安定した戦闘を心がけましょう"]);
}

#[test]
fn story_event_report_is_exact() {
    let mut service = GameProgressService::new();
    let report = service.process_story_event("共同作業イベント", ("souma", "yuzuki"), 10);
    assert_eq!(report, "【共同作業イベント】により、soumaとyuzukiの関係が向上しました (現在: 10 / Normal)");
    let report = service.process_story_event("喧嘩", ("yuzuki", "souma"), -30);
    assert_eq!(report, "【喧嘩】により、yuzukiとsoumaの関係が悪化しました (現在: -20 / Conflict)");
    let report = service.process_story_event("無", ("souma", "yuzuki"), 0);
    assert_eq!(report, "【無】により、soumaとyuzukiの関係が悪化しました (現在: -20 / Conflict)");
    let report = service.process_story_event("祭", ("souma", "yuzuki"), 500);
    assert_eq!(report, "【祭】により、soumaとyuzukiの関係が向上しました (現在: 100 / Intimate)");
    assert_eq!(service.relationship_service.get_all_relationships().len(), 1);
}

#[test]
fn intimate_scene_opens_at_the_threshold() {
    let mut service = GameProgressService::new();
    service.relationship_service.modify_relationship("a", "b", 74);
    assert!(!service.should_unlock_intimate_scene("a", "b"));
    service.relationship_service.modify_relationship("b", "a", 1);
    assert!(service.should_unlock_intimate_scene("a", "b"));
    assert!(service.should_unlock_intimate_scene("b", "a"));
    assert!(!service.should_unlock_intimate_scene("a", "c"));
}

#[test]
fn endings_by_value() {
    let mut service = GameProgressService::new();
    assert_eq!(service.determine_ending("souma"), "Normal Ending - 平凡エンディング");
    service.relationship_service.modify_relationship("souma", "yuzuki", 49);
    assert_eq!(service.determine_ending("souma"), "Normal Ending - 平凡エンディング");
    service.relationship_service.modify_relationship("souma", "yuzuki", 1);
    assert_eq!(service.determine_ending("souma"), "Good Ending - souma_yuzukiとの友情エンディング");
    service.relationship_service.modify_relationship("souma", "yuzuki", 40);
    assert_eq!(service.determine_ending("yuzuki"), "True Ending - souma_yuzukiとの深い絆エンディング");
    assert_eq!(service.determine_ending("kai"), "Normal Ending - 平凡エンディング");
    service.relationship_service.modify_relationship("kai", "retsuji", -50);
    assert_eq!(service.determine_ending("kai"), "Bad Ending - 孤独エンディング");
    service.relationship_service.modify_relationship("kai", "retsuji", 1);
    assert_eq!(service.determine_ending("kai"), "Normal Ending - 平凡エンディング");
}

#[test]
fn ending_goes_by_the_best_relationship() {
    let mut service = GameProgressService::new();
    service.relationship_service.modify_relationship("souma", "kai", -80);
    service.relationship_service.modify_relationship("souma", "yuzuki", 60);
    service.relationship_service.modify_relationship("souma", "retsuji", 20);
    assert_eq!(service.determine_ending("souma"), "Good Ending - souma_yuzukiとの友情エンディング");
    assert_eq!(service.determine_ending("kai"), "Bad Ending - 孤独エンディング");
    service.relationship_service.modify_relationship("souma", "retsuji", 40);
    assert_eq!(service.determine_ending("souma"), "Good Ending - retsuji_soumaとの友情エンディング");
    assert_eq!(service.determine_ending("ou"), "Good Ending - retsuji_soumaとの友情エンディング");
    assert_eq!(service.determine_ending(""), "Good Ending - retsuji_soumaとの友情エンディング");
}

#[test]
fn stats_name_the_highest_and_the_lowest() {
    let mut service = GameProgressService::new();
    let stats = service.get_game_stats();
    assert_eq!(stats.total_relationships, 0);
    assert_eq!(stats.positive_relationships, 0);
    assert_eq!(stats.negative_relationships, 0);
    assert_eq!(stats.highest_relationship, None);
    assert_eq!(stats.lowest_relationship, None);

    service.relationship_service.modify_relationship("souma", "yuzuki", 50);
    service.relationship_service.modify_relationship("souma", "kai", -30);
    service.relationship_service.modify_relationship("yuzuki", "kai", 20);
    service.relationship_service.modify_relationship("a", "b", 0);
    service.relationship_service.modify_relationship("c", "d", 50);
    service.relationship_service.modify_relationship("e", "f", -30);
    let stats = service.get_game_stats();
    assert_eq!(stats.total_relationships, 6);
    assert_eq!(stats.positive_relationships, 3);
    assert_eq!(stats.negative_relationships, 2);
    assert_eq!(stats.highest_relationship, Some(("c_d".to_string(), 50)));
    assert_eq!(stats.lowest_relationship, Some(("kai_souma".to_string(), -30)));
}

#[test]
fn level_between_two_characters() {
    let mut service = RelationshipService::new();
    assert_eq!(service.get_relationship_level("a", "b"), RelationshipLevel::Normal);
    assert!(service.get_all_relationships().is_empty());
    service.modify_relationship("a", "b", 50);
    assert_eq!(service.get_relationship_level("b", "a"), RelationshipLevel::Intimate);
    service.modify_relationship("a", "b", -51);
    assert_eq!(service.get_relationship_level("a", "b"), RelationshipLevel::Conflict);
    service.modify_relationship("a", "b", 1);
    assert_eq!(service.get_relationship_level("a", "b"), RelationshipLevel::Normal);
}

#[test]
fn different_pairs_never_share_a_relationship() {
    let mut service = RelationshipService::new();
    assert_eq!(service.modify_relationship("a_b", "c", 10), 10);
    assert_eq!(service.get_relationship_value("a", "b_c"), 0);
    assert_eq!(service.get_relationship_value("b_c", "a"), 0);
    assert_eq!(service.get_relationship_value("c", "a_b"), 10);
    assert_eq!(service.get_relationship_level("a", "b_c"), RelationshipLevel::Normal);
    assert_eq!(service.modify_relationship("b_c", "a", -5), -5);
    assert_eq!(service.get_relationship_value("a_b", "c"), 10);
    assert_eq!(service.get_relationship_value("a", "b_c"), -5);
    assert_eq!(service.get_relationship("a", "b_c").character_a, "b_c");
    assert_eq!(service.get_relationship("c", "a_b").character_a, "a_b");
    assert_eq!(service.create_relationship_key("a_b", "c"), "a_b_c");
    assert_eq!(service.create_relationship_key("a", "b_c"), "a_b_c");
    assert_eq!(
        service.get_all_relationships(),
        vec![("a_b_c".to_string(), 10), ("a_b_c".to_string(), -5)]
    );
}

#[test]
fn a_pair_of_one_character_and_pairs_with_empty_names() {
    let mut service = RelationshipService::new();
    assert_eq!(service.modify_relationship("a", "a", 3), 3);
    assert_eq!(service.modify_relationship("", "a_a", 4), 4);
    assert_eq!(service.modify_relationship("a_a", "", 4), 8);
    assert_eq!(service.modify_relationship("a_", "a", 1), 1);
    assert_eq!(service.get_relationship_value("a", "a"), 3);
    assert_eq!(service.get_relationship_value("a", "a_"), 1);
    assert_eq!(service.get_all_relationships().len(), 3);
}

#[test]
fn battle_starts_with_the_eligibility_given() {
    let mut relationships = RelationshipService::new();
    relationships.modify_relationship("kai", "yuzuki", -40);
    let mut service = BattleService::new(relationships);
    let party = service.start_battle_with_eligibility("kai", "yuzuki", true);
    assert_eq!(party.character_a, "kai");
    assert_eq!(party.character_b, "yuzuki");
    assert_eq!(party.relationship.value(), -40);
    assert!(party.conflict_eligible);
    assert_eq!(party.available_skills().len(), 3);
    let party = service.start_battle_with_eligibility("souma", "yuzuki", false);
    assert!(!party.conflict_eligible);
    assert_eq!(party.relationship.value(), 0);
    assert!(service.start_battle("souma", "yuzuki").conflict_eligible);
}
