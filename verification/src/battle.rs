//! The rules of battle for a party of two: which skills the relationship
//! between the two opens, and what a skill does.
//!
//! A bonus is counted in thousandths, so that damage is computed in whole
//! numbers.

use vstd::prelude::*;
use crate::relationship::{
    level_name, level_of, Relationship, RelationshipLevel, RelationshipView,
};
use crate::text::{contains, lowercase_of};
use crate::text::{includes, to_chars, to_lowercase};

verus! {

/// The kinds of skill.
#[derive(Debug, Clone, Copy, PartialEq, Eq, Structural)]
pub enum SkillType {
    /// Usable whatever the relationship.
    Normal,
    /// Usable by two who are close.
    Cooperation,
    /// Usable by two who are in conflict.
    Conflict,
}

/// The level that a skill of the given kind requires, if it requires one.
pub open spec fn required_level_of(skill_type: SkillType) -> Option<RelationshipLevel> {
    match skill_type {
        SkillType::Normal => None,
        SkillType::Cooperation => Some(RelationshipLevel::Intimate),
        SkillType::Conflict => Some(RelationshipLevel::Conflict),
    }
}

/// A skill.
#[derive(Debug)]
pub struct BattleSkill {
    pub name: String,
    pub skill_type: SkillType,
    pub base_power: u32,
    pub description: String,
    /// The level at which the skill can be used; `None` if at any.
    pub required_level: Option<RelationshipLevel>,
}

/// What a [`BattleSkill`] holds, as mathematical values.
pub struct BattleSkillView {
    pub name: Seq<char>,
    pub skill_type: SkillType,
    pub base_power: u32,
    pub description: Seq<char>,
    pub required_level: Option<RelationshipLevel>,
}

impl BattleSkillView {
    /// The skill of the given name, kind, power and description, with the
    /// level that its kind requires.
    pub open spec fn of(
        name: Seq<char>,
        skill_type: SkillType,
        base_power: u32,
        description: Seq<char>,
    ) -> BattleSkillView {
        BattleSkillView {
            name,
            skill_type,
            base_power,
            description,
            required_level: required_level_of(skill_type),
        }
    }

    /// Whether the skill requires the level that its kind requires.
    pub open spec fn is_regular(self) -> bool {
        self.required_level == required_level_of(self.skill_type)
    }

    /// Whether the skill can be used at `level`: it requires no level, or
    /// exactly this one.
    pub open spec fn usable_at(self, level: RelationshipLevel) -> bool {
        match self.required_level {
            None => true,
            Some(required) => required == level,
        }
    }
}

impl View for BattleSkill {
    type V = BattleSkillView;

    open spec fn view(&self) -> BattleSkillView {
        BattleSkillView {
            name: self.name@,
            skill_type: self.skill_type,
            base_power: self.base_power,
            description: self.description@,
            required_level: self.required_level,
        }
    }
}

impl DeepView for BattleSkill {
    type V = BattleSkillView;

    open spec fn deep_view(&self) -> BattleSkillView {
        self@
    }
}

impl Clone for BattleSkill {
    fn clone(&self) -> (r: Self)
        ensures
            r@ == self@,
    {
        BattleSkill {
            name: self.name.clone(),
            skill_type: self.skill_type,
            base_power: self.base_power,
            description: self.description.clone(),
            required_level: self.required_level,
        }
    }
}

impl BattleSkill {
    /// A skill of the given kind, which requires the level that belongs to
    /// the kind.
    pub fn new(name: &str, skill_type: SkillType, base_power: u32, description: &str) -> (r: Self)
        ensures
            r@ == BattleSkillView::of(name@, skill_type, base_power, description@),
    {
        let required_level = match skill_type {
            SkillType::Normal => None,
            SkillType::Cooperation => Some(RelationshipLevel::Intimate),
            SkillType::Conflict => Some(RelationshipLevel::Conflict),
        };
        BattleSkill {
            name: String::from_str(name),
            skill_type,
            base_power,
            description: String::from_str(description),
            required_level,
        }
    }

    /// Whether the skill can be used at `relationship_level`.
    pub fn can_use(&self, relationship_level: RelationshipLevel) -> (b: bool)
        ensures
            b == self@.usable_at(relationship_level),
    {
        match self.required_level {
            None => true,
            Some(required) => required == relationship_level,
        }
    }
}

/// A skill of a kind's own level is usable exactly so: a normal skill
/// always, a cooperation skill between two who are close and at no other
/// level, a conflict skill between two in conflict and at no other level.
pub proof fn lemma_skill_gating(skill: BattleSkillView, level: RelationshipLevel)
    requires
        skill.is_regular(),
    ensures
        skill.skill_type == SkillType::Normal ==> skill.usable_at(level),
        skill.skill_type == SkillType::Cooperation ==> (skill.usable_at(level) <==> level
            == RelationshipLevel::Intimate),
        skill.skill_type == SkillType::Conflict ==> (skill.usable_at(level) <==> level
            == RelationshipLevel::Conflict),
{
}

/// The skills of a party are all usable at its level; the cooperation
/// skills are among them between two who are close and at no other level,
/// the conflict skills between two in conflict of whom the first is
/// eligible, and in no other case.
pub proof fn lemma_skills_fit_level(level: RelationshipLevel, conflict_eligible: bool)
    ensures
        forall|i: int|
            0 <= i < skills_at(level, conflict_eligible).len() ==> (#[trigger] skills_at(
                level,
                conflict_eligible,
            )[i]).usable_at(level) && skills_at(level, conflict_eligible)[i].is_regular(),
        (exists|i: int|
            0 <= i < skills_at(level, conflict_eligible).len() && (#[trigger] skills_at(
                level,
                conflict_eligible,
            )[i]).skill_type == SkillType::Cooperation) <==> level == RelationshipLevel::Intimate,
        (exists|i: int|
            0 <= i < skills_at(level, conflict_eligible).len() && (#[trigger] skills_at(
                level,
                conflict_eligible,
            )[i]).skill_type == SkillType::Conflict) <==> level == RelationshipLevel::Conflict
            && conflict_eligible,
{
    let skills = skills_at(level, conflict_eligible);
    if level == RelationshipLevel::Intimate {
        assert(skills[2].skill_type == SkillType::Cooperation);
    }
    if level == RelationshipLevel::Conflict && conflict_eligible {
        assert(skills[2].skill_type == SkillType::Conflict);
    }
}

/// The word that marks a character who fights alone when in conflict.
pub open spec fn conflict_fighter_mark() -> Seq<char> {
    "souma"@
}

/// Whether a character of this name, given in lower case, has the conflict
/// skill.
pub open spec fn marks_conflict_fighter(lowered: Seq<char>) -> bool {
    contains(lowered, conflict_fighter_mark())
}

/// The two who fight together, and how they stand to each other.
#[derive(Debug)]
pub struct BattleParty {
    pub character_a: String,
    pub character_b: String,
    pub relationship: Relationship,
    /// Whether the first character has the conflict skill.
    pub conflict_eligible: bool,
}

/// What a [`BattleParty`] holds, as mathematical values.
pub struct BattlePartyView {
    pub character_a: Seq<char>,
    pub character_b: Seq<char>,
    pub relationship: RelationshipView,
    pub conflict_eligible: bool,
}

impl View for BattleParty {
    type V = BattlePartyView;

    open spec fn view(&self) -> BattlePartyView {
        BattlePartyView {
            character_a: self.character_a@,
            character_b: self.character_b@,
            relationship: self.relationship@,
            conflict_eligible: self.conflict_eligible,
        }
    }
}

impl Clone for BattleParty {
    fn clone(&self) -> (r: Self)
        ensures
            r@ == self@,
    {
        BattleParty {
            character_a: self.character_a.clone(),
            character_b: self.character_b.clone(),
            relationship: self.relationship.clone(),
            conflict_eligible: self.conflict_eligible,
        }
    }
}

/// What came of using a skill.
#[derive(Debug)]
pub struct BattleResult {
    pub skill_used: BattleSkill,
    pub final_damage: u32,
    /// The bonus that the relationship gave, in thousandths of the base
    /// power.
    pub relationship_bonus_permille: u32,
    pub is_cooperative_attack: bool,
}

/// What a [`BattleResult`] holds, as mathematical values.
pub struct BattleResultView {
    pub skill_used: BattleSkillView,
    pub final_damage: u32,
    pub relationship_bonus_permille: u32,
    pub is_cooperative_attack: bool,
}

impl View for BattleResult {
    type V = BattleResultView;

    open spec fn view(&self) -> BattleResultView {
        BattleResultView {
            skill_used: self.skill_used@,
            final_damage: self.final_damage,
            relationship_bonus_permille: self.relationship_bonus_permille,
            is_cooperative_attack: self.is_cooperative_attack,
        }
    }
}

impl Clone for BattleResult {
    fn clone(&self) -> (r: Self)
        ensures
            r@ == self@,
    {
        BattleResult {
            skill_used: self.skill_used.clone(),
            final_damage: self.final_damage,
            relationship_bonus_permille: self.relationship_bonus_permille,
            is_cooperative_attack: self.is_cooperative_attack,
        }
    }
}

/// Why a skill had no effect.
#[derive(Debug)]
pub enum BattleError {
    /// The skill requires another level than the party's.
    SkillNotUsable { skill_name: String, level: RelationshipLevel },
}

/// What a [`BattleError`] holds, as mathematical values.
pub enum BattleErrorView {
    SkillNotUsable { skill_name: Seq<char>, level: RelationshipLevel },
}

impl View for BattleError {
    type V = BattleErrorView;

    open spec fn view(&self) -> BattleErrorView {
        match *self {
            BattleError::SkillNotUsable { skill_name, level } => BattleErrorView::SkillNotUsable {
                skill_name: skill_name@,
                level,
            },
        }
    }
}

/// The text that reports a battle error.
pub open spec fn battle_error_text(error: BattleErrorView) -> Seq<char> {
    match error {
        BattleErrorView::SkillNotUsable { skill_name, level } => "技「"@ + skill_name
            + "」は現在の関係値（"@ + level_name(level) + "）では使用できません"@,
    }
}

impl BattleError {
    /// The text that reports this error.
    pub fn message(&self) -> (r: String)
        ensures
            r@ == battle_error_text(self@),
    {
        match self {
            BattleError::SkillNotUsable { skill_name, level } => String::from_str("技「").concat(
                skill_name.as_str(),
            ).concat("」は現在の関係値（").concat(level.name()).concat("）では使用できません"),
        }
    }
}

/// The two skills that every party has.
pub open spec fn base_skills() -> Seq<BattleSkillView> {
    seq![
        BattleSkillView::of("基本攻撃"@, SkillType::Normal, 100, "基本的な攻撃技"@),
        BattleSkillView::of("防御"@, SkillType::Normal, 50, "防御態勢を取る"@),
    ]
}

/// The skills that being close opens.
pub open spec fn cooperation_skills() -> Seq<BattleSkillView> {
    seq![
        BattleSkillView::of(
            "コンビネーション・アタック"@,
            SkillType::Cooperation,
            200,
            "息の合った連携攻撃"@,
        ),
        BattleSkillView::of(
            "ダブル・ストライク"@,
            SkillType::Cooperation,
            180,
            "同時攻撃による強力な一撃"@,
        ),
    ]
}

/// The skills that being in conflict opens to one who has them.
pub open spec fn conflict_skills() -> Seq<BattleSkillView> {
    seq![
        BattleSkillView::of("怒りの一撃"@, SkillType::Conflict, 150, "怒りの力で繰り出す強力な攻撃"@),
    ]
}

/// The skills of a party at `level`: the base skills, then the cooperation
/// skills if the two are close, or the conflict skills if they are in
/// conflict and the first of them is eligible.
pub open spec fn skills_at(level: RelationshipLevel, conflict_eligible: bool) -> Seq<
    BattleSkillView,
> {
    match level {
        RelationshipLevel::Intimate => base_skills() + cooperation_skills(),
        RelationshipLevel::Conflict => if conflict_eligible {
            base_skills() + conflict_skills()
        } else {
            base_skills()
        },
        RelationshipLevel::Normal => base_skills(),
    }
}

/// The bonus, in thousandths, that a relationship of `value` gives to a
/// skill of the given kind.
pub open spec fn bonus_permille(skill_type: SkillType, value: int) -> int {
    match skill_type {
        SkillType::Cooperation => if value >= 75 {
            500
        } else if value >= 50 {
            300
        } else {
            0
        },
        SkillType::Conflict => if value <= -75 {
            400
        } else if value <= -50 {
            200
        } else {
            0
        },
        SkillType::Normal => if value < 0 {
            -value
        } else {
            value
        },
    }
}

/// The damage of a skill of power `base_power` under a bonus of `bonus`
/// thousandths, rounded down; the largest `u32` if it is above that.
pub open spec fn damage(base_power: int, bonus: int) -> int {
    let exact = base_power * (1000 + bonus) / 1000;
    if exact > u32::MAX {
        u32::MAX as int
    } else {
        exact
    }
}

/// What comes of a party with the relationship `relationship` using
/// `skill`, where the skill can be used.
pub open spec fn outcome(relationship: RelationshipView, skill: BattleSkillView) -> BattleResultView {
    let bonus = bonus_permille(skill.skill_type, relationship.value);
    BattleResultView {
        skill_used: skill,
        final_damage: damage(skill.base_power as int, bonus) as u32,
        relationship_bonus_permille: bonus as u32,
        is_cooperative_attack: skill.skill_type == SkillType::Cooperation,
    }
}

/// What `r` holds, as mathematical values.
pub open spec fn battle_result_view(r: Result<BattleResult, BattleError>) -> Result<
    BattleResultView,
    BattleErrorView,
> {
    match r {
        Ok(result) => Ok(result@),
        Err(error) => Err(error@),
    }
}

impl BattleParty {
    /// A party of two whose relationship is fresh. The first character has
    /// the conflict skill if the name, in lower case, holds the mark of a
    /// conflict fighter.
    pub fn new(character_a: &str, character_b: &str) -> (r: Self)
        ensures
            r@ == (BattlePartyView {
                character_a: character_a@,
                character_b: character_b@,
                relationship: RelationshipView::fresh(character_a@, character_b@),
                conflict_eligible: marks_conflict_fighter(lowercase_of(character_a@)),
            }),
    {
        let lowered = to_lowercase(character_a);
        BattleParty::with_conflict_eligibility(
            character_a,
            character_b,
            BattleParty::is_conflict_fighter(lowered.as_str()),
        )
    }

    /// A party of two whose relationship is fresh, and of whom the first has
    /// the conflict skill if `conflict_eligible` says so.
    pub fn with_conflict_eligibility(
        character_a: &str,
        character_b: &str,
        conflict_eligible: bool,
    ) -> (r: Self)
        ensures
            r@ == (BattlePartyView {
                character_a: character_a@,
                character_b: character_b@,
                relationship: RelationshipView::fresh(character_a@, character_b@),
                conflict_eligible,
            }),
    {
        BattleParty {
            character_a: String::from_str(character_a),
            character_b: String::from_str(character_b),
            relationship: Relationship::new(character_a, character_b),
            conflict_eligible,
        }
    }

    /// Whether a character of this name, given in lower case, has the
    /// conflict skill.
    pub fn is_conflict_fighter(lowered: &str) -> (b: bool)
        ensures
            b == marks_conflict_fighter(lowered@),
    {
        includes(&to_chars(lowered), &to_chars("souma"))
    }

    /// The skills that the party can use now.
    pub fn available_skills(&self) -> (skills: Vec<BattleSkill>)
        ensures
            skills.deep_view() == skills_at(
                level_of(self.relationship.value as int),
                self.conflict_eligible,
            ),
    {
        let mut skills: Vec<BattleSkill> = Vec::new();
        skills.push(BattleSkill::new("基本攻撃", SkillType::Normal, 100, "基本的な攻撃技"));
        skills.push(BattleSkill::new("防御", SkillType::Normal, 50, "防御態勢を取る"));
        assert(skills.deep_view() == base_skills());
        match self.relationship.level() {
            RelationshipLevel::Intimate => {
                skills.push(
                    BattleSkill::new(
                        "コンビネーション・アタック",
                        SkillType::Cooperation,
                        200,
                        "息の合った連携攻撃",
                    ),
                );
                skills.push(
                    BattleSkill::new(
                        "ダブル・ストライク",
                        SkillType::Cooperation,
                        180,
                        "同時攻撃による強力な一撃",
                    ),
                );
                assert(skills.deep_view() == base_skills() + cooperation_skills());
            },
            RelationshipLevel::Conflict => {
                if self.conflict_eligible {
                    skills.push(
                        BattleSkill::new(
                            "怒りの一撃",
                            SkillType::Conflict,
                            150,
                            "怒りの力で繰り出す強力な攻撃",
                        ),
                    );
                    assert(skills.deep_view() == base_skills() + conflict_skills());
                }
            },
            RelationshipLevel::Normal => {},
        }
        skills
    }

    /// The bonus, in thousandths, that the party's relationship gives to a
    /// skill of the given kind.
    pub fn relationship_bonus_permille(&self, skill_type: SkillType) -> (bonus: u32)
        ensures
            bonus == bonus_permille(skill_type, self.relationship.value as int),
    {
        let value: i64 = self.relationship.value() as i64;
        match skill_type {
            SkillType::Cooperation => {
                if value >= 75 {
                    500
                } else if value >= 50 {
                    300
                } else {
                    0
                }
            },
            SkillType::Conflict => {
                if value <= -75 {
                    400
                } else if value <= -50 {
                    200
                } else {
                    0
                }
            },
            SkillType::Normal => {
                if value < 0 {
                    (-value) as u32
                } else {
                    value as u32
                }
            },
        }
    }

    /// Uses `skill`. The skill has an effect if it can be used at the
    /// party's level, and only then.
    pub fn execute_skill(&self, skill: &BattleSkill) -> (r: Result<BattleResult, BattleError>)
        ensures
            battle_result_view(r) == if skill@.usable_at(level_of(self.relationship.value as int)) {
                Ok::<BattleResultView, BattleErrorView>(outcome(self.relationship@, skill@))
            } else {
                Err(
                    BattleErrorView::SkillNotUsable {
                        skill_name: skill.name@,
                        level: level_of(self.relationship.value as int),
                    },
                )
            },
    {
        let level = self.relationship.level();
        if !skill.can_use(level) {
            return Err(BattleError::SkillNotUsable { skill_name: skill.name.clone(), level });
        }
        let bonus = self.relationship_bonus_permille(skill.skill_type);
        let power: u128 = skill.base_power as u128;
        let factor: u128 = 1000 + bonus as u128;
        assert(power * factor <= 0xffff_ffff * 0x1_0000_03e7) by (nonlinear_arith)
            requires
                power <= 0xffff_ffff,
                factor <= 0x1_0000_03e7,
        ;
        let exact: u128 = power * factor / 1000;
        let final_damage: u32 = if exact > 0xffff_ffff {
            0xffff_ffff
        } else {
            exact as u32
        };
        Ok(
            BattleResult {
                skill_used: skill.clone(),
                final_damage,
                relationship_bonus_permille: bonus,
                is_cooperative_attack: skill.skill_type == SkillType::Cooperation,
            },
        )
    }
}

} // verus!
