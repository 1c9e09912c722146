//! The services that the game is run through: the store of relationships,
//! battles that read and feed it, and the progress of the story.

use vstd::prelude::*;
use crate::battle::{
    battle_result_view, outcome, BattleError, BattleErrorView, BattleParty, BattlePartyView,
    BattleResult, BattleResultView, BattleSkill,
};
use crate::character::{CharacterRegistry, CharacterView};
use crate::relationship::{
    clamp_value, level_name, level_of, Relationship, RelationshipLevel, RelationshipView,
};
use crate::text::{contains, lex_le, signed_decimal};
use crate::text::{comes_first, format_i32, includes, to_chars, to_string};

verus! {

/// Whether `a` and `b` are the same two characters as `c` and `d`, in
/// either order.
pub open spec fn same_characters(a: Seq<char>, b: Seq<char>, c: Seq<char>, d: Seq<char>) -> bool {
    (a == c && b == d) || (a == d && b == c)
}

/// The two names `a` and `b` in the order of [`lex_le`]. Two characters are
/// kept as this pair, whichever of them is named first.
pub open spec fn ordered_pair(a: Seq<char>, b: Seq<char>) -> (Seq<char>, Seq<char>) {
    if lex_le(a, b) {
        (a, b)
    } else {
        (b, a)
    }
}

/// The text that stands for the relationship of `a` and `b` in reports: the
/// two names in the order of [`lex_le`], with `_` between them. Nothing is
/// looked up by it.
pub open spec fn relationship_key(a: Seq<char>, b: Seq<char>) -> Seq<char> {
    ordered_pair(a, b).0 + "_"@ + ordered_pair(a, b).1
}

/// A relationship as the store keeps it: under the two names, in order.
#[derive(Debug)]
struct RelationshipEntry {
    first: String,
    second: String,
    relationship: Relationship,
}

/// A relationship as the store keeps it, as mathematical values.
pub struct RelationshipEntryView {
    /// The name that comes first in the order of [`lex_le`].
    pub first: Seq<char>,
    /// The other name.
    pub second: Seq<char>,
    pub relationship: RelationshipView,
}

impl RelationshipEntryView {
    /// The two names that the entry is kept under.
    pub open spec fn names(self) -> (Seq<char>, Seq<char>) {
        (self.first, self.second)
    }

    /// The text that stands for the entry in reports.
    pub open spec fn key(self) -> Seq<char> {
        self.first + "_"@ + self.second
    }
}

impl View for RelationshipEntry {
    type V = RelationshipEntryView;

    closed spec fn view(&self) -> RelationshipEntryView {
        RelationshipEntryView {
            first: self.first@,
            second: self.second@,
            relationship: self.relationship@,
        }
    }
}

impl DeepView for RelationshipEntry {
    type V = RelationshipEntryView;

    closed spec fn deep_view(&self) -> RelationshipEntryView {
        self@
    }
}

/// How many of `entries` stand before the first one kept under the names
/// `pair`; the length of `entries` if none is kept under them.
pub open spec fn position_of_pair(
    entries: Seq<RelationshipEntryView>,
    pair: (Seq<char>, Seq<char>),
) -> nat
    decreases entries.len(),
{
    if entries.len() == 0 || entries[0].names() == pair {
        0
    } else {
        1 + position_of_pair(entries.drop_first(), pair)
    }
}

/// Whether `entries` hold a relationship of `a` and `b`.
pub open spec fn has_pair(entries: Seq<RelationshipEntryView>, a: Seq<char>, b: Seq<char>) -> bool {
    position_of_pair(entries, ordered_pair(a, b)) < entries.len()
}

/// The relationship of `a` and `b` according to `entries`: the one kept
/// under the two names, or a fresh one if none is kept.
pub open spec fn relationship_between(
    entries: Seq<RelationshipEntryView>,
    a: Seq<char>,
    b: Seq<char>,
) -> RelationshipView {
    if has_pair(entries, a, b) {
        entries[position_of_pair(entries, ordered_pair(a, b)) as int].relationship
    } else {
        RelationshipView::fresh(a, b)
    }
}

/// The value of the relationship of `a` and `b` according to `entries`: that
/// of the entry kept under the two names, and 0 where none is kept.
pub open spec fn value_between(entries: Seq<RelationshipEntryView>, a: Seq<char>, b: Seq<char>) -> int {
    if has_pair(entries, a, b) {
        entries[position_of_pair(entries, ordered_pair(a, b)) as int].relationship.value
    } else {
        0
    }
}

/// `entries` with `relationship` kept for `a` and `b`: in the place of the
/// one that was kept under the two names, or after all of them if none was.
pub open spec fn with_relationship(
    entries: Seq<RelationshipEntryView>,
    a: Seq<char>,
    b: Seq<char>,
    relationship: RelationshipView,
) -> Seq<RelationshipEntryView> {
    let pair = ordered_pair(a, b);
    let entry = RelationshipEntryView { first: pair.0, second: pair.1, relationship };
    if has_pair(entries, a, b) {
        entries.update(position_of_pair(entries, pair) as int, entry)
    } else {
        entries.push(entry)
    }
}

/// Whether no two of `entries` are kept under the same two names, and the
/// names of each are in order.
pub open spec fn pairs_distinct(entries: Seq<RelationshipEntryView>) -> bool {
    &&& forall|i: int, j: int|
        0 <= i < j < entries.len() ==> (#[trigger] entries[i]).names() != (
        #[trigger] entries[j]).names()
    &&& forall|i: int|
        0 <= i < entries.len() ==> lex_le((#[trigger] entries[i]).first, entries[i].second)
}

/// The place that [`position_of_pair`] gives lies within `entries` or at
/// their end, no entry before it is kept under `pair`, and the one at it is.
pub proof fn lemma_position_of_pair(entries: Seq<RelationshipEntryView>, pair: (Seq<char>, Seq<char>))
    ensures
        position_of_pair(entries, pair) <= entries.len(),
        forall|i: int|
            0 <= i < position_of_pair(entries, pair) ==> (#[trigger] entries[i]).names() != pair,
        position_of_pair(entries, pair) < entries.len() ==> entries[position_of_pair(
            entries,
            pair,
        ) as int].names() == pair,
    decreases entries.len(),
{
    if entries.len() > 0 && entries[0].names() != pair {
        let rest = entries.drop_first();
        lemma_position_of_pair(rest, pair);
        assert forall|i: int| 0 <= i < position_of_pair(entries, pair) implies (
        #[trigger] entries[i]).names() != pair by {
            if i > 0 {
                assert(entries[i] == rest[i - 1]);
            }
        }
        if position_of_pair(entries, pair) < entries.len() {
            assert(entries[position_of_pair(entries, pair) as int] == rest[position_of_pair(
                rest,
                pair,
            ) as int]);
        }
    }
}

/// A place `k` before which no entry is kept under `pair`, and at which
/// `entries` end or one is kept under it, is the one that
/// [`position_of_pair`] gives.
pub proof fn lemma_position_of_pair_is(
    entries: Seq<RelationshipEntryView>,
    pair: (Seq<char>, Seq<char>),
    k: int,
)
    requires
        0 <= k <= entries.len(),
        forall|i: int| 0 <= i < k ==> (#[trigger] entries[i]).names() != pair,
        k < entries.len() ==> entries[k].names() == pair,
    ensures
        position_of_pair(entries, pair) == k,
    decreases entries.len(),
{
    if k > 0 {
        let rest = entries.drop_first();
        assert(entries[0].names() != pair);
        assert forall|i: int| 0 <= i < k - 1 implies (#[trigger] rest[i]).names() != pair by {
            assert(rest[i] == entries[i + 1]);
        }
        if k - 1 < rest.len() {
            assert(rest[k - 1] == entries[k]);
        }
        lemma_position_of_pair_is(rest, pair, k - 1);
    }
}

/// The pair of two characters does not depend on which is named first, and
/// its names are in order.
pub proof fn lemma_pair_symmetric(a: Seq<char>, b: Seq<char>)
    ensures
        ordered_pair(a, b) == ordered_pair(b, a),
        lex_le(ordered_pair(a, b).0, ordered_pair(a, b).1),
        relationship_key(a, b) == relationship_key(b, a),
{
    crate::text::lemma_lex_le_total(a, b);
    if lex_le(a, b) && lex_le(b, a) {
        crate::text::lemma_lex_le_antisymmetric(a, b);
    }
}

/// Two pairs of characters are kept as one if and only if they are the same
/// two characters, in either order. So no two different pairs share a
/// relationship, however their names are spelled.
pub proof fn lemma_same_pair(a: Seq<char>, b: Seq<char>, c: Seq<char>, d: Seq<char>)
    ensures
        ordered_pair(a, b) == ordered_pair(c, d) <==> same_characters(a, b, c, d),
{
    lemma_pair_symmetric(a, b);
    lemma_pair_symmetric(c, d);
}

/// The value between two characters is the same whichever is named first.
pub proof fn lemma_value_symmetric(entries: Seq<RelationshipEntryView>, a: Seq<char>, b: Seq<char>)
    ensures
        value_between(entries, a, b) == value_between(entries, b, a),
{
    lemma_pair_symmetric(a, b);
}

/// Once a relationship is kept for two characters, its value is read back
/// under their names in either order, and a store that kept each pair once
/// still does.
pub proof fn lemma_value_after_keeping(
    entries: Seq<RelationshipEntryView>,
    a: Seq<char>,
    b: Seq<char>,
    relationship: RelationshipView,
)
    ensures
        value_between(with_relationship(entries, a, b, relationship), a, b) == relationship.value,
        value_between(with_relationship(entries, a, b, relationship), b, a) == relationship.value,
        pairs_distinct(entries) ==> pairs_distinct(with_relationship(entries, a, b, relationship)),
{
    let pair = ordered_pair(a, b);
    let at = position_of_pair(entries, pair) as int;
    let after = with_relationship(entries, a, b, relationship);
    lemma_pair_symmetric(a, b);
    lemma_position_of_pair(entries, pair);
    assert forall|i: int| 0 <= i < at implies (#[trigger] after[i]).names() != pair by {
        assert(after[i] == entries[i]);
    }
    assert(after[at].names() == pair);
    lemma_position_of_pair_is(after, pair, at);
    if pairs_distinct(entries) {
        assert forall|i: int, j: int| 0 <= i < j < after.len() implies (#[trigger] after[i]).names()
            != (#[trigger] after[j]).names() by {
            if at < entries.len() {
                assert(after[i].names() == entries[i].names());
                assert(after[j].names() == entries[j].names());
            } else {
                assert(after[i] == entries[i]);
                if j < entries.len() {
                    assert(after[j] == entries[j]);
                }
            }
        }
        assert forall|i: int| 0 <= i < after.len() implies lex_le(
            (#[trigger] after[i]).first,
            after[i].second,
        ) by {
            if i != at {
                assert(after[i] == entries[i]);
            }
        }
    }
}

/// Keeping a relationship for two characters changes nothing between any
/// other two: a different pair reads what it read before.
pub proof fn lemma_other_pairs_untouched(
    entries: Seq<RelationshipEntryView>,
    a: Seq<char>,
    b: Seq<char>,
    relationship: RelationshipView,
    c: Seq<char>,
    d: Seq<char>,
)
    requires
        !same_characters(a, b, c, d),
    ensures
        value_between(with_relationship(entries, a, b, relationship), c, d) == value_between(
            entries,
            c,
            d,
        ),
        relationship_between(with_relationship(entries, a, b, relationship), c, d)
            == relationship_between(entries, c, d),
{
    let kept = ordered_pair(a, b);
    let other = ordered_pair(c, d);
    let at = position_of_pair(entries, kept) as int;
    let k = position_of_pair(entries, other) as int;
    let after = with_relationship(entries, a, b, relationship);
    lemma_same_pair(a, b, c, d);
    lemma_position_of_pair(entries, kept);
    lemma_position_of_pair(entries, other);
    assert(after[at].names() == kept);
    if k < entries.len() {
        assert(k != at);
        assert(after[k] == entries[k]);
        assert forall|i: int| 0 <= i < k implies (#[trigger] after[i]).names() != other by {
            if i != at {
                assert(after[i] == entries[i]);
            }
        }
        lemma_position_of_pair_is(after, other, k);
    } else {
        assert forall|i: int| 0 <= i < after.len() implies (#[trigger] after[i]).names()
            != other by {
            if i != at {
                assert(after[i] == entries[i]);
            }
        }
        lemma_position_of_pair_is(after, other, after.len() as int);
    }
}

/// The relationship of the entry at place `at`, to be changed in place.
fn relationship_at(entries: &mut Vec<RelationshipEntry>, at: usize) -> (r: &mut Relationship)
    requires
        at < old(entries).len(),
    ensures
        r@ == old(entries).deep_view()[at as int].relationship,
        final(entries).deep_view() == old(entries).deep_view().update(
            at as int,
            RelationshipEntryView {
                first: old(entries).deep_view()[at as int].first,
                second: old(entries).deep_view()[at as int].second,
                relationship: final(r)@,
            },
        ),
{
    &mut entries[at].relationship
}

/// The two names in the order of [`lex_le`].
fn ordered(character_a: &str, character_b: &str) -> (pair: (String, String))
    ensures
        (pair.0@, pair.1@) == ordered_pair(character_a@, character_b@),
{
    if comes_first(&to_chars(character_a), &to_chars(character_b)) {
        (String::from_str(character_a), String::from_str(character_b))
    } else {
        (String::from_str(character_b), String::from_str(character_a))
    }
}

/// The store of all relationships, each kept under the names of its two
/// characters.
#[derive(Debug)]
pub struct RelationshipService {
    relationships: Vec<RelationshipEntry>,
}

impl View for RelationshipService {
    type V = Seq<RelationshipEntryView>;

    closed spec fn view(&self) -> Seq<RelationshipEntryView> {
        self.relationships.deep_view()
    }
}

impl Default for RelationshipService {
    /// A store without relationships.
    fn default() -> (r: Self)
        ensures
            r@ == Seq::<RelationshipEntryView>::empty(),
            r.well_formed(),
    {
        RelationshipService::new()
    }
}

impl RelationshipService {
    /// Whether the store keeps at most one relationship for each two
    /// characters. A new store does, and no operation on a store that does
    /// ends in one that does not.
    pub open spec fn well_formed(&self) -> bool {
        pairs_distinct(self@)
    }

    /// A store without relationships.
    pub fn new() -> (r: Self)
        ensures
            r@ == Seq::<RelationshipEntryView>::empty(),
            r.well_formed(),
    {
        let r = RelationshipService { relationships: Vec::new() };
        assert(r.relationships.deep_view() == Seq::<RelationshipEntryView>::empty());
        r
    }

    /// The place of the first relationship kept under the two names.
    fn position(&self, first: &String, second: &String) -> (at: usize)
        ensures
            at == position_of_pair(self@, (first@, second@)),
            at <= self.relationships.len(),
            self.relationships.len() == self@.len(),
            at < self.relationships.len() ==> self.relationships[at as int]@ == self@[at as int],
    {
        let ghost pair = (first@, second@);
        let mut i: usize = 0;
        while i < self.relationships.len()
            invariant
                i <= self.relationships.len(),
                pair == (first@, second@),
                forall|j: int| 0 <= j < i ==> (#[trigger] self@[j]).names() != pair,
            decreases self.relationships.len() - i,
        {
            if self.relationships[i].first == *first && self.relationships[i].second == *second {
                proof {
                    assert(self@[i as int].names() == pair);
                    lemma_position_of_pair_is(self@, pair, i as int);
                }
                return i;
            }
            assert(self@[i as int].names() != pair);
            i += 1;
        }
        proof {
            lemma_position_of_pair_is(self@, pair, i as int);
        }
        i
    }

    /// The relationship of the two characters, which is created, fresh, if
    /// the store does not keep it yet. What the caller makes of it is what
    /// the store keeps from then on.
    pub fn get_relationship(&mut self, character_a: &str, character_b: &str) -> (r:
        &mut Relationship)
        ensures
            r@ == relationship_between(old(self)@, character_a@, character_b@),
            final(self)@ == with_relationship(old(self)@, character_a@, character_b@, final(r)@),
            old(self).well_formed() ==> final(self).well_formed(),
    {
        let (first, second) = ordered(character_a, character_b);
        let at = self.position(&first, &second);
        let ghost before = self@;
        let ghost pair = ordered_pair(character_a@, character_b@);
        proof {
            lemma_position_of_pair(before, pair);
        }
        if at == self.relationships.len() {
            self.relationships.push(
                RelationshipEntry {
                    first,
                    second,
                    relationship: Relationship::new(character_a, character_b),
                },
            );
        }
        let ghost kept = self.relationships.deep_view();
        proof {
            assert(kept[at as int].names() == pair);
            assert forall|x: RelationshipView|
                kept.update(
                    at as int,
                    RelationshipEntryView { first: pair.0, second: pair.1, relationship: x },
                ) == #[trigger] with_relationship(before, character_a@, character_b@, x) && (
                pairs_distinct(before) ==> pairs_distinct(
                    with_relationship(before, character_a@, character_b@, x),
                )) by {
                assert(kept.update(
                    at as int,
                    RelationshipEntryView { first: pair.0, second: pair.1, relationship: x },
                ) =~= with_relationship(before, character_a@, character_b@, x));
                lemma_value_after_keeping(before, character_a@, character_b@, x);
            }
        }
        relationship_at(&mut self.relationships, at)
    }

    /// Moves the value between the two characters by `delta`, and no further
    /// than its bounds. Returns the new value. Nothing changes between any
    /// other two characters.
    pub fn modify_relationship(&mut self, character_a: &str, character_b: &str, delta: i32) -> (v:
        i32)
        ensures
            v == clamp_value(value_between(old(self)@, character_a@, character_b@) + delta),
            final(self)@ == with_relationship(
                old(self)@,
                character_a@,
                character_b@,
                relationship_between(old(self)@, character_a@, character_b@).moved(delta as int),
            ),
            forall|c: Seq<char>, d: Seq<char>|
                !same_characters(character_a@, character_b@, c, d) ==> #[trigger] value_between(
                    final(self)@,
                    c,
                    d,
                ) == value_between(old(self)@, c, d),
            old(self).well_formed() ==> final(self).well_formed(),
    {
        let relationship = self.get_relationship(character_a, character_b);
        relationship.modify(delta);
        let v = relationship.value();
        proof {
            let moved = relationship_between(old(self)@, character_a@, character_b@).moved(
                delta as int,
            );
            assert forall|c: Seq<char>, d: Seq<char>|
                !same_characters(character_a@, character_b@, c, d) implies #[trigger] value_between(
                self@,
                c,
                d,
            ) == value_between(old(self)@, c, d) by {
                lemma_other_pairs_untouched(old(self)@, character_a@, character_b@, moved, c, d);
            }
        }
        v
    }

    /// The value between the two characters; 0 if the store keeps none.
    pub fn get_relationship_value(&self, character_a: &str, character_b: &str) -> (v: i32)
        ensures
            v == value_between(self@, character_a@, character_b@),
    {
        let (first, second) = ordered(character_a, character_b);
        let at = self.position(&first, &second);
        if at < self.relationships.len() {
            self.relationships[at].relationship.value()
        } else {
            0
        }
    }

    /// The level between the two characters; that of the value 0 if the
    /// store keeps none.
    pub fn get_relationship_level(&self, character_a: &str, character_b: &str) -> (level:
        RelationshipLevel)
        ensures
            level == level_of(value_between(self@, character_a@, character_b@)),
    {
        let value = self.get_relationship_value(character_a, character_b);
        if value < 0 {
            RelationshipLevel::Conflict
        } else if value < 50 {
            RelationshipLevel::Normal
        } else {
            RelationshipLevel::Intimate
        }
    }

    /// The text that stands for the relationship of the two characters in
    /// reports.
    pub fn create_relationship_key(&self, character_a: &str, character_b: &str) -> (key: String)
        ensures
            key@ == relationship_key(character_a@, character_b@),
    {
        let (first, second) = ordered(character_a, character_b);
        first.concat("_").concat(second.as_str())
    }

    /// Every relationship that the store keeps, as the text that stands for
    /// it and its value, in the order in which they were created.
    pub fn get_all_relationships(&self) -> (all: Vec<(String, i32)>)
        ensures
            all.deep_view().len() == self@.len(),
            forall|i: int|
                0 <= i < self@.len() ==> (#[trigger] all.deep_view()[i]) == (
                    self@[i].key(),
                    self@[i].relationship.value as i32,
                ),
            forall|i: int| 0 <= i < self@.len() ==> all[i].1 == self@[i].relationship.value,
    {
        let mut all: Vec<(String, i32)> = Vec::new();
        let mut i: usize = 0;
        while i < self.relationships.len()
            invariant
                i <= self.relationships.len(),
                all.len() == i,
                forall|j: int|
                    0 <= j < i ==> (#[trigger] all[j]).0@ == self@[j].key() && all[j].1
                        == self@[j].relationship.value,
            decreases self.relationships.len() - i,
        {
            let entry = &self.relationships[i];
            assert(entry@ == self@[i as int]);
            let key = entry.first.clone().concat("_").concat(entry.second.as_str());
            all.push((key, entry.relationship.value()));
            i += 1;
        }
        assert forall|i: int| 0 <= i < self@.len() implies (#[trigger] all.deep_view()[i]) == (
            self@[i].key(),
            self@[i].relationship.value as i32,
        ) by {
            assert(all[i].0@ == self@[i].key());
        }
        all
    }
}

/// The advice for a party at `level` whose relationship has the value
/// `value`.
pub open spec fn strategy_for(level: RelationshipLevel, value: int, conflict_eligible: bool) -> Seq<
    Seq<char>,
> {
    match level {
        RelationshipLevel::Intimate => seq![
            "協力技を積極的に使用しましょう"@,
            "コンビネーション攻撃で大ダメージを狙えます"@,
        ],
        RelationshipLevel::Conflict => if conflict_eligible {
            seq!["ソウマの対立技「怒りの一撃」が使用可能です"@, "関係修復を優先した方が良いかもしれません"@]
        } else {
            seq!["関係修復を優先した方が良いかもしれません"@]
        },
        RelationshipLevel::Normal => if value > 25 {
            seq!["もう少しで協力技が使えるようになります"@, "基本技で安定した戦闘を心がけましょう"@]
        } else {
            seq!["基本技で安定した戦闘を心がけましょう"@]
        },
    }
}

/// How much a cooperative attack moves the value between the two.
pub const COOPERATION_REWARD: i32 = 5;

/// Battles, which read the relationships and feed them.
#[derive(Debug)]
pub struct BattleService {
    relationship_service: RelationshipService,
}

impl BattleService {
    /// A battle service over the given store.
    pub fn new(relationship_service: RelationshipService) -> (r: Self)
        ensures
            r.relationships() == relationship_service@,
    {
        BattleService { relationship_service }
    }

    /// The relationships that the service works on.
    pub closed spec fn relationships(&self) -> Seq<RelationshipEntryView> {
        self.relationship_service@
    }

    /// Starts a battle of the two characters, of whom the first has the
    /// conflict skill if `conflict_eligible` says so: their party has the
    /// value that the store keeps between them.
    pub fn start_battle_with_eligibility(
        &mut self,
        character_a: &str,
        character_b: &str,
        conflict_eligible: bool,
    ) -> (party: BattleParty)
        ensures
            final(self).relationships() == old(self).relationships(),
            party@ == (BattlePartyView {
                character_a: character_a@,
                character_b: character_b@,
                relationship: RelationshipView::fresh(character_a@, character_b@).moved(
                    value_between(old(self).relationships(), character_a@, character_b@),
                ),
                conflict_eligible,
            }),
    {
        let mut party = BattleParty::with_conflict_eligibility(
            character_a,
            character_b,
            conflict_eligible,
        );
        let current_value = self.relationship_service.get_relationship_value(
            character_a,
            character_b,
        );
        party.relationship.modify(current_value);
        party
    }

    /// Starts a battle of the two characters: their party has the value
    /// that the store keeps between them. The first character has the
    /// conflict skill if the name says so, as in [`BattleParty::new`].
    pub fn start_battle(&mut self, character_a: &str, character_b: &str) -> (party: BattleParty)
        ensures
            final(self).relationships() == old(self).relationships(),
            party@.character_a == character_a@,
            party@.character_b == character_b@,
            party@.relationship == RelationshipView::fresh(character_a@, character_b@).moved(
                value_between(old(self).relationships(), character_a@, character_b@),
            ),
            party@.conflict_eligible == crate::battle::marks_conflict_fighter(
                crate::text::lowercase_of(character_a@),
            ),
    {
        let mut party = BattleParty::new(character_a, character_b);
        let current_value = self.relationship_service.get_relationship_value(
            character_a,
            character_b,
        );
        party.relationship.modify(current_value);
        party
    }

    /// Uses `skill` for `party`. A cooperative attack brings the two closer
    /// by [`COOPERATION_REWARD`]; a skill that cannot be used changes
    /// nothing.
    pub fn execute_skill_with_relationship_impact(
        &mut self,
        party: &BattleParty,
        skill: &BattleSkill,
    ) -> (r: Result<BattleResult, BattleError>)
        ensures
            battle_result_view(r) == if skill@.usable_at(
                level_of(party@.relationship.value),
            ) {
                Ok::<BattleResultView, BattleErrorView>(outcome(party@.relationship, skill@))
            } else {
                Err(
                    BattleErrorView::SkillNotUsable {
                        skill_name: skill@.name,
                        level: level_of(party@.relationship.value),
                    },
                )
            },
            final(self).relationships() == if r is Ok && skill@.skill_type
                == crate::battle::SkillType::Cooperation {
                with_relationship(
                    old(self).relationships(),
                    party@.character_a,
                    party@.character_b,
                    relationship_between(
                        old(self).relationships(),
                        party@.character_a,
                        party@.character_b,
                    ).moved(COOPERATION_REWARD as int),
                )
            } else {
                old(self).relationships()
            },
    {
        match party.execute_skill(skill) {
            Ok(result) => {
                if result.is_cooperative_attack {
                    self.relationship_service.modify_relationship(
                        party.character_a.as_str(),
                        party.character_b.as_str(),
                        COOPERATION_REWARD,
                    );
                }
                Ok(result)
            },
            Err(error) => Err(error),
        }
    }

    /// Advice for `party`, by its level.
    pub fn suggest_battle_strategy(&self, party: &BattleParty) -> (suggestions: Vec<String>)
        ensures
            suggestions.deep_view() == strategy_for(
                level_of(party@.relationship.value),
                party@.relationship.value,
                party@.conflict_eligible,
            ),
    {
        let mut suggestions: Vec<String> = Vec::new();
        let relationship_value = party.relationship.value();
        match party.relationship.level() {
            RelationshipLevel::Intimate => {
                suggestions.push(String::from_str("協力技を積極的に使用しましょう"));
                suggestions.push(String::from_str("コンビネーション攻撃で大ダメージを狙えます"));
            },
            RelationshipLevel::Conflict => {
                if party.conflict_eligible {
                    suggestions.push(String::from_str("ソウマの対立技「怒りの一撃」が使用可能です"));
                }
                suggestions.push(String::from_str("関係修復を優先した方が良いかもしれません"));
            },
            RelationshipLevel::Normal => {
                if relationship_value > 25 {
                    suggestions.push(String::from_str("もう少しで協力技が使えるようになります"));
                }
                suggestions.push(String::from_str("基本技で安定した戦闘を心がけましょう"));
            },
        }
        assert(suggestions.deep_view() == strategy_for(
            level_of(party@.relationship.value),
            party@.relationship.value,
            party@.conflict_eligible,
        ));
        suggestions
    }
}

/// The value from which two characters' intimate scene opens.
pub const INTIMATE_SCENE_VALUE: i32 = 75;

/// The report of a story event that moved the relationship of `a` and `b`
/// by `impact`, to `value`.
pub open spec fn story_event_text(
    event_type: Seq<char>,
    a: Seq<char>,
    b: Seq<char>,
    impact: int,
    value: int,
) -> Seq<char> {
    "【"@ + event_type + "】により、"@ + a + "と"@ + b + "の関係が"@ + (if impact > 0 {
        "向上"@
    } else {
        "悪化"@
    }) + "しました (現在: "@ + signed_decimal(value) + " / "@ + level_name(level_of(value)) + ")"@
}

/// The place of the relationship that decides the ending of `who`: among
/// the entries whose text in reports holds the name, the one of the highest
/// value, and of those the one created last.
pub open spec fn deciding_entry(entries: Seq<RelationshipEntryView>, who: Seq<char>) -> Option<int>
    decreases entries.len(),
{
    if entries.len() == 0 {
        None
    } else {
        let earlier = deciding_entry(entries.drop_last(), who);
        if !contains(entries.last().key(), who) {
            earlier
        } else {
            match earlier {
                Some(i) => if entries[i].relationship.value > entries.last().relationship.value {
                    Some(i)
                } else {
                    Some(entries.len() - 1)
                },
                None => Some(entries.len() - 1),
            }
        }
    }
}

/// The ending that the deciding relationship leads to.
pub open spec fn ending_for(deciding: Option<RelationshipEntryView>) -> Seq<char> {
    match deciding {
        Some(entry) => if entry.relationship.value >= 90 {
            "True Ending - "@ + entry.key() + "との深い絆エンディング"@
        } else if entry.relationship.value >= 50 {
            "Good Ending - "@ + entry.key() + "との友情エンディング"@
        } else if entry.relationship.value <= -50 {
            "Bad Ending - 孤独エンディング"@
        } else {
            "Normal Ending - 平凡エンディング"@
        },
        None => "Normal Ending - 平凡エンディング"@,
    }
}

/// The ending of `who` according to `entries`.
pub open spec fn ending_of(entries: Seq<RelationshipEntryView>, who: Seq<char>) -> Seq<char> {
    ending_for(
        match deciding_entry(entries, who) {
            Some(i) => Some(entries[i]),
            None => None,
        },
    )
}

/// How many of `entries` have a value above zero.
pub open spec fn positive_count(entries: Seq<RelationshipEntryView>) -> nat
    decreases entries.len(),
{
    if entries.len() == 0 {
        0
    } else {
        positive_count(entries.drop_last()) + if entries.last().relationship.value > 0 {
            1nat
        } else {
            0nat
        }
    }
}

/// How many of `entries` have a value below zero.
pub open spec fn negative_count(entries: Seq<RelationshipEntryView>) -> nat
    decreases entries.len(),
{
    if entries.len() == 0 {
        0
    } else {
        negative_count(entries.drop_last()) + if entries.last().relationship.value < 0 {
            1nat
        } else {
            0nat
        }
    }
}

/// The place of the highest value among `entries`; of several, the last.
pub open spec fn highest_entry(entries: Seq<RelationshipEntryView>) -> Option<int>
    decreases entries.len(),
{
    if entries.len() == 0 {
        None
    } else {
        match highest_entry(entries.drop_last()) {
            Some(i) => if entries[i].relationship.value > entries.last().relationship.value {
                Some(i)
            } else {
                Some(entries.len() - 1)
            },
            None => Some(entries.len() - 1),
        }
    }
}

/// The place of the lowest value among `entries`; of several, the first.
pub open spec fn lowest_entry(entries: Seq<RelationshipEntryView>) -> Option<int>
    decreases entries.len(),
{
    if entries.len() == 0 {
        None
    } else {
        match lowest_entry(entries.drop_last()) {
            Some(i) => if entries[i].relationship.value <= entries.last().relationship.value {
                Some(i)
            } else {
                Some(entries.len() - 1)
            },
            None => Some(entries.len() - 1),
        }
    }
}

/// The text in reports and the value of the entry at `place`, if there is a
/// place.
pub open spec fn key_and_value(entries: Seq<RelationshipEntryView>, place: Option<int>) -> Option<
    (Seq<char>, i32),
> {
    match place {
        Some(i) => Some((entries[i].key(), entries[i].relationship.value as i32)),
        None => None,
    }
}

/// Counts over all relationships.
#[derive(Debug)]
pub struct GameStats {
    pub total_relationships: usize,
    pub positive_relationships: usize,
    pub negative_relationships: usize,
    pub highest_relationship: Option<(String, i32)>,
    pub lowest_relationship: Option<(String, i32)>,
}

/// What [`GameStats`] hold, as mathematical values.
pub struct GameStatsView {
    pub total_relationships: usize,
    pub positive_relationships: usize,
    pub negative_relationships: usize,
    pub highest_relationship: Option<(Seq<char>, i32)>,
    pub lowest_relationship: Option<(Seq<char>, i32)>,
}

impl View for GameStats {
    type V = GameStatsView;

    open spec fn view(&self) -> GameStatsView {
        GameStatsView {
            total_relationships: self.total_relationships,
            positive_relationships: self.positive_relationships,
            negative_relationships: self.negative_relationships,
            highest_relationship: self.highest_relationship.deep_view(),
            lowest_relationship: self.lowest_relationship.deep_view(),
        }
    }
}

/// The counts over `entries`.
pub open spec fn stats_of(entries: Seq<RelationshipEntryView>) -> GameStatsView {
    GameStatsView {
        total_relationships: entries.len() as usize,
        positive_relationships: positive_count(entries) as usize,
        negative_relationships: negative_count(entries) as usize,
        highest_relationship: key_and_value(entries, highest_entry(entries)),
        lowest_relationship: key_and_value(entries, lowest_entry(entries)),
    }
}

/// The progress of the story: the relationships, the battles and the
/// characters.
#[derive(Debug)]
pub struct GameProgressService {
    pub relationship_service: RelationshipService,
    pub battle_service: BattleService,
    pub character_registry: CharacterRegistry,
}

impl Default for GameProgressService {
    /// The progress at the start of a game.
    fn default() -> (r: Self)
        ensures
            r.relationship_service@ == Seq::<RelationshipEntryView>::empty(),
            r.battle_service.relationships() == Seq::<RelationshipEntryView>::empty(),
            r.character_registry@ == Seq::<CharacterView>::empty(),
    {
        GameProgressService::new()
    }
}

impl GameProgressService {
    /// The progress at the start of a game: no relationships and no
    /// characters yet.
    pub fn new() -> (r: Self)
        ensures
            r.relationship_service@ == Seq::<RelationshipEntryView>::empty(),
            r.battle_service.relationships() == Seq::<RelationshipEntryView>::empty(),
            r.character_registry@ == Seq::<CharacterView>::empty(),
    {
        GameProgressService {
            relationship_service: RelationshipService::new(),
            battle_service: BattleService::new(RelationshipService::new()),
            character_registry: CharacterRegistry::new(),
        }
    }

    /// Takes a story event that moves the relationship of the two
    /// characters by `impact`, and reports it.
    pub fn process_story_event(
        &mut self,
        event_type: &str,
        characters: (&str, &str),
        impact: i32,
    ) -> (report: String)
        ensures
            final(self).relationship_service@ == with_relationship(
                old(self).relationship_service@,
                characters.0@,
                characters.1@,
                relationship_between(
                    old(self).relationship_service@,
                    characters.0@,
                    characters.1@,
                ).moved(impact as int),
            ),
            report@ == story_event_text(
                event_type@,
                characters.0@,
                characters.1@,
                impact as int,
                clamp_value(
                    value_between(old(self).relationship_service@, characters.0@, characters.1@)
                        + impact,
                ),
            ),
    {
        let (char_a, char_b) = characters;
        let new_value = self.relationship_service.modify_relationship(char_a, char_b, impact);
        let level = if new_value < 0 {
            RelationshipLevel::Conflict
        } else if new_value < 50 {
            RelationshipLevel::Normal
        } else {
            RelationshipLevel::Intimate
        };
        let direction = if impact > 0 {
            "向上"
        } else {
            "悪化"
        };
        let value_text = to_string(&format_i32(new_value));
        String::from_str("【").concat(event_type).concat("】により、").concat(char_a).concat(
            "と",
        ).concat(char_b).concat("の関係が").concat(direction).concat("しました (現在: ").concat(
            value_text.as_str(),
        ).concat(" / ").concat(level.name()).concat(")")
    }

    /// Whether the intimate scene of the two characters is open: their
    /// value has reached [`INTIMATE_SCENE_VALUE`].
    pub fn should_unlock_intimate_scene(&self, character_a: &str, character_b: &str) -> (b: bool)
        ensures
            b == (value_between(self.relationship_service@, character_a@, character_b@)
                >= INTIMATE_SCENE_VALUE),
    {
        self.relationship_service.get_relationship_value(character_a, character_b)
            >= INTIMATE_SCENE_VALUE
    }

    /// The ending that `main_character` has reached.
    pub fn determine_ending(&self, main_character: &str) -> (ending: String)
        ensures
            ending@ == ending_of(self.relationship_service@, main_character@),
    {
        let all = self.relationship_service.get_all_relationships();
        let who = to_chars(main_character);
        let ghost entries = self.relationship_service@;
        let mut best: Option<usize> = None;
        let mut i: usize = 0;
        assert(entries.take(0) == Seq::<RelationshipEntryView>::empty());
        while i < all.len()
            invariant
                i <= all.len(),
                all.len() == entries.len(),
                who@ == main_character@,
                forall|j: int|
                    0 <= j < entries.len() ==> (#[trigger] all.deep_view()[j]) == (
                        entries[j].key(),
                        entries[j].relationship.value as i32,
                    ),
                forall|j: int| 0 <= j < entries.len() ==> all[j].1 == entries[j].relationship.value,
                match best {
                    Some(b) => b < i && deciding_entry(entries.take(i as int), who@) == Some(
                        b as int,
                    ),
                    None => deciding_entry(entries.take(i as int), who@) is None,
                },
            decreases all.len() - i,
        {
            proof {
                assert(entries.take(i + 1).drop_last() == entries.take(i as int));
                assert(entries.take(i + 1).last() == entries[i as int]);
                assert(all.deep_view()[i as int].0 == all[i as int].0@);
            }
            if includes(&to_chars(all[i].0.as_str()), &who) {
                best = match best {
                    Some(b) => {
                        assert(entries.take(i + 1)[b as int] == entries[b as int]);
                        if all[b].1 > all[i].1 {
                            Some(b)
                        } else {
                            Some(i)
                        }
                    },
                    None => Some(i),
                };
            }
            i += 1;
        }
        assert(entries.take(all.len() as int) == entries);
        match best {
            Some(b) => {
                assert(all.deep_view()[b as int].0 == all[b as int].0@);
                let value = all[b].1;
                if value >= 90 {
                    String::from_str("True Ending - ").concat(all[b].0.as_str()).concat(
                        "との深い絆エンディング",
                    )
                } else if value >= 50 {
                    String::from_str("Good Ending - ").concat(all[b].0.as_str()).concat(
                        "との友情エンディング",
                    )
                } else if value <= -50 {
                    String::from_str("Bad Ending - 孤独エンディング")
                } else {
                    String::from_str("Normal Ending - 平凡エンディング")
                }
            },
            None => String::from_str("Normal Ending - 平凡エンディング"),
        }
    }

    /// Counts over all relationships.
    pub fn get_game_stats(&self) -> (stats: GameStats)
        ensures
            stats@ == stats_of(self.relationship_service@),
    {
        let all = self.relationship_service.get_all_relationships();
        let ghost entries = self.relationship_service@;
        let mut positive: usize = 0;
        let mut negative: usize = 0;
        let mut highest: Option<usize> = None;
        let mut lowest: Option<usize> = None;
        let mut i: usize = 0;
        assert(entries.take(0) == Seq::<RelationshipEntryView>::empty());
        while i < all.len()
            invariant
                i <= all.len(),
                all.len() == entries.len(),
                forall|j: int| 0 <= j < entries.len() ==> all[j].1 == entries[j].relationship.value,
                positive == positive_count(entries.take(i as int)),
                negative == negative_count(entries.take(i as int)),
                positive <= i,
                negative <= i,
                match highest {
                    Some(h) => h < i && highest_entry(entries.take(i as int)) == Some(h as int),
                    None => highest_entry(entries.take(i as int)) is None,
                },
                match lowest {
                    Some(l) => l < i && lowest_entry(entries.take(i as int)) == Some(l as int),
                    None => lowest_entry(entries.take(i as int)) is None,
                },
            decreases all.len() - i,
        {
            proof {
                assert(entries.take(i + 1).drop_last() == entries.take(i as int));
                assert(entries.take(i + 1).last() == entries[i as int]);
            }
            let value = all[i].1;
            if value > 0 {
                positive += 1;
            }
            if value < 0 {
                negative += 1;
            }
            highest = match highest {
                Some(h) => {
                    assert(entries.take(i + 1)[h as int] == entries[h as int]);
                    if all[h].1 > value {
                        Some(h)
                    } else {
                        Some(i)
                    }
                },
                None => Some(i),
            };
            lowest = match lowest {
                Some(l) => {
                    assert(entries.take(i + 1)[l as int] == entries[l as int]);
                    if all[l].1 <= value {
                        Some(l)
                    } else {
                        Some(i)
                    }
                },
                None => Some(i),
            };
            i += 1;
        }
        assert(entries.take(all.len() as int) == entries);
        let highest_relationship = match highest {
            Some(h) => {
                assert(all.deep_view()[h as int].0 == all[h as int].0@);
                Some((all[h].0.clone(), all[h].1))
            },
            None => None,
        };
        let lowest_relationship = match lowest {
            Some(l) => {
                assert(all.deep_view()[l as int].0 == all[l as int].0@);
                Some((all[l].0.clone(), all[l].1))
            },
            None => None,
        };
        GameStats {
            total_relationships: all.len(),
            positive_relationships: positive,
            negative_relationships: negative,
            highest_relationship,
            lowest_relationship,
        }
    }
}

} // verus!
