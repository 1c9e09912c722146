//! The relationship between two characters: a value that events move up and
//! down within fixed bounds, and the level that the value stands for.

use vstd::prelude::*;

verus! {

/// The band a relationship value falls into.
#[derive(Debug, Clone, Copy, PartialEq, Eq, Structural)]
pub enum RelationshipLevel {
    /// Negative values.
    Conflict,
    /// Values from 0 to 49.
    Normal,
    /// Values of 50 and more.
    Intimate,
}

/// Lowest value a relationship can take.
pub const MIN_VALUE: i32 = -100;

/// Highest value a relationship can take.
pub const MAX_VALUE: i32 = 100;

/// `v` brought into the range from [`MIN_VALUE`] to [`MAX_VALUE`].
pub open spec fn clamp_value(v: int) -> int {
    if v < MIN_VALUE {
        MIN_VALUE as int
    } else if v > MAX_VALUE {
        MAX_VALUE as int
    } else {
        v
    }
}

/// The level that belongs to a value.
pub open spec fn level_of(v: int) -> RelationshipLevel {
    if v < 0 {
        RelationshipLevel::Conflict
    } else if v < 50 {
        RelationshipLevel::Normal
    } else {
        RelationshipLevel::Intimate
    }
}

/// The name of a level, as it is shown in messages.
pub open spec fn level_name(level: RelationshipLevel) -> Seq<char> {
    match level {
        RelationshipLevel::Conflict => "Conflict"@,
        RelationshipLevel::Normal => "Normal"@,
        RelationshipLevel::Intimate => "Intimate"@,
    }
}

impl RelationshipLevel {
    /// The name of the level, as it is shown in messages.
    pub fn name(&self) -> (r: &'static str)
        ensures
            r@ == level_name(*self),
    {
        match self {
            RelationshipLevel::Conflict => "Conflict",
            RelationshipLevel::Normal => "Normal",
            RelationshipLevel::Intimate => "Intimate",
        }
    }
}

/// How two characters stand to each other.
#[derive(Debug)]
pub struct Relationship {
    pub character_a: String,
    pub character_b: String,
    /// From [`MIN_VALUE`] to [`MAX_VALUE`].
    pub value: i32,
}

/// What a [`Relationship`] holds, as mathematical values.
pub struct RelationshipView {
    pub character_a: Seq<char>,
    pub character_b: Seq<char>,
    pub value: int,
}

impl RelationshipView {
    /// The relationship of `a` and `b` before anything has happened between
    /// them.
    pub open spec fn fresh(a: Seq<char>, b: Seq<char>) -> RelationshipView {
        RelationshipView { character_a: a, character_b: b, value: 0 }
    }

    /// The relationship after its value was moved by `delta`.
    pub open spec fn moved(self, delta: int) -> RelationshipView {
        RelationshipView { value: clamp_value(self.value + delta), ..self }
    }

    /// Whether the value lies within its bounds.
    pub open spec fn in_range(self) -> bool {
        MIN_VALUE <= self.value <= MAX_VALUE
    }
}

impl View for Relationship {
    type V = RelationshipView;

    open spec fn view(&self) -> RelationshipView {
        RelationshipView {
            character_a: self.character_a@,
            character_b: self.character_b@,
            value: self.value as int,
        }
    }
}

impl DeepView for Relationship {
    type V = RelationshipView;

    open spec fn deep_view(&self) -> RelationshipView {
        self@
    }
}

impl Clone for Relationship {
    fn clone(&self) -> (r: Self)
        ensures
            r@ == self@,
    {
        Relationship {
            character_a: self.character_a.clone(),
            character_b: self.character_b.clone(),
            value: self.value,
        }
    }
}

impl Relationship {
    /// The relationship of two characters before anything has happened
    /// between them: its value is 0.
    pub fn new(character_a: &str, character_b: &str) -> (r: Self)
        ensures
            r@ == RelationshipView::fresh(character_a@, character_b@),
    {
        Relationship {
            character_a: String::from_str(character_a),
            character_b: String::from_str(character_b),
            value: 0,
        }
    }

    /// Moves the value by `delta`, and no further than its bounds.
    pub fn modify(&mut self, delta: i32)
        ensures
            final(self)@ == old(self)@.moved(delta as int),
            final(self)@.in_range(),
    {
        let sum: i64 = self.value as i64 + delta as i64;
        self.value = if sum < MIN_VALUE as i64 {
            MIN_VALUE
        } else if sum > MAX_VALUE as i64 {
            MAX_VALUE
        } else {
            sum as i32
        };
    }

    /// The value.
    pub fn value(&self) -> (v: i32)
        ensures
            v == self.value,
    {
        self.value
    }

    /// The level that the value stands for.
    pub fn level(&self) -> (level: RelationshipLevel)
        ensures
            level == level_of(self.value as int),
    {
        if self.value < 0 {
            RelationshipLevel::Conflict
        } else if self.value < 50 {
            RelationshipLevel::Normal
        } else {
            RelationshipLevel::Intimate
        }
    }
}

/// Two moves in a row clamp after each, not once at the end.
pub proof fn lemma_moves_clamp_each(r: RelationshipView, first: int, second: int)
    ensures
        r.moved(first).moved(second).value == clamp_value(clamp_value(r.value + first) + second),
{
}

/// A move by zero leaves a value within the bounds as it is.
pub proof fn lemma_move_by_zero(r: RelationshipView)
    requires
        r.in_range(),
    ensures
        r.moved(0) == r,
{
}

/// A move by at least the width of the range ends at a bound.
pub proof fn lemma_large_moves_reach_bounds(r: RelationshipView, delta: int)
    requires
        r.in_range(),
    ensures
        delta >= MAX_VALUE - MIN_VALUE ==> r.moved(delta).value == MAX_VALUE,
        delta <= MIN_VALUE - MAX_VALUE ==> r.moved(delta).value == MIN_VALUE,
{
}

} // verus!
