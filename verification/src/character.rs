//! The characters of the game and the registry that keeps them by their id.

use vstd::prelude::*;

verus! {

/// A character: who it is and how it is drawn.
#[derive(Debug)]
pub struct Character {
    pub id: String,
    pub name: String,
    pub default_face: String,
    pub available_faces: Vec<String>,
    pub image_path: String,
}

/// What a [`Character`] holds, as mathematical values.
pub struct CharacterView {
    pub id: Seq<char>,
    pub name: Seq<char>,
    pub default_face: Seq<char>,
    pub available_faces: Seq<Seq<char>>,
    pub image_path: Seq<char>,
}

impl CharacterView {
    /// The character of the given id and name, whose only face is
    /// `default_face`.
    pub open spec fn of(
        id: Seq<char>,
        name: Seq<char>,
        default_face: Seq<char>,
        image_path: Seq<char>,
    ) -> CharacterView {
        CharacterView { id, name, default_face, available_faces: seq![default_face], image_path }
    }
}

impl View for Character {
    type V = CharacterView;

    open spec fn view(&self) -> CharacterView {
        CharacterView {
            id: self.id@,
            name: self.name@,
            default_face: self.default_face@,
            available_faces: self.available_faces.deep_view(),
            image_path: self.image_path@,
        }
    }
}

impl DeepView for Character {
    type V = CharacterView;

    open spec fn deep_view(&self) -> CharacterView {
        self@
    }
}

impl Character {
    /// A character whose only face is `default_face`.
    pub fn new(id: &str, name: &str, default_face: &str, image_path: &str) -> (r: Self)
        ensures
            r@ == CharacterView::of(id@, name@, default_face@, image_path@),
    {
        let mut available_faces: Vec<String> = Vec::new();
        available_faces.push(String::from_str(default_face));
        assert(available_faces.deep_view() == seq![default_face@]);
        Character {
            id: String::from_str(id),
            name: String::from_str(name),
            default_face: String::from_str(default_face),
            available_faces,
            image_path: String::from_str(image_path),
        }
    }

    /// Whether the character has the face `face`.
    pub fn has_face(&self, face: &str) -> (b: bool)
        ensures
            b == self@.available_faces.contains(face@),
    {
        let wanted = String::from_str(face);
        let mut i: usize = 0;
        while i < self.available_faces.len()
            invariant
                i <= self.available_faces.len(),
                wanted@ == face@,
                forall|j: int| 0 <= j < i ==> self@.available_faces[j] != face@,
            decreases self.available_faces.len() - i,
        {
            if self.available_faces[i] == wanted {
                assert(self@.available_faces[i as int] == face@);
                return true;
            }
            i += 1;
        }
        false
    }
}

/// How many characters stand in `characters` before the first one with the
/// id `id`; the length of `characters` if none has it.
pub open spec fn position_of_id(characters: Seq<CharacterView>, id: Seq<char>) -> nat
    decreases characters.len(),
{
    if characters.len() == 0 || characters[0].id == id {
        0
    } else {
        1 + position_of_id(characters.drop_first(), id)
    }
}

/// The first of `characters` with the id `id`.
pub open spec fn character_with_id(characters: Seq<CharacterView>, id: Seq<char>) -> Option<
    CharacterView,
> {
    let at = position_of_id(characters, id) as int;
    if at < characters.len() {
        Some(characters[at])
    } else {
        None
    }
}

/// `characters` with `character` in the place of the first one with the
/// same id, or after all of them if none has it.
pub open spec fn with_character(characters: Seq<CharacterView>, character: CharacterView) -> Seq<
    CharacterView,
> {
    let at = position_of_id(characters, character.id) as int;
    if at < characters.len() {
        characters.update(at, character)
    } else {
        characters.push(character)
    }
}

/// Whether no two of `characters` have the same id.
pub open spec fn ids_distinct(characters: Seq<CharacterView>) -> bool {
    forall|i: int, j: int|
        0 <= i < j < characters.len() ==> (#[trigger] characters[i]).id != (
        #[trigger] characters[j]).id
}

/// The place that [`position_of_id`] gives lies within `characters` or at
/// their end, and no character before it has the id `id`.
pub proof fn lemma_position_of_id(characters: Seq<CharacterView>, id: Seq<char>)
    ensures
        position_of_id(characters, id) <= characters.len(),
        forall|i: int|
            0 <= i < position_of_id(characters, id) ==> (#[trigger] characters[i]).id != id,
        position_of_id(characters, id) < characters.len() ==> characters[position_of_id(
            characters,
            id,
        ) as int].id == id,
    decreases characters.len(),
{
    if characters.len() > 0 && characters[0].id != id {
        let rest = characters.drop_first();
        lemma_position_of_id(rest, id);
        assert forall|i: int| 0 <= i < position_of_id(characters, id) implies (
        #[trigger] characters[i]).id != id by {
            if i > 0 {
                assert(characters[i] == rest[i - 1]);
            }
        }
        if position_of_id(characters, id) < characters.len() {
            assert(characters[position_of_id(characters, id) as int] == rest[position_of_id(
                rest,
                id,
            ) as int]);
        }
    }
}

/// Registering a character among characters of different ids leaves their
/// ids different, and the character is then the one found under its id.
pub proof fn lemma_registered_character(characters: Seq<CharacterView>, character: CharacterView)
    ensures
        character_with_id(with_character(characters, character), character.id) == Some(character),
        ids_distinct(characters) ==> ids_distinct(with_character(characters, character)),
{
    let id = character.id;
    let at = position_of_id(characters, id) as int;
    let after = with_character(characters, character);
    lemma_position_of_id(characters, id);
    assert forall|i: int| 0 <= i < at implies (#[trigger] after[i]).id != id by {
        assert(after[i] == characters[i]);
    }
    lemma_position_of_id_is(after, id, at);
    if ids_distinct(characters) {
        assert forall|i: int, j: int| 0 <= i < j < after.len() implies (#[trigger] after[i]).id != (
        #[trigger] after[j]).id by {
            if at < characters.len() {
                assert(after[i].id == characters[i].id);
                assert(after[j].id == characters[j].id);
            } else {
                assert(after[i] == characters[i]);
                if j < characters.len() {
                    assert(after[j] == characters[j]);
                }
            }
        }
    }
}

/// A place `k` before which no character has the id `id`, and at which
/// `characters` end or one has it, is the one that [`position_of_id`] gives.
pub proof fn lemma_position_of_id_is(characters: Seq<CharacterView>, id: Seq<char>, k: int)
    requires
        0 <= k <= characters.len(),
        forall|i: int| 0 <= i < k ==> (#[trigger] characters[i]).id != id,
        k < characters.len() ==> characters[k].id == id,
    ensures
        position_of_id(characters, id) == k,
    decreases characters.len(),
{
    if k > 0 {
        let rest = characters.drop_first();
        assert(characters[0].id != id);
        assert forall|i: int| 0 <= i < k - 1 implies (#[trigger] rest[i]).id != id by {
            assert(rest[i] == characters[i + 1]);
        }
        if k - 1 < rest.len() {
            assert(rest[k - 1] == characters[k]);
        }
        lemma_position_of_id_is(rest, id, k - 1);
    }
}

/// The characters of the game, each under its id.
#[derive(Debug)]
pub struct CharacterRegistry {
    characters: Vec<Character>,
}

impl View for CharacterRegistry {
    type V = Seq<CharacterView>;

    closed spec fn view(&self) -> Seq<CharacterView> {
        self.characters.deep_view()
    }
}

impl Default for CharacterRegistry {
    /// A registry without characters.
    fn default() -> (r: Self)
        ensures
            r@ == Seq::<CharacterView>::empty(),
            r.well_formed(),
    {
        CharacterRegistry::new()
    }
}

/// The characters that the game starts with.
pub open spec fn default_characters() -> Seq<CharacterView> {
    seq![
        CharacterView::of("souma"@, "ソウマ"@, "normal"@, "images/characters/01_souma_kari.png"@),
        CharacterView::of("yuzuki"@, "ユズキ"@, "smile"@, "images/characters/03_yuzuki_kari.jpg"@),
        CharacterView::of("retsuji"@, "レツジ"@, "normal"@, "images/characters/02_retsuji_kari.png"@),
        CharacterView::of("kai"@, "カイ"@, "normal"@, "images/characters/06_kai_kari.png"@),
    ]
}

/// `characters` after each of `added` was registered, in order.
pub open spec fn with_characters(characters: Seq<CharacterView>, added: Seq<CharacterView>) -> Seq<
    CharacterView,
>
    decreases added.len(),
{
    if added.len() == 0 {
        characters
    } else {
        with_character(with_characters(characters, added.drop_last()), added.last())
    }
}

impl CharacterRegistry {
    /// Whether the registry holds at most one character under each id. A
    /// new registry does, and no operation on a registry that does ends in
    /// one that does not.
    pub open spec fn well_formed(&self) -> bool {
        ids_distinct(self@)
    }

    /// A registry without characters.
    pub fn new() -> (r: Self)
        ensures
            r@ == Seq::<CharacterView>::empty(),
            r.well_formed(),
    {
        let r = CharacterRegistry { characters: Vec::new() };
        assert(r.characters.deep_view() == Seq::<CharacterView>::empty());
        r
    }

    /// The place of the first character with the id `id`.
    fn position(&self, id: &str) -> (at: usize)
        ensures
            at == position_of_id(self@, id@),
            at <= self.characters.len(),
            self.characters.len() == self@.len(),
    {
        let wanted = String::from_str(id);
        let mut i: usize = 0;
        while i < self.characters.len()
            invariant
                i <= self.characters.len(),
                wanted@ == id@,
                forall|j: int| 0 <= j < i ==> (#[trigger] self@[j]).id != id@,
            decreases self.characters.len() - i,
        {
            if self.characters[i].id == wanted {
                proof {
                    assert(self@[i as int].id == id@);
                    lemma_position_of_id_is(self@, id@, i as int);
                }
                return i;
            }
            i += 1;
        }
        proof {
            lemma_position_of_id_is(self@, id@, i as int);
        }
        i
    }

    /// Registers `character` under its id, in place of the one that was
    /// registered under it, if any.
    pub fn register(&mut self, character: Character)
        ensures
            final(self)@ == with_character(old(self)@, character@),
            old(self).well_formed() ==> final(self).well_formed(),
    {
        proof {
            lemma_registered_character(self@, character@);
        }
        let at = self.position(character.id.as_str());
        if at < self.characters.len() {
            self.characters.set(at, character);
            assert(self.characters.deep_view() == old(self).characters.deep_view().update(
                at as int,
                character@,
            ));
        } else {
            self.characters.push(character);
            assert(self.characters.deep_view() == old(self).characters.deep_view().push(
                character@,
            ));
        }
    }

    /// The character registered under `id`.
    pub fn get(&self, id: &str) -> (r: Option<&Character>)
        ensures
            match r {
                Some(character) => character_with_id(self@, id@) == Some(character@),
                None => character_with_id(self@, id@) is None,
            },
    {
        let at = self.position(id);
        if at < self.characters.len() {
            Some(&self.characters[at])
        } else {
            None
        }
    }

    /// Registers the characters that the game starts with.
    pub fn register_default_characters(&mut self)
        ensures
            final(self)@ == with_characters(old(self)@, default_characters()),
            old(self).well_formed() ==> final(self).well_formed(),
    {
        let ghost added = default_characters();
        self.register(
            Character::new("souma", "ソウマ", "normal", "images/characters/01_souma_kari.png"),
        );
        self.register(
            Character::new("yuzuki", "ユズキ", "smile", "images/characters/03_yuzuki_kari.jpg"),
        );
        self.register(
            Character::new("retsuji", "レツジ", "normal", "images/characters/02_retsuji_kari.png"),
        );
        self.register(Character::new("kai", "カイ", "normal", "images/characters/06_kai_kari.png"));
        proof {
            assert(added.take(0) == Seq::<CharacterView>::empty());
            assert(added.take(1).drop_last() == added.take(0));
            assert(added.take(2).drop_last() == added.take(1));
            assert(added.take(3).drop_last() == added.take(2));
            assert(added.take(4).drop_last() == added.take(3));
            assert(added.take(4) == added);
            reveal_with_fuel(with_characters, 5);
        }
    }
}

} // verus!
