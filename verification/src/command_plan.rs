//! What a scene command asks of the screen and of the speakers: the files
//! to load, the character to draw, the options to offer. The renderer does
//! what the plan says and decides nothing itself.

use vstd::prelude::*;
use crate::character::{character_with_id, CharacterRegistry, CharacterView};
use crate::scenario::{copy_of, CharacterPosition, SceneCommand, SceneCommandView};
use crate::text::{split_on, texts_of};
use crate::text::{split, to_chars, to_string};

verus! {

/// What a renderer is to do for one scene command.
#[derive(Debug, PartialEq)]
#[allow(inconsistent_fields)]
pub enum CommandEffect {
    /// Show the image at `image_path` as the background.
    ShowBackground { image_path: String, time: Option<u32> },
    /// Draw a character that the registry knows.
    ShowCharacter {
        character_id: String,
        display_name: String,
        image_path: String,
        face: String,
        position: CharacterPosition,
    },
    /// The command names a character that the registry does not know.
    UnknownCharacter { name: String },
    /// Take the character off the screen.
    HideCharacter { character_id: String },
    /// Play the music at `audio_path`. The volume is as it was written.
    PlayBgm { audio_path: String, volume: Option<String>, looped: bool },
    /// Play the sound at `audio_path`. The volume is as it was written.
    PlaySe { audio_path: String, volume: Option<String> },
    /// Wait for `time` milliseconds.
    Wait { time: u32 },
    /// Offer the options, in order.
    OfferChoices { options: Vec<String> },
}

/// What a [`CommandEffect`] holds, as mathematical values.
#[allow(inconsistent_fields)]
pub enum CommandEffectView {
    ShowBackground { image_path: Seq<char>, time: Option<u32> },
    ShowCharacter {
        character_id: Seq<char>,
        display_name: Seq<char>,
        image_path: Seq<char>,
        face: Seq<char>,
        position: CharacterPosition,
    },
    UnknownCharacter { name: Seq<char> },
    HideCharacter { character_id: Seq<char> },
    PlayBgm { audio_path: Seq<char>, volume: Option<Seq<char>>, looped: bool },
    PlaySe { audio_path: Seq<char>, volume: Option<Seq<char>> },
    Wait { time: u32 },
    OfferChoices { options: Seq<Seq<char>> },
}

impl View for CommandEffect {
    type V = CommandEffectView;

    open spec fn view(&self) -> CommandEffectView {
        match *self {
            CommandEffect::ShowBackground { image_path, time } => CommandEffectView::ShowBackground {
                image_path: image_path@,
                time,
            },
            CommandEffect::ShowCharacter {
                character_id,
                display_name,
                image_path,
                face,
                position,
            } => CommandEffectView::ShowCharacter {
                character_id: character_id@,
                display_name: display_name@,
                image_path: image_path@,
                face: face@,
                position,
            },
            CommandEffect::UnknownCharacter { name } => CommandEffectView::UnknownCharacter {
                name: name@,
            },
            CommandEffect::HideCharacter { character_id } => CommandEffectView::HideCharacter {
                character_id: character_id@,
            },
            CommandEffect::PlayBgm { audio_path, volume, looped } => CommandEffectView::PlayBgm {
                audio_path: audio_path@,
                volume: volume.deep_view(),
                looped,
            },
            CommandEffect::PlaySe { audio_path, volume } => CommandEffectView::PlaySe {
                audio_path: audio_path@,
                volume: volume.deep_view(),
            },
            CommandEffect::Wait { time } => CommandEffectView::Wait { time },
            CommandEffect::OfferChoices { options } => CommandEffectView::OfferChoices {
                options: options.deep_view(),
            },
        }
    }
}

/// The directory of the background images.
pub open spec fn background_dir() -> Seq<char> {
    "images/backgrounds/"@
}

/// The directory of the music.
pub open spec fn bgm_dir() -> Seq<char> {
    "sounds/bgm/"@
}

/// The directory of the sound effects.
pub open spec fn se_dir() -> Seq<char> {
    "sounds/se/"@
}

/// The options that the text of a choice offers: what stands between its
/// vertical bars.
pub open spec fn choice_options(text: Seq<char>) -> Seq<Seq<char>> {
    split_on(text, '|')
}

/// What is to be done for `command`, with the characters `characters`
/// registered. A character is drawn with the face and at the position that
/// the command gives, or else with its default face and in the centre.
/// Music loops unless the command says otherwise.
pub open spec fn effect_of(command: SceneCommandView, characters: Seq<CharacterView>) -> CommandEffectView {
    match command {
        SceneCommandView::Background { storage, time } => CommandEffectView::ShowBackground {
            image_path: background_dir() + storage,
            time,
        },
        SceneCommandView::CharacterShow { name, face, pos } => match character_with_id(
            characters,
            name,
        ) {
            Some(character) => CommandEffectView::ShowCharacter {
                character_id: name,
                display_name: character.name,
                image_path: character.image_path,
                face: match face {
                    Some(face) => face,
                    None => character.default_face,
                },
                position: match pos {
                    Some(position) => position,
                    None => CharacterPosition::Center,
                },
            },
            None => CommandEffectView::UnknownCharacter { name },
        },
        SceneCommandView::CharacterHide { name } => CommandEffectView::HideCharacter {
            character_id: name,
        },
        SceneCommandView::Bgm { play, volume, loop_audio } => CommandEffectView::PlayBgm {
            audio_path: bgm_dir() + play,
            volume,
            looped: match loop_audio {
                Some(looped) => looped,
                None => true,
            },
        },
        SceneCommandView::Se { play, volume } => CommandEffectView::PlaySe {
            audio_path: se_dir() + play,
            volume,
        },
        SceneCommandView::Wait { time } => CommandEffectView::Wait { time },
        SceneCommandView::Choice { text } => CommandEffectView::OfferChoices {
            options: choice_options(text),
        },
    }
}

/// The options that the text of a choice offers.
pub fn options_of(text: &str) -> (options: Vec<String>)
    ensures
        options.deep_view() == choice_options(text@),
{
    let pieces = split(&to_chars(text), '|');
    let mut options: Vec<String> = Vec::new();
    let mut i: usize = 0;
    while i < pieces.len()
        invariant
            i <= pieces.len(),
            options.len() == i,
            forall|j: int| 0 <= j < i ==> options[j]@ == pieces[j]@,
        decreases pieces.len() - i,
    {
        options.push(to_string(&pieces[i]));
        i += 1;
    }
    assert(options.deep_view() == texts_of(pieces@));
    options
}

/// What is to be done for `command`.
pub fn plan(command: &SceneCommand, registry: &CharacterRegistry) -> (effect: CommandEffect)
    ensures
        effect@ == effect_of(command@, registry@),
{
    match command {
        SceneCommand::Background { storage, time } => CommandEffect::ShowBackground {
            image_path: String::from_str("images/backgrounds/").concat(storage.as_str()),
            time: *time,
        },
        SceneCommand::CharacterShow { name, face, pos } => match registry.get(name.as_str()) {
            Some(character) => CommandEffect::ShowCharacter {
                character_id: name.clone(),
                display_name: character.name.clone(),
                image_path: character.image_path.clone(),
                face: match face {
                    Some(face) => face.clone(),
                    None => character.default_face.clone(),
                },
                position: match pos {
                    Some(position) => *position,
                    None => CharacterPosition::Center,
                },
            },
            None => CommandEffect::UnknownCharacter { name: name.clone() },
        },
        SceneCommand::CharacterHide { name } => CommandEffect::HideCharacter {
            character_id: name.clone(),
        },
        SceneCommand::Bgm { play, volume, loop_audio } => CommandEffect::PlayBgm {
            audio_path: String::from_str("sounds/bgm/").concat(play.as_str()),
            volume: copy_of(volume),
            looped: match loop_audio {
                Some(looped) => *looped,
                None => true,
            },
        },
        SceneCommand::Se { play, volume } => CommandEffect::PlaySe {
            audio_path: String::from_str("sounds/se/").concat(play.as_str()),
            volume: copy_of(volume),
        },
        SceneCommand::Wait { time } => CommandEffect::Wait { time: *time },
        SceneCommand::Choice { text } => CommandEffect::OfferChoices {
            options: options_of(text.as_str()),
        },
    }
}

} // verus!
