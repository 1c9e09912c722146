//! The scenario format: scene commands and dialogue lines, and how each is
//! read from one line of text.
//!
//! A command is written `[name key=value ...]`, a dialogue line is written
//! `**speaker**「text」`, `**speaker**: text` or, for narration, as plain
//! text.

use vstd::prelude::*;
use crate::text::{
    decimal, enclosed_by, first_match, inner, is_word, lowercase_of, prefix_len, read_bool,
    read_u32, texts_of, trim, words, CharClass,
};
use crate::text::{
    lemma_decimal_is_word, lemma_prefix_len_is, lemma_read_decimal, lemma_trim_spotless,
    lemma_words_after_space, lemma_words_first, lemma_words_of_blank,
};
use crate::text::{
    equals_str, find, inner_of, is_enclosed_by, parse_bool, parse_u32, scan, slice, split_words,
    to_chars, to_lowercase, to_string, trimmed,
};

verus! {

/// Where on the screen a character stands.
#[derive(Debug, Clone, Copy, PartialEq, Eq, Structural)]
pub enum CharacterPosition {
    Left,
    Center,
    Right,
    /// A place given in whole screen units.
    Custom { x: i32, y: i32 },
}

/// One directive of a scene. It takes effect once, when the scene is entered.
#[derive(Debug, PartialEq)]
#[allow(inconsistent_fields)]
pub enum SceneCommand {
    /// `[bg storage=file time=ms]`: changes the background, over `time`
    /// milliseconds where it is given.
    Background { storage: String, time: Option<u32> },
    /// `[chara_show name=id face=expression pos=position]`: shows a character.
    CharacterShow { name: String, face: Option<String>, pos: Option<CharacterPosition> },
    /// `[chara_hide name=id]`: hides a character.
    CharacterHide { name: String },
    /// `[bgm play=file volume=number loop=bool]`: plays music. The volume is
    /// kept as it was written; the audio layer reads it as a number.
    Bgm { play: String, volume: Option<String>, loop_audio: Option<bool> },
    /// `[se play=file volume=number]`: plays a sound effect. The volume is
    /// kept as it was written.
    Se { play: String, volume: Option<String> },
    /// `[wait time=ms]`: waits for `time` milliseconds.
    Wait { time: u32 },
    /// `[choice text=first|second|...]`: offers the options that `|` parts.
    Choice { text: String },
}

/// What a [`SceneCommand`] holds, as mathematical values.
#[allow(inconsistent_fields)]
pub enum SceneCommandView {
    Background { storage: Seq<char>, time: Option<u32> },
    CharacterShow { name: Seq<char>, face: Option<Seq<char>>, pos: Option<CharacterPosition> },
    CharacterHide { name: Seq<char> },
    Bgm { play: Seq<char>, volume: Option<Seq<char>>, loop_audio: Option<bool> },
    Se { play: Seq<char>, volume: Option<Seq<char>> },
    Wait { time: u32 },
    Choice { text: Seq<char> },
}

impl View for SceneCommand {
    type V = SceneCommandView;

    open spec fn view(&self) -> SceneCommandView {
        match *self {
            SceneCommand::Background { storage, time } => SceneCommandView::Background {
                storage: storage@,
                time,
            },
            SceneCommand::CharacterShow { name, face, pos } => SceneCommandView::CharacterShow {
                name: name@,
                face: face.deep_view(),
                pos,
            },
            SceneCommand::CharacterHide { name } => SceneCommandView::CharacterHide { name: name@ },
            SceneCommand::Bgm { play, volume, loop_audio } => SceneCommandView::Bgm {
                play: play@,
                volume: volume.deep_view(),
                loop_audio,
            },
            SceneCommand::Se { play, volume } => SceneCommandView::Se {
                play: play@,
                volume: volume.deep_view(),
            },
            SceneCommand::Wait { time } => SceneCommandView::Wait { time },
            SceneCommand::Choice { text } => SceneCommandView::Choice { text: text@ },
        }
    }
}

impl DeepView for SceneCommand {
    type V = SceneCommandView;

    open spec fn deep_view(&self) -> SceneCommandView {
        self@
    }
}

/// A copy of `s`, where there is one.
pub(crate) fn copy_of(s: &Option<String>) -> (r: Option<String>)
    ensures
        r.deep_view() == s.deep_view(),
{
    match s {
        Some(text) => Some(text.clone()),
        None => None,
    }
}

impl Clone for SceneCommand {
    fn clone(&self) -> (r: Self)
        ensures
            r@ == self@,
    {
        match self {
            SceneCommand::Background { storage, time } => SceneCommand::Background {
                storage: storage.clone(),
                time: *time,
            },
            SceneCommand::CharacterShow { name, face, pos } => SceneCommand::CharacterShow {
                name: name.clone(),
                face: copy_of(face),
                pos: *pos,
            },
            SceneCommand::CharacterHide { name } => SceneCommand::CharacterHide {
                name: name.clone(),
            },
            SceneCommand::Bgm { play, volume, loop_audio } => SceneCommand::Bgm {
                play: play.clone(),
                volume: copy_of(volume),
                loop_audio: *loop_audio,
            },
            SceneCommand::Se { play, volume } => SceneCommand::Se {
                play: play.clone(),
                volume: copy_of(volume),
            },
            SceneCommand::Wait { time } => SceneCommand::Wait { time: *time },
            SceneCommand::Choice { text } => SceneCommand::Choice { text: text.clone() },
        }
    }
}

/// One line of spoken or narrated text.
#[derive(Debug, PartialEq)]
pub struct DialogueBlock {
    /// Who speaks; `None` for narration.
    pub speaker: Option<String>,
    pub text: String,
}

/// What a [`DialogueBlock`] holds, as mathematical values.
pub struct DialogueBlockView {
    pub speaker: Option<Seq<char>>,
    pub text: Seq<char>,
}

impl View for DialogueBlock {
    type V = DialogueBlockView;

    open spec fn view(&self) -> DialogueBlockView {
        DialogueBlockView { speaker: self.speaker.deep_view(), text: self.text@ }
    }
}

impl DeepView for DialogueBlock {
    type V = DialogueBlockView;

    open spec fn deep_view(&self) -> DialogueBlockView {
        self@
    }
}

impl Clone for DialogueBlock {
    fn clone(&self) -> (r: Self)
        ensures
            r@ == self@,
    {
        DialogueBlock { speaker: copy_of(&self.speaker), text: self.text.clone() }
    }
}

/// A stretch of the scenario: its commands fire once, then its dialogue
/// blocks play in order.
#[derive(Debug)]
pub struct Scene {
    pub commands: Vec<SceneCommand>,
    pub dialogue_blocks: Vec<DialogueBlock>,
}

/// What a [`Scene`] holds, as mathematical values.
pub struct SceneView {
    pub commands: Seq<SceneCommandView>,
    pub dialogue_blocks: Seq<DialogueBlockView>,
}

impl SceneView {
    /// The scene without commands or dialogue.
    pub open spec fn empty() -> SceneView {
        SceneView { commands: Seq::empty(), dialogue_blocks: Seq::empty() }
    }

    /// Whether the scene has neither commands nor dialogue.
    pub open spec fn is_empty(self) -> bool {
        self.commands.len() == 0 && self.dialogue_blocks.len() == 0
    }
}

impl View for Scene {
    type V = SceneView;

    open spec fn view(&self) -> SceneView {
        SceneView {
            commands: self.commands.deep_view(),
            dialogue_blocks: self.dialogue_blocks.deep_view(),
        }
    }
}

impl DeepView for Scene {
    type V = SceneView;

    open spec fn deep_view(&self) -> SceneView {
        self@
    }
}

impl Clone for Scene {
    fn clone(&self) -> (r: Self)
        ensures
            r@ == self@,
    {
        let mut commands: Vec<SceneCommand> = Vec::new();
        let mut i: usize = 0;
        while i < self.commands.len()
            invariant
                i <= self.commands.len(),
                commands.len() == i,
                forall|j: int| 0 <= j < i ==> commands[j]@ == self.commands[j]@,
            decreases self.commands.len() - i,
        {
            commands.push(self.commands[i].clone());
            i += 1;
        }
        let mut dialogue_blocks: Vec<DialogueBlock> = Vec::new();
        let mut k: usize = 0;
        while k < self.dialogue_blocks.len()
            invariant
                k <= self.dialogue_blocks.len(),
                dialogue_blocks.len() == k,
                forall|j: int| 0 <= j < k ==> dialogue_blocks[j]@ == self.dialogue_blocks[j]@,
            decreases self.dialogue_blocks.len() - k,
        {
            dialogue_blocks.push(self.dialogue_blocks[k].clone());
            k += 1;
        }
        assert(commands.deep_view() == self.commands.deep_view());
        assert(dialogue_blocks.deep_view() == self.dialogue_blocks.deep_view());
        Scene { commands, dialogue_blocks }
    }
}

/// A whole scenario: a title and its scenes, in the order of the text.
#[derive(Debug)]
pub struct ScenarioFile {
    pub title: String,
    pub scenes: Vec<Scene>,
    pub current_scene_index: usize,
}

/// What a [`ScenarioFile`] holds, as mathematical values.
pub struct ScenarioFileView {
    pub title: Seq<char>,
    pub scenes: Seq<SceneView>,
    pub current_scene_index: usize,
}

impl View for ScenarioFile {
    type V = ScenarioFileView;

    open spec fn view(&self) -> ScenarioFileView {
        ScenarioFileView {
            title: self.title@,
            scenes: self.scenes.deep_view(),
            current_scene_index: self.current_scene_index,
        }
    }
}

impl Clone for ScenarioFile {
    fn clone(&self) -> (r: Self)
        ensures
            r@ == self@,
    {
        let mut scenes: Vec<Scene> = Vec::new();
        let mut i: usize = 0;
        while i < self.scenes.len()
            invariant
                i <= self.scenes.len(),
                scenes.len() == i,
                forall|j: int| 0 <= j < i ==> scenes[j]@ == self.scenes[j]@,
            decreases self.scenes.len() - i,
        {
            scenes.push(self.scenes[i].clone());
            i += 1;
        }
        assert(scenes.deep_view() == self.scenes.deep_view());
        ScenarioFile {
            title: self.title.clone(),
            scenes,
            current_scene_index: self.current_scene_index,
        }
    }
}

impl Default for ScenarioFile {
    /// A scenario without scenes, under a stock title.
    fn default() -> (r: Self)
        ensures
            r@ == (ScenarioFileView {
                title: "デフォルトシナリオ"@,
                scenes: Seq::empty(),
                current_scene_index: 0,
            }),
    {
        let r = ScenarioFile {
            title: String::from_str("デフォルトシナリオ"),
            scenes: Vec::new(),
            current_scene_index: 0,
        };
        assert(r.scenes.deep_view() == Seq::<SceneView>::empty());
        r
    }
}

/// Why a line was not accepted as a command.
#[derive(Debug, PartialEq)]
pub enum ParseErrorKind {
    /// The text is not enclosed in `[` and `]`. Holds the text.
    InvalidFormat { text: String },
    /// Nothing but white space stands between the brackets.
    EmptyCommand,
    /// A parameter has no `=`. Holds the parameter.
    InvalidParameter { parameter: String },
    /// The command's name is not one of the format. Holds the name.
    UnknownCommand { name: String },
    /// The command lacks a key that it requires.
    MissingParameter { command: String, key: String },
    /// The value under a key of the command cannot be read.
    InvalidParameterValue { command: String, key: String },
    /// The text between backticks does not begin with a known word, or
    /// names nothing after it. Holds the text.
    UnknownShorthand { text: String },
}

/// What a [`ParseErrorKind`] holds, as mathematical values.
pub enum ParseErrorKindView {
    InvalidFormat { text: Seq<char> },
    EmptyCommand,
    InvalidParameter { parameter: Seq<char> },
    UnknownCommand { name: Seq<char> },
    MissingParameter { command: Seq<char>, key: Seq<char> },
    InvalidParameterValue { command: Seq<char>, key: Seq<char> },
    UnknownShorthand { text: Seq<char> },
}

impl View for ParseErrorKind {
    type V = ParseErrorKindView;

    open spec fn view(&self) -> ParseErrorKindView {
        match *self {
            ParseErrorKind::InvalidFormat { text } => ParseErrorKindView::InvalidFormat {
                text: text@,
            },
            ParseErrorKind::EmptyCommand => ParseErrorKindView::EmptyCommand,
            ParseErrorKind::InvalidParameter { parameter } => ParseErrorKindView::InvalidParameter {
                parameter: parameter@,
            },
            ParseErrorKind::UnknownCommand { name } => ParseErrorKindView::UnknownCommand {
                name: name@,
            },
            ParseErrorKind::MissingParameter { command, key } => ParseErrorKindView::MissingParameter {
                command: command@,
                key: key@,
            },
            ParseErrorKind::InvalidParameterValue {
                command,
                key,
            } => ParseErrorKindView::InvalidParameterValue { command: command@, key: key@ },
            ParseErrorKind::UnknownShorthand { text } => ParseErrorKindView::UnknownShorthand {
                text: text@,
            },
        }
    }
}

impl Clone for ParseErrorKind {
    fn clone(&self) -> (r: Self)
        ensures
            r@ == self@,
    {
        match self {
            ParseErrorKind::InvalidFormat { text } => ParseErrorKind::InvalidFormat {
                text: text.clone(),
            },
            ParseErrorKind::EmptyCommand => ParseErrorKind::EmptyCommand,
            ParseErrorKind::InvalidParameter { parameter } => ParseErrorKind::InvalidParameter {
                parameter: parameter.clone(),
            },
            ParseErrorKind::UnknownCommand { name } => ParseErrorKind::UnknownCommand {
                name: name.clone(),
            },
            ParseErrorKind::MissingParameter { command, key } => ParseErrorKind::MissingParameter {
                command: command.clone(),
                key: key.clone(),
            },
            ParseErrorKind::InvalidParameterValue {
                command,
                key,
            } => ParseErrorKind::InvalidParameterValue { command: command.clone(), key: key.clone() },
            ParseErrorKind::UnknownShorthand { text } => ParseErrorKind::UnknownShorthand {
                text: text.clone(),
            },
        }
    }
}

/// A line that was not accepted as a command, and why.
#[derive(Debug, PartialEq)]
pub struct ParseError {
    /// The line's number in its document, counted from 1; 0 where the text
    /// was read on its own.
    pub line_number: usize,
    pub kind: ParseErrorKind,
}

/// What a [`ParseError`] holds, as mathematical values.
pub struct ParseErrorView {
    pub line_number: usize,
    pub kind: ParseErrorKindView,
}

impl View for ParseError {
    type V = ParseErrorView;

    open spec fn view(&self) -> ParseErrorView {
        ParseErrorView { line_number: self.line_number, kind: self.kind@ }
    }
}

impl DeepView for ParseError {
    type V = ParseErrorView;

    open spec fn deep_view(&self) -> ParseErrorView {
        self@
    }
}

impl Clone for ParseError {
    fn clone(&self) -> (r: Self)
        ensures
            r@ == self@,
    {
        ParseError { line_number: self.line_number, kind: self.kind.clone() }
    }
}

/// What reading the lines of one scene came to: the scene, if the lines
/// made one, and the lines that were rejected.
#[derive(Debug)]
pub struct ParseResult {
    pub scene: Option<Scene>,
    pub errors: Vec<ParseError>,
}

/// What a [`ParseResult`] holds, as mathematical values.
pub struct ParseResultView {
    pub scene: Option<SceneView>,
    pub errors: Seq<ParseErrorView>,
}

impl View for ParseResult {
    type V = ParseResultView;

    open spec fn view(&self) -> ParseResultView {
        ParseResultView { scene: self.scene.deep_view(), errors: self.errors.deep_view() }
    }
}

/// The text that reports an error of the given kind.
pub open spec fn message_text(kind: ParseErrorKindView) -> Seq<char> {
    match kind {
        ParseErrorKindView::InvalidFormat { text } => "コマンド形式が無効: "@ + text,
        ParseErrorKindView::EmptyCommand => "空のコマンド"@,
        ParseErrorKindView::InvalidParameter { parameter } => "無効なパラメータ形式: "@ + parameter,
        ParseErrorKindView::UnknownCommand { name } => "未対応のコマンド: "@ + name,
        ParseErrorKindView::MissingParameter { command, key } => command + " コマンドには "@ + key
            + " パラメータが必要"@,
        ParseErrorKindView::InvalidParameterValue { command, key } => command + " の "@ + key
            + " パラメータは数値である必要があります"@,
        ParseErrorKindView::UnknownShorthand { text } => "独自コマンド解析失敗: "@ + text,
    }
}

impl ParseError {
    /// The text that reports this error.
    pub fn message(&self) -> (r: String)
        ensures
            r@ == message_text(self.kind@),
    {
        match &self.kind {
            ParseErrorKind::InvalidFormat { text } => String::from_str("コマンド形式が無効: ").concat(
                text.as_str(),
            ),
            ParseErrorKind::EmptyCommand => String::from_str("空のコマンド"),
            ParseErrorKind::InvalidParameter { parameter } => String::from_str(
                "無効なパラメータ形式: ",
            ).concat(parameter.as_str()),
            ParseErrorKind::UnknownCommand { name } => String::from_str("未対応のコマンド: ").concat(
                name.as_str(),
            ),
            ParseErrorKind::MissingParameter { command, key } => command.clone().concat(
                " コマンドには ",
            ).concat(key.as_str()).concat(" パラメータが必要"),
            ParseErrorKind::InvalidParameterValue { command, key } => command.clone().concat(
                " の ",
            ).concat(key.as_str()).concat(" パラメータは数値である必要があります"),
            ParseErrorKind::UnknownShorthand { text } => String::from_str(
                "独自コマンド解析失敗: ",
            ).concat(text.as_str()),
        }
    }
}

/// The position that a name in lower case stands for: `left`, `center` or
/// `right`; any other name stands for the centre.
pub open spec fn position_named(lowered: Seq<char>) -> CharacterPosition {
    if lowered == "left"@ {
        CharacterPosition::Left
    } else if lowered == "right"@ {
        CharacterPosition::Right
    } else {
        CharacterPosition::Center
    }
}

impl<'a> From<&'a str> for CharacterPosition {
    /// The position that `name` stands for, whatever the case of its letters.
    fn from(name: &'a str) -> (r: CharacterPosition) {
        let lowered = to_lowercase(name);
        CharacterPosition::from_lowercase(lowered.as_str())
    }
}

impl<'a> vstd::std_specs::convert::FromSpecImpl<&'a str> for CharacterPosition {
    open spec fn obeys_from_spec() -> bool {
        true
    }

    open spec fn from_spec(name: &'a str) -> CharacterPosition {
        position_named(lowercase_of(name@))
    }
}

impl CharacterPosition {
    /// The position that a name in lower case stands for.
    pub fn from_lowercase(lowered: &str) -> (r: CharacterPosition)
        ensures
            r == position_named(lowered@),
    {
        let v = to_chars(lowered);
        if equals_str(&v, "left") {
            CharacterPosition::Left
        } else if equals_str(&v, "right") {
            CharacterPosition::Right
        } else {
            CharacterPosition::Center
        }
    }
}

/// Whether the parameter `token` has an equals sign.
pub open spec fn has_equals(token: Seq<char>) -> bool {
    prefix_len(token, CharClass::Except('=')) < token.len()
}

/// What stands before the first equals sign of `token`.
pub open spec fn param_key(token: Seq<char>) -> Seq<char> {
    token.take(prefix_len(token, CharClass::Except('=')) as int)
}

/// What stands after the first equals sign of `token`.
pub open spec fn param_value(token: Seq<char>) -> Seq<char> {
    token.skip(prefix_len(token, CharClass::Except('=')) as int + 1)
}

/// The first of `params` that has no equals sign.
pub open spec fn first_malformed(params: Seq<Seq<char>>) -> Option<Seq<char>>
    decreases params.len(),
{
    if params.len() == 0 {
        None
    } else if !has_equals(params[0]) {
        Some(params[0])
    } else {
        first_malformed(params.drop_first())
    }
}

/// The value that `params` give to `key`: that of the last parameter that
/// has an equals sign and this key before it.
pub open spec fn lookup(params: Seq<Seq<char>>, key: Seq<char>) -> Option<Seq<char>>
    decreases params.len(),
{
    if params.len() == 0 {
        None
    } else if has_equals(params.last()) && param_key(params.last()) == key {
        Some(param_value(params.last()))
    } else {
        lookup(params.drop_last(), key)
    }
}

/// The number under `key`, where `params` have the key and its value
/// writes one.
pub open spec fn lookup_u32(params: Seq<Seq<char>>, key: Seq<char>) -> Option<u32> {
    match lookup(params, key) {
        Some(value) => read_u32(value),
        None => None,
    }
}

/// The truth value under `key`, where `params` have the key and its value
/// writes one.
pub open spec fn lookup_bool(params: Seq<Seq<char>>, key: Seq<char>) -> Option<bool> {
    match lookup(params, key) {
        Some(value) => read_bool(value),
        None => None,
    }
}

/// The position under `key`, where `params` have the key.
pub open spec fn lookup_position(params: Seq<Seq<char>>, key: Seq<char>) -> Option<
    CharacterPosition,
> {
    match lookup(params, key) {
        Some(value) => Some(position_named(lowercase_of(value))),
        None => None,
    }
}

/// The error for a command that lacks `key`.
pub open spec fn missing(command: Seq<char>, key: Seq<char>) -> ParseErrorKindView {
    ParseErrorKindView::MissingParameter { command, key }
}

/// The command that `name` and `params` make, or why they make none.
pub open spec fn command_of(name: Seq<char>, params: Seq<Seq<char>>) -> Result<
    SceneCommandView,
    ParseErrorKindView,
> {
    if name == "bg"@ {
        match lookup(params, "storage"@) {
            Some(storage) => Ok(
                SceneCommandView::Background { storage, time: lookup_u32(params, "time"@) },
            ),
            None => Err(missing(name, "storage"@)),
        }
    } else if name == "chara_show"@ {
        match lookup(params, "name"@) {
            Some(who) => Ok(
                SceneCommandView::CharacterShow {
                    name: who,
                    face: lookup(params, "face"@),
                    pos: lookup_position(params, "pos"@),
                },
            ),
            None => Err(missing(name, "name"@)),
        }
    } else if name == "chara_hide"@ {
        match lookup(params, "name"@) {
            Some(who) => Ok(SceneCommandView::CharacterHide { name: who }),
            None => Err(missing(name, "name"@)),
        }
    } else if name == "bgm"@ {
        match lookup(params, "play"@) {
            Some(play) => Ok(
                SceneCommandView::Bgm {
                    play,
                    volume: lookup(params, "volume"@),
                    loop_audio: lookup_bool(params, "loop"@),
                },
            ),
            None => Err(missing(name, "play"@)),
        }
    } else if name == "se"@ {
        match lookup(params, "play"@) {
            Some(play) => Ok(SceneCommandView::Se { play, volume: lookup(params, "volume"@) }),
            None => Err(missing(name, "play"@)),
        }
    } else if name == "wait"@ {
        match lookup(params, "time"@) {
            Some(value) => match read_u32(value) {
                Some(time) => Ok(SceneCommandView::Wait { time }),
                None => Err(
                    ParseErrorKindView::InvalidParameterValue { command: name, key: "time"@ },
                ),
            },
            None => Err(missing(name, "time"@)),
        }
    } else if name == "choice"@ {
        match lookup(params, "text"@) {
            Some(text) => Ok(SceneCommandView::Choice { text }),
            None => Err(missing(name, "text"@)),
        }
    } else {
        Err(ParseErrorKindView::UnknownCommand { name })
    }
}

/// The command that `text` writes, or why it writes none.
///
/// The text, without the white space around it, must stand between `[` and
/// `]`. Between them white space parts the command's name from its
/// parameters, each a key, an equals sign and a value. A malformed parameter
/// is reported before an unknown name.
pub open spec fn parsed_command(text: Seq<char>) -> Result<SceneCommandView, ParseErrorKindView> {
    let line = trim(text);
    if !enclosed_by(line, '[', ']') {
        Err(ParseErrorKindView::InvalidFormat { text })
    } else {
        let tokens = words(inner(line));
        if tokens.len() == 0 {
            Err(ParseErrorKindView::EmptyCommand)
        } else {
            match first_malformed(tokens.skip(1)) {
                Some(parameter) => Err(ParseErrorKindView::InvalidParameter { parameter }),
                None => command_of(tokens[0], tokens.skip(1)),
            }
        }
    }
}

/// The key that a command of the given name cannot do without; none for a
/// name that is not one of the format.
pub open spec fn required_key(name: Seq<char>) -> Option<Seq<char>> {
    if name == "bg"@ {
        Some("storage"@)
    } else if name == "chara_show"@ || name == "chara_hide"@ {
        Some("name"@)
    } else if name == "bgm"@ || name == "se"@ {
        Some("play"@)
    } else if name == "wait"@ {
        Some("time"@)
    } else if name == "choice"@ {
        Some("text"@)
    } else {
        None
    }
}

/// Whether `text` is well formed as a command: it stands in brackets, begins
/// with a name of the format, each parameter has an equals sign, the key
/// that the name requires is given, and the time of a wait is a number.
pub open spec fn is_well_formed_command(text: Seq<char>) -> bool {
    let line = trim(text);
    let tokens = words(inner(line));
    &&& enclosed_by(line, '[', ']')
    &&& tokens.len() > 0
    &&& first_malformed(tokens.skip(1)) is None
    &&& match required_key(tokens[0]) {
        Some(key) => match lookup(tokens.skip(1), key) {
            Some(value) => tokens[0] == "wait"@ ==> read_u32(value) is Some,
            None => false,
        },
        None => false,
    }
}

/// The names of the format are seven different names.
proof fn lemma_names_differ()
    ensures
        "bg"@ != "chara_show"@,
        "bg"@ != "chara_hide"@,
        "bg"@ != "bgm"@,
        "bg"@ != "se"@,
        "bg"@ != "wait"@,
        "bg"@ != "choice"@,
        "chara_show"@ != "wait"@,
        "chara_hide"@ != "wait"@,
        "bgm"@ != "wait"@,
        "se"@ != "wait"@,
{
    reveal_strlit("bg");
    reveal_strlit("chara_show");
    reveal_strlit("chara_hide");
    reveal_strlit("bgm");
    reveal_strlit("se");
    reveal_strlit("wait");
    reveal_strlit("choice");
    assert("bg"@.len() == 2 && "bg"@[0] == 'b');
    assert("chara_show"@.len() == 10);
    assert("chara_hide"@.len() == 10);
    assert("bgm"@.len() == 3);
    assert("se"@.len() == 2 && "se"@[0] == 's');
    assert("wait"@.len() == 4);
    assert("choice"@.len() == 6);
}

/// A text is read as a command if it is well formed as one, and only then.
pub proof fn lemma_command_accepted_iff_well_formed(text: Seq<char>)
    ensures
        parsed_command(text) is Ok <==> is_well_formed_command(text),
{
    lemma_names_differ();
}

/// What is wrong with a text decides the error that it is rejected with: a
/// text that does not stand in brackets, a name that is not one of the
/// format, a key that the name requires and that is not given.
pub proof fn lemma_malformed_command_rejected(text: Seq<char>)
    ensures
        !enclosed_by(trim(text), '[', ']') ==> parsed_command(text) == Err::<
            SceneCommandView,
            ParseErrorKindView,
        >(ParseErrorKindView::InvalidFormat { text }),
        ({
            let tokens = words(inner(trim(text)));
            &&& enclosed_by(trim(text), '[', ']')
            &&& tokens.len() > 0
            &&& first_malformed(tokens.skip(1)) is None
            &&& required_key(tokens[0]) is None
        }) ==> parsed_command(text) == Err::<SceneCommandView, ParseErrorKindView>(
            ParseErrorKindView::UnknownCommand { name: words(inner(trim(text)))[0] },
        ),
        ({
            let tokens = words(inner(trim(text)));
            &&& enclosed_by(trim(text), '[', ']')
            &&& tokens.len() > 0
            &&& first_malformed(tokens.skip(1)) is None
            &&& required_key(tokens[0]) matches Some(key)
            &&& lookup(tokens.skip(1), key) is None
        }) ==> parsed_command(text) == Err::<SceneCommandView, ParseErrorKindView>(
            missing(
                words(inner(trim(text)))[0],
                required_key(words(inner(trim(text)))[0])->0,
            ),
        ),
{
    lemma_names_differ();
}

/// A parameter made of a key without an equals sign, an equals sign and a
/// value is parted into that key and that value.
pub proof fn lemma_param_parts(key: Seq<char>, value: Seq<char>)
    requires
        forall|i: int| 0 <= i < key.len() ==> #[trigger] key[i] != '=',
    ensures
        has_equals(key + seq!['='] + value),
        param_key(key + seq!['='] + value) == key,
        param_value(key + seq!['='] + value) == value,
{
    let token = key + seq!['='] + value;
    assert forall|i: int| 0 <= i < key.len() implies CharClass::Except('=').holds(
        #[trigger] token[i],
    ) by {
        assert(token[i] == key[i]);
    }
    assert(token[key.len() as int] == '=');
    lemma_prefix_len_is(token, CharClass::Except('='), key.len() as int);
    assert(token.take(key.len() as int) == key);
    assert(token.skip(key.len() as int + 1) == value);
}

/// The words of a command's name and two parameters, with one space
/// between them.
proof fn lemma_words_of_three(a: Seq<char>, b: Seq<char>, c: Seq<char>)
    requires
        a.len() > 0 && is_word(a),
        b.len() > 0 && is_word(b),
        c.len() > 0 && is_word(c),
    ensures
        words(a + seq![' '] + b + seq![' '] + c) == seq![a, b, c],
        words(a + seq![' '] + b) == seq![a, b],
{
    let space = seq![' '];
    let nothing = Seq::<char>::empty();
    lemma_words_of_blank(nothing);
    lemma_words_first(c, nothing);
    assert(c + nothing == c);
    lemma_words_after_space(space + c);
    assert((space + c).drop_first() == c);
    lemma_words_first(b, space + c);
    lemma_words_after_space(space + (b + (space + c)));
    assert((space + (b + (space + c))).drop_first() == b + (space + c));
    lemma_words_first(a, space + (b + (space + c)));
    assert(a + (space + (b + (space + c))) == a + space + b + space + c);
    assert(seq![a] + (seq![b] + (seq![c] + Seq::<Seq<char>>::empty())) == seq![a, b, c]);
    lemma_words_first(b, nothing);
    assert(b + nothing == b);
    lemma_words_after_space(space + b);
    assert((space + b).drop_first() == b);
    lemma_words_first(a, space + b);
    assert(a + (space + b) == a + space + b);
    assert(seq![a] + (seq![b] + Seq::<Seq<char>>::empty()) == seq![a, b]);
}

/// A background command is read as it is written: with a storage and a
/// time it gives both, and without a time it gives the storage alone. The
/// storage is any text without white space.
pub proof fn lemma_background_command(storage: Seq<char>, time: u32)
    requires
        is_word(storage),
    ensures
        parsed_command("[bg storage="@ + storage + " time="@ + decimal(time as nat) + "]"@)
            == Ok::<SceneCommandView, ParseErrorKindView>(
            SceneCommandView::Background { storage, time: Some(time) },
        ),
        parsed_command("[bg storage="@ + storage + "]"@) == Ok::<
            SceneCommandView,
            ParseErrorKindView,
        >(SceneCommandView::Background { storage, time: None }),
{
    reveal_strlit("[bg storage=");
    reveal_strlit(" time=");
    reveal_strlit("]");
    reveal_strlit("bg");
    reveal_strlit("storage");
    reveal_strlit("time");
    let digits = decimal(time as nat);
    lemma_decimal_is_word(time as nat);
    lemma_read_decimal(time);
    let name = "bg"@;
    let first = "storage"@ + seq!['='] + storage;
    let second = "time"@ + seq!['='] + digits;
    lemma_param_parts("storage"@, storage);
    lemma_param_parts("time"@, digits);
    assert(is_word(first)) by {
        assert forall|i: int| 0 <= i < first.len() implies !crate::text::is_whitespace(
            #[trigger] first[i],
        ) by {
            if i > 7 {
                assert(first[i] == storage[i - 8]);
            }
        }
    }
    assert(is_word(second)) by {
        assert forall|i: int| 0 <= i < second.len() implies !crate::text::is_whitespace(
            #[trigger] second[i],
        ) by {
            if i > 4 {
                assert(second[i] == digits[i - 5]);
            }
        }
    }
    assert(is_word(name));
    lemma_words_of_three(name, first, second);
    assert("storage"@ != "time"@) by {
        assert("storage"@[0] != "time"@[0]);
    }
    {
        let text = "[bg storage="@ + storage + " time="@ + digits + "]"@;
        assert(text.first() == '[');
        assert(text.last() == ']');
        lemma_trim_spotless(text);
        assert(inner(text) == name + seq![' '] + first + seq![' '] + second);
        let tokens = seq![name, first, second];
        let params = tokens.skip(1);
        assert(params == seq![first, second]);
        assert(params.drop_first() == seq![second]);
        assert(params.drop_first().drop_first() == Seq::<Seq<char>>::empty());
        assert(first_malformed(params) is None) by {
            reveal_with_fuel(first_malformed, 3);
        }
        assert(params.drop_last() == seq![first]);
        assert(params.drop_last().drop_last() == Seq::<Seq<char>>::empty());
        assert(lookup(params, "storage"@) == Some(storage)) by {
            reveal_with_fuel(lookup, 3);
        }
        assert(lookup(params, "time"@) == Some(digits)) by {
            reveal_with_fuel(lookup, 3);
        }
    }
    {
        let text = "[bg storage="@ + storage + "]"@;
        assert(text.first() == '[');
        assert(text.last() == ']');
        lemma_trim_spotless(text);
        assert(inner(text) == name + seq![' '] + first);
        let tokens = seq![name, first];
        let params = tokens.skip(1);
        assert(params == seq![first]);
        assert(params.drop_first() == Seq::<Seq<char>>::empty());
        assert(params.drop_last() == Seq::<Seq<char>>::empty());
        assert(first_malformed(params) is None) by {
            reveal_with_fuel(first_malformed, 3);
        }
        assert(lookup(params, "storage"@) == Some(storage)) by {
            reveal_with_fuel(lookup, 3);
        }
        assert(lookup(params, "time"@) is None) by {
            reveal_with_fuel(lookup, 3);
        }
    }
}

/// What `r` holds, as mathematical values.
pub open spec fn command_result_view(r: Result<SceneCommand, ParseError>) -> Result<
    SceneCommandView,
    ParseErrorKindView,
> {
    match r {
        Ok(command) => Ok(command@),
        Err(error) => Err(error.kind@),
    }
}

/// The first of `tokens`, after the command's name, that has no equals sign.
fn find_malformed(tokens: &Vec<Vec<char>>) -> (r: Option<usize>)
    requires
        tokens.len() >= 1,
    ensures
        match r {
            Some(i) => 1 <= i < tokens.len() && first_malformed(texts_of(tokens@).skip(1)) == Some(
                tokens[i as int]@,
            ),
            None => first_malformed(texts_of(tokens@).skip(1)) is None,
        },
{
    let ghost params = texts_of(tokens@).skip(1);
    let mut i: usize = 1;
    assert(params.skip(0) == params);
    while i < tokens.len()
        invariant
            1 <= i <= tokens.len(),
            params == texts_of(tokens@).skip(1),
            first_malformed(params.skip(i - 1)) == first_malformed(params),
        decreases tokens.len() - i,
    {
        let token = &tokens[i];
        let end = scan(token, 0, CharClass::Except('='));
        proof {
            assert(token@.skip(0) == token@);
            assert(params.skip(i - 1)[0] == token@);
            assert(params.skip(i - 1).drop_first() == params.skip(i as int));
        }
        if end == token.len() {
            return Some(i);
        }
        i += 1;
    }
    None
}

/// The value that the parameters among `tokens` give to `key`.
fn find_param(tokens: &Vec<Vec<char>>, key: &str) -> (r: Option<Vec<char>>)
    requires
        tokens.len() >= 1,
    ensures
        r.deep_view() == lookup(texts_of(tokens@).skip(1), key@),
{
    let ghost params = texts_of(tokens@).skip(1);
    let mut i: usize = tokens.len();
    assert(params.take(params.len() as int) == params);
    while i > 1
        invariant
            1 <= i <= tokens.len(),
            params == texts_of(tokens@).skip(1),
            lookup(params.take(i - 1), key@) == lookup(params, key@),
        decreases i,
    {
        let token = &tokens[i - 1];
        let end = scan(token, 0, CharClass::Except('='));
        let token_key = slice(token, 0, end);
        proof {
            assert(token@.skip(0) == token@);
            assert(params.take(i - 1).last() == token@);
            assert(params.take(i - 1).drop_last() == params.take(i - 2));
            assert(token_key@ == param_key(token@));
        }
        if end < token.len() && equals_str(&token_key, key) {
            let value = slice(token, end + 1, token.len());
            assert(value@ == param_value(token@));
            assert(value.deep_view() == value@);
            return Some(value);
        }
        i -= 1;
    }
    None
}

/// The string of `v`, where there is one.
fn optional_string(v: Option<Vec<char>>) -> (r: Option<String>)
    ensures
        r.deep_view() == v.deep_view(),
{
    match v {
        Some(chars) => {
            assert(chars.deep_view() == chars@);
            Some(to_string(&chars))
        },
        None => None,
    }
}

/// The error that reports `kind` for a text read on its own.
fn error(kind: ParseErrorKind) -> (r: ParseError)
    ensures
        r.kind == kind,
        r.line_number == 0,
{
    ParseError { line_number: 0, kind }
}

/// The error for `command` lacking `key`.
fn missing_parameter(command: &str, key: &str) -> (r: ParseError)
    ensures
        r.kind@ == missing(command@, key@),
        r.line_number == 0,
{
    error(
        ParseErrorKind::MissingParameter {
            command: String::from_str(command),
            key: String::from_str(key),
        },
    )
}

impl SceneCommand {
    /// Reads the command that `command_str` writes.
    pub fn parse(command_str: &str) -> (r: Result<SceneCommand, ParseError>)
        ensures
            command_result_view(r) == parsed_command(command_str@),
            r matches Err(e) ==> e.line_number == 0,
    {
        SceneCommand::parse_chars(&to_chars(command_str))
    }

    /// Reads the command that the characters `text` write.
    pub fn parse_chars(text: &Vec<char>) -> (r: Result<SceneCommand, ParseError>)
        ensures
            command_result_view(r) == parsed_command(text@),
            r matches Err(e) ==> e.line_number == 0,
    {
        let line = trimmed(text);
        if !is_enclosed_by(&line, '[', ']') {
            return Err(error(ParseErrorKind::InvalidFormat { text: to_string(text) }));
        }
        let body = inner_of(&line);
        let tokens = split_words(&body);
        if tokens.len() == 0 {
            return Err(error(ParseErrorKind::EmptyCommand));
        }
        assert(texts_of(tokens@)[0] == tokens[0]@);
        match find_malformed(&tokens) {
            Some(i) => {
                return Err(
                    error(ParseErrorKind::InvalidParameter { parameter: to_string(&tokens[i]) }),
                );
            },
            None => {},
        }
        SceneCommand::from_tokens(&tokens)
    }

    /// The command that the name and the parameters in `tokens` make.
    fn from_tokens(tokens: &Vec<Vec<char>>) -> (r: Result<SceneCommand, ParseError>)
        requires
            tokens.len() >= 1,
        ensures
            command_result_view(r) == command_of(tokens[0]@, texts_of(tokens@).skip(1)),
            r matches Err(e) ==> e.line_number == 0,
    {
        let name = &tokens[0];
        if equals_str(name, "bg") {
            match optional_string(find_param(tokens, "storage")) {
                Some(storage) => {
                    let time = match find_param(tokens, "time") {
                        Some(value) => {
                            assert(value.deep_view() == value@);
                            parse_u32(&value)
                        },
                        None => None,
                    };
                    Ok(SceneCommand::Background { storage, time })
                },
                None => Err(missing_parameter("bg", "storage")),
            }
        } else if equals_str(name, "chara_show") {
            match optional_string(find_param(tokens, "name")) {
                Some(who) => {
                    let face = optional_string(find_param(tokens, "face"));
                    let pos = match optional_string(find_param(tokens, "pos")) {
                        Some(value) => Some(CharacterPosition::from(value.as_str())),
                        None => None,
                    };
                    Ok(SceneCommand::CharacterShow { name: who, face, pos })
                },
                None => Err(missing_parameter("chara_show", "name")),
            }
        } else if equals_str(name, "chara_hide") {
            match optional_string(find_param(tokens, "name")) {
                Some(who) => Ok(SceneCommand::CharacterHide { name: who }),
                None => Err(missing_parameter("chara_hide", "name")),
            }
        } else if equals_str(name, "bgm") {
            match optional_string(find_param(tokens, "play")) {
                Some(play) => {
                    let volume = optional_string(find_param(tokens, "volume"));
                    let loop_audio = match find_param(tokens, "loop") {
                        Some(value) => {
                            assert(value.deep_view() == value@);
                            parse_bool(&value)
                        },
                        None => None,
                    };
                    Ok(SceneCommand::Bgm { play, volume, loop_audio })
                },
                None => Err(missing_parameter("bgm", "play")),
            }
        } else if equals_str(name, "se") {
            match optional_string(find_param(tokens, "play")) {
                Some(play) => {
                    let volume = optional_string(find_param(tokens, "volume"));
                    Ok(SceneCommand::Se { play, volume })
                },
                None => Err(missing_parameter("se", "play")),
            }
        } else if equals_str(name, "wait") {
            match find_param(tokens, "time") {
                Some(value) => {
                    assert(value.deep_view() == value@);
                    match parse_u32(&value) {
                        Some(time) => Ok(SceneCommand::Wait { time }),
                        None => Err(
                            error(
                                ParseErrorKind::InvalidParameterValue {
                                    command: String::from_str("wait"),
                                    key: String::from_str("time"),
                                },
                            ),
                        ),
                    }
                },
                None => Err(missing_parameter("wait", "time")),
            }
        } else if equals_str(name, "choice") {
            match optional_string(find_param(tokens, "text")) {
                Some(text) => Ok(SceneCommand::Choice { text }),
                None => Err(missing_parameter("choice", "text")),
            }
        } else {
            Err(error(ParseErrorKind::UnknownCommand { name: to_string(name) }))
        }
    }
}

/// The speaker of a line and what follows the speaker: the text between the
/// first `**` and the next one, and the text after that, each without the
/// white space around it. `None` where the line has no two `**`.
pub open spec fn speaker_split(line: Seq<char>) -> Option<(Seq<char>, Seq<char>)> {
    match first_match(line, "**"@) {
        Some(open) => {
            let rest = line.skip(open + 2);
            match first_match(rest, "**"@) {
                Some(close) => Some((trim(rest.take(close)), trim(rest.skip(close + 2)))),
                None => None,
            }
        },
        None => None,
    }
}

/// What a speaker says, given what follows the speaker's name: the text
/// between `「` and `」`, or the text after a colon without the white space
/// around it, or else all of it.
pub open spec fn spoken_text(rest: Seq<char>) -> Seq<char> {
    if enclosed_by(rest, '「', '」') {
        inner(rest)
    } else if rest.len() > 0 && rest[0] == ':' {
        trim(rest.skip(1))
    } else {
        rest
    }
}

/// The dialogue block that `line` writes: none for a line of white space, a
/// speaker's words where the line names a speaker between two `**`, and
/// narration otherwise.
pub open spec fn parsed_dialogue(line: Seq<char>) -> Option<DialogueBlockView> {
    let t = trim(line);
    if t.len() == 0 {
        None
    } else {
        match speaker_split(t) {
            Some((speaker, rest)) => Some(
                DialogueBlockView { speaker: Some(speaker), text: spoken_text(rest) },
            ),
            None => Some(DialogueBlockView { speaker: None, text: t }),
        }
    }
}

/// The speaker of `line` and what follows the speaker.
fn split_speaker(line: &Vec<char>) -> (r: Option<(Vec<char>, Vec<char>)>)
    ensures
        match r {
            Some((speaker, rest)) => speaker_split(line@) == Some((speaker@, rest@)),
            None => speaker_split(line@) is None,
        },
{
    let marker = to_chars("**");
    proof {
        reveal_strlit("**");
    }
    match find(line, &marker) {
        Some(open) => {
            let rest = slice(line, open + 2, line.len());
            assert(rest@ == line@.skip(open + 2));
            match find(&rest, &marker) {
                Some(close) => {
                    let speaker = trimmed(&slice(&rest, 0, close));
                    let after = trimmed(&slice(&rest, close + 2, rest.len()));
                    assert(rest@.subrange(0, close as int) == rest@.take(close as int));
                    assert(rest@.subrange(close + 2, rest.len() as int) == rest@.skip(close + 2));
                    Some((speaker, after))
                },
                None => None,
            }
        },
        None => None,
    }
}

/// What a speaker says, given what follows the speaker's name.
fn text_spoken(rest: &Vec<char>) -> (r: Vec<char>)
    ensures
        r@ == spoken_text(rest@),
{
    if is_enclosed_by(rest, '「', '」') {
        inner_of(rest)
    } else if rest.len() > 0 && rest[0] == ':' {
        let after = slice(rest, 1, rest.len());
        assert(after@ == rest@.skip(1));
        trimmed(&after)
    } else {
        slice(rest, 0, rest.len())
    }
}

impl DialogueBlock {
    /// Reads the dialogue block that `line` writes.
    pub fn parse(line: &str) -> (r: Option<DialogueBlock>)
        ensures
            r.deep_view() == parsed_dialogue(line@),
    {
        DialogueBlock::parse_chars(&to_chars(line))
    }

    /// Reads the dialogue block that the characters `line` write.
    pub fn parse_chars(line: &Vec<char>) -> (r: Option<DialogueBlock>)
        ensures
            r.deep_view() == parsed_dialogue(line@),
    {
        let t = trimmed(line);
        if t.len() == 0 {
            return None;
        }
        match split_speaker(&t) {
            Some((speaker, rest)) => {
                let spoken = text_spoken(&rest);
                Some(DialogueBlock { speaker: Some(to_string(&speaker)), text: to_string(&spoken) })
            },
            None => Some(DialogueBlock { speaker: None, text: to_string(&t) }),
        }
    }
}

} // verus!
