use negaboku::scenario::{
    CharacterPosition, DialogueBlock, ParseError, ParseErrorKind, ParseResult, ScenarioFile,
    Scene, SceneCommand,
};

#[test]
fn test_scene_command_parse_bg() {
    let cmd = SceneCommand::parse("[bg storage=forest_day.jpg time=500]").unwrap();
    match cmd {
        SceneCommand::Background { storage, time } => {
            assert_eq!(storage, "forest_day.jpg");
            assert_eq!(time, Some(500));
        }
        _ => panic!("期待していたBackgroundコマンドではありません"),
    }
}

#[test]
fn test_scene_command_parse_chara_show() {
    let cmd = SceneCommand::parse("[chara_show name=souma face=normal pos=left]").unwrap();
    match cmd {
        SceneCommand::CharacterShow { name, face, pos } => {
            assert_eq!(name, "souma");
            assert_eq!(face, Some("normal".to_string()));
            assert_eq!(pos, Some(CharacterPosition::Left));
        }
        _ => panic!("期待していたCharacterShowコマンドではありません"),
    }
}

#[test]
fn test_dialogue_block_parse_with_speaker() {
    let block = DialogueBlock::parse("**ソウマ**「こんにちは」").unwrap();
    assert_eq!(block.speaker, Some("ソウマ".to_string()));
    assert_eq!(block.text, "こんにちは");
}

#[test]
fn test_dialogue_block_parse_narration() {
    let block = DialogueBlock::parse("遺跡の古い石造りの扉が、二人の前に立ちはだかっていた。").unwrap();
    assert_eq!(block.speaker, None);
    assert_eq!(block.text, "遺跡の古い石造りの扉が、二人の前に立ちはだかっていた。");
}

#[test]
fn test_command_execution_logging() {
    let bg_command = SceneCommand::Background { storage: "test_bg.jpg".to_string(), time: Some(1000) };

    match bg_command {
        SceneCommand::Background { storage, time } => {
            assert_eq!(storage, "test_bg.jpg");
            assert_eq!(time, Some(1000));
        }
        _ => panic!("期待していたBackgroundコマンドではありません"),
    }
}

fn kind_of(text: &str) -> ParseErrorKind {
    let error = SceneCommand::parse(text).unwrap_err();
    assert_eq!(error.line_number, 0);
    error.kind
}

fn background(storage: &str, time: Option<u32>) -> SceneCommand {
    SceneCommand::Background { storage: storage.to_string(), time }
}

fn missing(command: &str, key: &str) -> ParseErrorKind {
    ParseErrorKind::MissingParameter { command: command.to_string(), key: key.to_string() }
}

#[test]
fn background_with_and_without_time() {
    assert_eq!(SceneCommand::parse("[bg storage=a.jpg time=500]"), Ok(background("a.jpg", Some(500))));
    assert_eq!(SceneCommand::parse("[bg storage=a.jpg]"), Ok(background("a.jpg", None)));
    assert_eq!(SceneCommand::parse("[bg storage=a.jpg time=0]"), Ok(background("a.jpg", Some(0))));
    assert_eq!(
        SceneCommand::parse("[bg storage=a.jpg time=4294967295]"),
        Ok(background("a.jpg", Some(u32::MAX)))
    );
    for time in [0u32, 1, 9, 10, 99, 100, 500, 65535, 65536, 1000000, u32::MAX - 1, u32::MAX] {
        for storage in ["a", "forest_day.jpg", "背景.png", "a=b", "a]b", "[", ""] {
            let text = format!("[bg storage={} time={}]", storage, time);
            assert_eq!(SceneCommand::parse(&text), Ok(background(storage, Some(time))));
            let text = format!("[bg storage={}]", storage);
            assert_eq!(SceneCommand::parse(&text), Ok(background(storage, None)));
        }
    }
}

#[test]
fn background_time_that_is_no_number_is_left_out() {
    assert_eq!(SceneCommand::parse("[bg storage=a.jpg time=soon]"), Ok(background("a.jpg", None)));
    assert_eq!(SceneCommand::parse("[bg storage=a.jpg time=]"), Ok(background("a.jpg", None)));
    assert_eq!(SceneCommand::parse("[bg storage=a.jpg time=-1]"), Ok(background("a.jpg", None)));
    assert_eq!(SceneCommand::parse("[bg storage=a.jpg time=4294967296]"), Ok(background("a.jpg", None)));
    assert_eq!(SceneCommand::parse("[bg storage=a.jpg time=1.5]"), Ok(background("a.jpg", None)));
    assert_eq!(SceneCommand::parse("[bg storage=a.jpg time=+7]"), Ok(background("a.jpg", Some(7))));
    assert_eq!(SceneCommand::parse("[bg storage=a.jpg time=007]"), Ok(background("a.jpg", Some(7))));
}

#[test]
fn white_space_around_and_within_a_command() {
    assert_eq!(SceneCommand::parse("  [bg storage=a.jpg]\t"), Ok(background("a.jpg", None)));
    assert_eq!(SceneCommand::parse("[  bg   storage=a.jpg \t time=5  ]"), Ok(background("a.jpg", Some(5))));
    assert_eq!(SceneCommand::parse("\u{3000}[bg\u{3000}storage=a.jpg]\u{3000}"), Ok(background("a.jpg", None)));
    assert_eq!(SceneCommand::parse("[bg\nstorage=a.jpg]"), Ok(background("a.jpg", None)));
}

#[test]
fn the_last_of_repeated_keys_counts() {
    assert_eq!(
        SceneCommand::parse("[bg storage=a.jpg storage=b.jpg time=1 time=2]"),
        Ok(background("b.jpg", Some(2)))
    );
    assert_eq!(SceneCommand::parse("[bg time=2 storage=a.jpg time=x]"), Ok(background("a.jpg", None)));
    assert_eq!(SceneCommand::parse("[bg storage=a=b=c]"), Ok(background("a=b=c", None)));
    assert_eq!(SceneCommand::parse("[bg =x storage=a.jpg other=1]"), Ok(background("a.jpg", None)));
}

#[test]
fn text_that_is_not_in_brackets() {
    for text in ["[bg storage=a.jpg", "bg storage=a.jpg]", "bg storage=a.jpg", "", "   ", "[", "]", "][", "x[bg storage=a]", "[bg storage=a]x"] {
        assert_eq!(kind_of(text), ParseErrorKind::InvalidFormat { text: text.to_string() });
    }
}

#[test]
fn empty_command() {
    assert_eq!(kind_of("[]"), ParseErrorKind::EmptyCommand);
    assert_eq!(kind_of("[   ]"), ParseErrorKind::EmptyCommand);
    assert_eq!(kind_of(" [\t\u{3000}] "), ParseErrorKind::EmptyCommand);
}

#[test]
fn unknown_command_name() {
    assert_eq!(kind_of("[jump target=x]"), ParseErrorKind::UnknownCommand { name: "jump".to_string() });
    assert_eq!(kind_of("[BG storage=a.jpg]"), ParseErrorKind::UnknownCommand { name: "BG".to_string() });
    assert_eq!(kind_of("[bgx]"), ParseErrorKind::UnknownCommand { name: "bgx".to_string() });
    assert_eq!(kind_of("[storage=a.jpg]"), ParseErrorKind::UnknownCommand { name: "storage=a.jpg".to_string() });
}

#[test]
fn parameter_without_an_equals_sign() {
    assert_eq!(kind_of("[bg storage]"), ParseErrorKind::InvalidParameter { parameter: "storage".to_string() });
    assert_eq!(
        kind_of("[bg storage=a.jpg fast slow]"),
        ParseErrorKind::InvalidParameter { parameter: "fast".to_string() }
    );
    assert_eq!(kind_of("[jump now]"), ParseErrorKind::InvalidParameter { parameter: "now".to_string() });
    assert_eq!(
        kind_of("[bg storage = a.jpg]"),
        ParseErrorKind::InvalidParameter { parameter: "storage".to_string() }
    );
}

#[test]
fn missing_required_key() {
    assert_eq!(kind_of("[bg]"), missing("bg", "storage"));
    assert_eq!(kind_of("[bg time=500]"), missing("bg", "storage"));
    assert_eq!(kind_of("[bg Storage=a.jpg]"), missing("bg", "storage"));
    assert_eq!(kind_of("[chara_show face=normal]"), missing("chara_show", "name"));
    assert_eq!(kind_of("[chara_hide]"), missing("chara_hide", "name"));
    assert_eq!(kind_of("[bgm volume=1]"), missing("bgm", "play"));
    assert_eq!(kind_of("[se]"), missing("se", "play"));
    assert_eq!(kind_of("[wait]"), missing("wait", "time"));
    assert_eq!(kind_of("[choice]"), missing("choice", "text"));
}

#[test]
fn wait_needs_a_number() {
    assert_eq!(SceneCommand::parse("[wait time=1000]"), Ok(SceneCommand::Wait { time: 1000 }));
    assert_eq!(SceneCommand::parse("[wait time=+0]"), Ok(SceneCommand::Wait { time: 0 }));
    let invalid = ParseErrorKind::InvalidParameterValue { command: "wait".to_string(), key: "time".to_string() };
    for text in ["[wait time=soon]", "[wait time=]", "[wait time=-5]", "[wait time=4294967296]", "[wait time=1e3]", "[wait time=+]", "[wait time=１２]"] {
        assert_eq!(kind_of(text), invalid);
    }
}

#[test]
fn character_commands() {
    assert_eq!(
        SceneCommand::parse("[chara_show name=souma]"),
        Ok(SceneCommand::CharacterShow { name: "souma".to_string(), face: None, pos: None })
    );
    assert_eq!(
        SceneCommand::parse("[chara_show pos=RIGHT name=yuzuki face=smile]"),
        Ok(SceneCommand::CharacterShow {
            name: "yuzuki".to_string(),
            face: Some("smile".to_string()),
            pos: Some(CharacterPosition::Right),
        })
    );
    assert_eq!(
        SceneCommand::parse("[chara_show name=kai pos=elsewhere]"),
        Ok(SceneCommand::CharacterShow {
            name: "kai".to_string(),
            face: None,
            pos: Some(CharacterPosition::Center),
        })
    );
    assert_eq!(
        SceneCommand::parse("[chara_hide name=souma]"),
        Ok(SceneCommand::CharacterHide { name: "souma".to_string() })
    );
}

#[test]
fn positions_by_name() {
    assert_eq!(CharacterPosition::from("left"), CharacterPosition::Left);
    assert_eq!(CharacterPosition::from("Left"), CharacterPosition::Left);
    assert_eq!(CharacterPosition::from("LEFT"), CharacterPosition::Left);
    assert_eq!(CharacterPosition::from("center"), CharacterPosition::Center);
    assert_eq!(CharacterPosition::from("CENTER"), CharacterPosition::Center);
    assert_eq!(CharacterPosition::from("right"), CharacterPosition::Right);
    assert_eq!(CharacterPosition::from("rIgHt"), CharacterPosition::Right);
    assert_eq!(CharacterPosition::from(""), CharacterPosition::Center);
    assert_eq!(CharacterPosition::from("lef"), CharacterPosition::Center);
    assert_eq!(CharacterPosition::from(" left"), CharacterPosition::Center);
    assert_eq!(CharacterPosition::from_lowercase("left"), CharacterPosition::Left);
    assert_eq!(CharacterPosition::from_lowercase("right"), CharacterPosition::Right);
    assert_eq!(CharacterPosition::from_lowercase("LEFT"), CharacterPosition::Center);
    assert_eq!(CharacterPosition::from_lowercase("top"), CharacterPosition::Center);
}

#[test]
fn audio_commands() {
    assert_eq!(
        SceneCommand::parse("[bgm play=theme.ogg]"),
        Ok(SceneCommand::Bgm { play: "theme.ogg".to_string(), volume: None, loop_audio: None })
    );
    assert_eq!(
        SceneCommand::parse("[bgm play=theme.ogg volume=0.5 loop=true]"),
        Ok(SceneCommand::Bgm {
            play: "theme.ogg".to_string(),
            volume: Some("0.5".to_string()),
            loop_audio: Some(true),
        })
    );
    assert_eq!(
        SceneCommand::parse("[bgm play=theme.ogg loop=false]"),
        Ok(SceneCommand::Bgm { play: "theme.ogg".to_string(), volume: None, loop_audio: Some(false) })
    );
    for text in ["[bgm play=theme.ogg loop=yes]", "[bgm play=theme.ogg loop=True]", "[bgm play=theme.ogg loop=1]", "[bgm play=theme.ogg loop=]"] {
        assert_eq!(
            SceneCommand::parse(text),
            Ok(SceneCommand::Bgm { play: "theme.ogg".to_string(), volume: None, loop_audio: None })
        );
    }
    assert_eq!(
        SceneCommand::parse("[se play=click.ogg volume=loud]"),
        Ok(SceneCommand::Se { play: "click.ogg".to_string(), volume: Some("loud".to_string()) })
    );
    assert_eq!(
        SceneCommand::parse("[se play=click.ogg]"),
        Ok(SceneCommand::Se { play: "click.ogg".to_string(), volume: None })
    );
}

#[test]
fn volume_text_reads_as_a_number_where_it_writes_one() {
    match SceneCommand::parse("[bgm play=theme.ogg volume=0.25]").unwrap() {
        SceneCommand::Bgm { volume, .. } => {
            let volume: Option<f32> = volume.and_then(|v| v.parse().ok());
            assert_eq!(volume, Some(0.25));
        }
        _ => panic!("a bgm command was expected"),
    }
}

#[test]
fn choice_command() {
    assert_eq!(
        SceneCommand::parse("[choice text=進む|戻る|待つ]"),
        Ok(SceneCommand::Choice { text: "進む|戻る|待つ".to_string() })
    );
}

#[test]
fn parse_chars_reads_like_parse() {
    let text: Vec<char> = " [wait time=12] ".chars().collect();
    assert_eq!(SceneCommand::parse_chars(&text), Ok(SceneCommand::Wait { time: 12 }));
    let line: Vec<char> = "**A**: b".chars().collect();
    assert_eq!(DialogueBlock::parse_chars(&line), DialogueBlock::parse("**A**: b"));
}

#[test]
fn error_messages() {
    let message = |kind: ParseErrorKind| ParseError { line_number: 3, kind }.message();
    assert_eq!(message(ParseErrorKind::InvalidFormat { text: "bg".to_string() }), "コマンド形式が無効: bg");
    assert_eq!(message(ParseErrorKind::EmptyCommand), "空のコマンド");
    assert_eq!(
        message(ParseErrorKind::InvalidParameter { parameter: "fast".to_string() }),
        "無効なパラメータ形式: fast"
    );
    assert_eq!(message(ParseErrorKind::UnknownCommand { name: "jump".to_string() }), "未対応のコマンド: jump");
    assert_eq!(message(missing("bg", "storage")), "bg コマンドには storage パラメータが必要");
    assert_eq!(
        message(ParseErrorKind::InvalidParameterValue { command: "wait".to_string(), key: "time".to_string() }),
        "wait の time パラメータは数値である必要があります"
    );
    assert_eq!(
        message(ParseErrorKind::UnknownShorthand { text: "jump:x".to_string() }),
        "独自コマンド解析失敗: jump:x"
    );
    assert_eq!(SceneCommand::parse(" bg ").unwrap_err().message(), "コマンド形式が無効:  bg ");
}

fn block(speaker: Option<&str>, text: &str) -> Option<DialogueBlock> {
    Some(DialogueBlock { speaker: speaker.map(|s| s.to_string()), text: text.to_string() })
}

#[test]
fn dialogue_forms() {
    assert_eq!(DialogueBlock::parse("**X**「Y」"), block(Some("X"), "Y"));
    assert_eq!(DialogueBlock::parse("plain text"), block(None, "plain text"));
    assert_eq!(DialogueBlock::parse(""), None);
    assert_eq!(DialogueBlock::parse("   \t\u{3000}"), None);
    assert_eq!(DialogueBlock::parse("**X**: Y"), block(Some("X"), "Y"));
    assert_eq!(DialogueBlock::parse("**X**:Y"), block(Some("X"), "Y"));
    assert_eq!(DialogueBlock::parse("**X**:   Y z  "), block(Some("X"), "Y z"));
    assert_eq!(DialogueBlock::parse("**X** Y"), block(Some("X"), "Y"));
    assert_eq!(DialogueBlock::parse("  **X**  「Y」  "), block(Some("X"), "Y"));
    assert_eq!(DialogueBlock::parse("** X **「 Y 」"), block(Some("X"), " Y "));
}

#[test]
fn dialogue_edges() {
    assert_eq!(DialogueBlock::parse("**X**"), block(Some("X"), ""));
    assert_eq!(DialogueBlock::parse("**X**「」"), block(Some("X"), ""));
    assert_eq!(DialogueBlock::parse("**X**「"), block(Some("X"), "「"));
    assert_eq!(DialogueBlock::parse("**X**」"), block(Some("X"), "」"));
    assert_eq!(DialogueBlock::parse("**X**「Y"), block(Some("X"), "「Y"));
    assert_eq!(DialogueBlock::parse("**X**:"), block(Some("X"), ""));
    assert_eq!(DialogueBlock::parse("**X**::Y"), block(Some("X"), ":Y"));
    assert_eq!(DialogueBlock::parse("****"), block(Some(""), ""));
    assert_eq!(DialogueBlock::parse("****「Y」"), block(Some(""), "Y"));
    assert_eq!(DialogueBlock::parse("***"), block(None, "***"));
    assert_eq!(DialogueBlock::parse("**X"), block(None, "**X"));
    assert_eq!(DialogueBlock::parse("X**"), block(None, "X**"));
    assert_eq!(DialogueBlock::parse("*X*「Y」"), block(None, "*X*「Y」"));
    assert_eq!(DialogueBlock::parse("before **X**「Y」"), block(Some("X"), "Y"));
    assert_eq!(DialogueBlock::parse("**X**「Y」**Z**"), block(Some("X"), "「Y」**Z**"));
    assert_eq!(DialogueBlock::parse("*****"), block(Some(""), "*"));
    assert_eq!(DialogueBlock::parse("**X**「あ」い」"), block(Some("X"), "あ」い"));
}

#[test]
fn default_scenario() {
    let scenario = ScenarioFile::default();
    assert_eq!(scenario.title, "デフォルトシナリオ");
    assert!(scenario.scenes.is_empty());
    assert_eq!(scenario.current_scene_index, 0);
}

#[test]
fn clones_of_scenario_values() {
    let commands = [
        "[bg storage=a.jpg time=5]",
        "[chara_show name=souma face=smile pos=right]",
        "[chara_hide name=souma]",
        "[bgm play=a.ogg volume=0.5 loop=true]",
        "[se play=b.ogg]",
        "[wait time=3]",
        "[choice text=a|b]",
    ];
    for text in commands {
        let command = SceneCommand::parse(text).unwrap();
        assert_eq!(command.clone(), command);
    }
    for text in ["bg", "[]", "[bg x]", "[jump]", "[bg]", "[wait time=x]"] {
        let error = SceneCommand::parse(text).unwrap_err();
        assert_eq!(error.clone(), error);
    }
    let shorthand = ParseError { line_number: 4, kind: ParseErrorKind::UnknownShorthand { text: "x".to_string() } };
    assert_eq!(shorthand.clone(), shorthand);
    for line in ["**A**「b」", "narration"] {
        let block = DialogueBlock::parse(line).unwrap();
        assert_eq!(block.clone(), block);
    }
}

#[test]
fn parse_result_holds_a_scene_and_its_errors() {
    let scene = Scene { commands: vec![SceneCommand::Wait { time: 1 }], dialogue_blocks: Vec::new() };
    let error = SceneCommand::parse("[jump]").unwrap_err();
    let result = ParseResult { scene: Some(scene), errors: vec![error.clone()] };
    assert_eq!(result.scene.as_ref().unwrap().commands, vec![SceneCommand::Wait { time: 1 }]);
    assert_eq!(result.errors, vec![error]);
    let nothing = ParseResult { scene: None, errors: Vec::new() };
    assert!(nothing.scene.is_none());
    assert!(nothing.errors.is_empty());
}
