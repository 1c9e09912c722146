use negaboku::scenario::{
    CharacterPosition, DialogueBlock, ParseErrorKind, ScenarioFile, Scene, SceneCommand,
};
use negaboku::scenario_loader::{ScenarioLoader, SHORTHAND_BACKGROUND_TIME};

#[test]
fn test_parse_simple_markdown() {
    let content = r#"
# テストシナリオ

[bg storage=forest_day.jpg time=500]
[chara_show name=souma face=normal pos=left]

**ソウマ**「こんにちは」

地の文です。

---

[bg storage=ruins.jpg]

**ユズキ**「さようなら」
"#;

    let scenario = ScenarioLoader::parse_markdown(content);

    assert_eq!(scenario.title, "テストシナリオ");
    assert_eq!(scenario.scenes.len(), 2);

    let first_scene = &scenario.scenes[0];
    assert_eq!(first_scene.commands.len(), 2);
    assert_eq!(first_scene.dialogue_blocks.len(), 2);

    match &first_scene.commands[0] {
        SceneCommand::Background { storage, time } => {
            assert_eq!(storage, "forest_day.jpg");
            assert_eq!(*time, Some(500));
        }
        _ => panic!("期待していた Background コマンドではありません"),
    }

    assert_eq!(first_scene.dialogue_blocks[0].speaker, Some("ソウマ".to_string()));
    assert_eq!(first_scene.dialogue_blocks[0].text, "こんにちは");
    assert_eq!(first_scene.dialogue_blocks[1].speaker, None);
    assert_eq!(first_scene.dialogue_blocks[1].text, "地の文です。");
}

#[test]
fn test_scenario_stats() {
    let content = r#"
# テストシナリオ

[bg storage=test.jpg]
[chara_show name=souma pos=left]

**ソウマ**「テスト」
"#;

    let scenario = ScenarioLoader::parse_markdown(content);
    let stats = ScenarioLoader::get_scenario_stats(&scenario);

    assert_eq!(stats.title, "テストシナリオ");
    assert_eq!(stats.scene_count, 1);
    assert_eq!(stats.total_commands, 2);
    assert_eq!(stats.total_dialogues, 1);
    assert_eq!(stats.command_types.get("bg"), Some(&1));
    assert_eq!(stats.command_types.get("chara_show"), Some(&1));
}

#[test]
fn test_parse_simple_command_bg() {
    let command = ScenarioLoader::parse_simple_command("bg:backgrounds/forest.png");
    assert!(command.is_some());

    match command.unwrap() {
        SceneCommand::Background { storage, time } => {
            assert_eq!(storage, "backgrounds/forest.png");
            assert_eq!(time, Some(500));
        }
        _ => panic!("期待していたBackgroundコマンドではありません"),
    }
}

#[test]
fn test_parse_simple_command_char() {
    let command = ScenarioLoader::parse_simple_command("char:souma:normal:left");
    assert!(command.is_some());

    match command.unwrap() {
        SceneCommand::CharacterShow { name, face, pos } => {
            assert_eq!(name, "souma");
            assert_eq!(face, Some("normal".to_string()));
            assert_eq!(pos, Some(CharacterPosition::Left));
        }
        _ => panic!("期待していたCharacterShowコマンドではありません"),
    }
}

#[test]
fn test_parse_markdown_with_simple_commands() {
    let content = r#"
# テスト用独自コマンド

`bg:backgrounds/test.png`
`char:souma:smile:center`

**ソウマ**: これは独自形式のテストです。

## Section2

`bg:backgrounds/black.png`

ナレーション文章です。
"#;

    let scenario = ScenarioLoader::parse_markdown(content);

    assert_eq!(scenario.title, "テスト用独自コマンド");
    assert_eq!(scenario.scenes.len(), 2);

    let first_scene = &scenario.scenes[0];
    assert_eq!(first_scene.commands.len(), 2);
    assert_eq!(first_scene.dialogue_blocks.len(), 1);

    match &first_scene.commands[0] {
        SceneCommand::Background { storage, time } => {
            assert_eq!(storage, "backgrounds/test.png");
            assert_eq!(*time, Some(500));
        }
        _ => panic!("期待していた Background コマンドではありません"),
    }

    assert_eq!(first_scene.dialogue_blocks[0].speaker, Some("ソウマ".to_string()));
    assert_eq!(first_scene.dialogue_blocks[0].text, "これは独自形式のテストです。");
}

fn said(speaker: &str, text: &str) -> DialogueBlock {
    DialogueBlock { speaker: Some(speaker.to_string()), text: text.to_string() }
}

fn narrated(text: &str) -> DialogueBlock {
    DialogueBlock { speaker: None, text: text.to_string() }
}

fn assert_no_empty_scene(scenario: &ScenarioFile) {
    for scene in &scenario.scenes {
        assert!(!scene.commands.is_empty() || !scene.dialogue_blocks.is_empty());
    }
}

#[test]
fn end_to_end_scenario() {
    let scenario = ScenarioLoader::parse_markdown("# Title\n\n[bg storage=a.jpg]\n**A**「hi」\n\n---\n\n**A**「bye」");
    assert_eq!(scenario.title, "Title");
    assert_eq!(scenario.current_scene_index, 0);
    assert_eq!(scenario.scenes.len(), 2);
    assert_eq!(
        scenario.scenes[0].commands,
        vec![SceneCommand::Background { storage: "a.jpg".to_string(), time: None }]
    );
    assert_eq!(scenario.scenes[0].dialogue_blocks, vec![said("A", "hi")]);
    assert!(scenario.scenes[1].commands.is_empty());
    assert_eq!(scenario.scenes[1].dialogue_blocks, vec![said("A", "bye")]);
}

#[test]
fn one_scene_for_each_block() {
    for n in 0..6 {
        let blocks: Vec<String> = (0..n).map(|i| format!("[wait time={}]\nline {}", i, i)).collect();
        let scenario = ScenarioLoader::parse_markdown(&blocks.join("\n---\n"));
        assert_eq!(scenario.scenes.len(), n);
        for (i, scene) in scenario.scenes.iter().enumerate() {
            assert_eq!(scene.commands, vec![SceneCommand::Wait { time: i as u32 }]);
            assert_eq!(scene.dialogue_blocks, vec![narrated(&format!("line {}", i))]);
        }
    }
}

#[test]
fn no_content_no_scene() {
    for text in ["", "\n", "\n\n\n", "   \n\t\n", "---", "---\n---\n---", "# Title", "# Title\n---\n## Part\n---", "[jump]\n[bg]\n`x`", "## a\n## b"] {
        let scenario = ScenarioLoader::parse_markdown(text);
        assert!(scenario.scenes.is_empty());
    }
}

#[test]
fn empty_dividers_make_no_scene() {
    let scenario = ScenarioLoader::parse_markdown("---\n---\na\n---\n\n---\n## x\n---\nb\n---\n---\n");
    assert_eq!(scenario.scenes.len(), 2);
    assert_eq!(scenario.scenes[0].dialogue_blocks, vec![narrated("a")]);
    assert_eq!(scenario.scenes[1].dialogue_blocks, vec![narrated("b")]);
    assert_no_empty_scene(&scenario);
}

#[test]
fn only_the_first_title_line_is_the_title() {
    let scenario = ScenarioLoader::parse_markdown("intro\n#  One  \n# Two\n#Three\n# ");
    assert_eq!(scenario.title, "One");
    assert_eq!(scenario.scenes.len(), 1);
    assert_eq!(
        scenario.scenes[0].dialogue_blocks,
        vec![narrated("intro"), narrated("# Two"), narrated("#Three"), narrated("#")]
    );
}

#[test]
fn scenario_without_a_title() {
    let scenario = ScenarioLoader::parse_markdown("hello");
    assert_eq!(scenario.title, "無題シナリオ");
    assert_eq!(scenario.scenes.len(), 1);
    let scenario = ScenarioLoader::parse_markdown("#\thello");
    assert_eq!(scenario.title, "無題シナリオ");
    assert_eq!(scenario.scenes[0].dialogue_blocks, vec![narrated("#\thello")]);
}

#[test]
fn headings_break_scenes_and_are_no_content() {
    let scenario = ScenarioLoader::parse_markdown("a\n## Part two\nb\n### deeper\nc\n##\nd\n##e\nf");
    assert_eq!(scenario.title, "無題シナリオ");
    assert_eq!(scenario.scenes.len(), 5);
    let texts: Vec<&str> = scenario.scenes.iter().map(|s| s.dialogue_blocks[0].text.as_str()).collect();
    assert_eq!(texts, vec!["a", "b", "c", "d", "f"]);
}

#[test]
fn dividers_must_be_exact() {
    let scenario = ScenarioLoader::parse_markdown("a\n----\nb\n--\nc\n  ---  \nd\n- - -");
    assert_eq!(scenario.scenes.len(), 2);
    assert_eq!(
        scenario.scenes[0].dialogue_blocks,
        vec![narrated("a"), narrated("----"), narrated("b"), narrated("--"), narrated("c")]
    );
    assert_eq!(scenario.scenes[1].dialogue_blocks, vec![narrated("d"), narrated("- - -")]);
}

#[test]
fn commands_and_dialogue_keep_their_order() {
    let scenario = ScenarioLoader::parse_markdown("one\n[wait time=1]\n**A**: two\n`bg:x.png`\n[wait time=3]\nthree");
    assert_eq!(scenario.scenes.len(), 1);
    assert_eq!(
        scenario.scenes[0].commands,
        vec![
            SceneCommand::Wait { time: 1 },
            SceneCommand::Background { storage: "x.png".to_string(), time: Some(500) },
            SceneCommand::Wait { time: 3 },
        ]
    );
    assert_eq!(scenario.scenes[0].dialogue_blocks, vec![narrated("one"), said("A", "two"), narrated("three")]);
}

#[test]
fn line_endings() {
    let scenario = ScenarioLoader::parse_markdown("# T\r\n\r\n[wait time=1]\r\nline\r\n---\r\nnext\r\n");
    assert_eq!(scenario.title, "T");
    assert_eq!(scenario.scenes.len(), 2);
    assert_eq!(scenario.scenes[0].commands, vec![SceneCommand::Wait { time: 1 }]);
    assert_eq!(scenario.scenes[0].dialogue_blocks, vec![narrated("line")]);
    assert_eq!(scenario.scenes[1].dialogue_blocks, vec![narrated("next")]);
}

#[test]
fn rejected_lines_are_reported_with_their_numbers() {
    let text = "# T\n[bg storage=a.jpg]\n[jump to=x]\n\n[bg]\nline\n  [wait time=x]  \n`jump:x`\n`bg`\n---\n[ ]\n[bg fast]";
    let (scenario, errors) = ScenarioLoader::parse_markdown_with_errors(text);
    assert_eq!(scenario.scenes.len(), 1);
    assert_eq!(scenario.scenes[0].commands.len(), 1);
    assert_eq!(scenario.scenes[0].dialogue_blocks, vec![narrated("line")]);
    let found: Vec<(usize, ParseErrorKind)> = errors.into_iter().map(|e| (e.line_number, e.kind)).collect();
    assert_eq!(
        found,
        vec![
            (3, ParseErrorKind::UnknownCommand { name: "jump".to_string() }),
            (5, ParseErrorKind::MissingParameter { command: "bg".to_string(), key: "storage".to_string() }),
            (7, ParseErrorKind::InvalidParameterValue { command: "wait".to_string(), key: "time".to_string() }),
            (8, ParseErrorKind::UnknownShorthand { text: "jump:x".to_string() }),
            (9, ParseErrorKind::UnknownShorthand { text: "bg".to_string() }),
            (11, ParseErrorKind::EmptyCommand),
            (12, ParseErrorKind::InvalidParameter { parameter: "fast".to_string() }),
        ]
    );
}

#[test]
fn scenario_with_and_without_errors_is_the_same() {
    let text = "# T\n[bg storage=a.jpg]\n[jump]\n**A**「x」\n---\n`char:a`\n";
    let plain = ScenarioLoader::parse_markdown(text);
    let (scenario, errors) = ScenarioLoader::parse_markdown_with_errors(text);
    assert_eq!(errors.len(), 1);
    assert_eq!(plain.title, scenario.title);
    assert_eq!(plain.scenes.len(), scenario.scenes.len());
    for (a, b) in plain.scenes.iter().zip(scenario.scenes.iter()) {
        assert_eq!(a.commands, b.commands);
        assert_eq!(a.dialogue_blocks, b.dialogue_blocks);
    }
}

#[test]
fn shorthand_forms() {
    assert_eq!(SHORTHAND_BACKGROUND_TIME, 500);
    assert_eq!(
        ScenarioLoader::parse_simple_command("bg:a.png:ignored"),
        Some(SceneCommand::Background { storage: "a.png".to_string(), time: Some(500) })
    );
    assert_eq!(
        ScenarioLoader::parse_simple_command("bg:"),
        Some(SceneCommand::Background { storage: "".to_string(), time: Some(500) })
    );
    assert_eq!(ScenarioLoader::parse_simple_command("bg"), None);
    assert_eq!(ScenarioLoader::parse_simple_command(""), None);
    assert_eq!(ScenarioLoader::parse_simple_command("BG:a.png"), None);
    assert_eq!(ScenarioLoader::parse_simple_command(" bg:a.png"), None);
    assert_eq!(ScenarioLoader::parse_simple_command("se:click.ogg"), None);
    assert_eq!(ScenarioLoader::parse_simple_command("char"), None);
    assert_eq!(
        ScenarioLoader::parse_simple_command("char:souma"),
        Some(SceneCommand::CharacterShow {
            name: "souma".to_string(),
            face: None,
            pos: Some(CharacterPosition::Center),
        })
    );
    assert_eq!(
        ScenarioLoader::parse_simple_command("char:souma:smile"),
        Some(SceneCommand::CharacterShow {
            name: "souma".to_string(),
            face: None,
            pos: Some(CharacterPosition::Center),
        })
    );
    assert_eq!(
        ScenarioLoader::parse_simple_command("char:souma:smile:RIGHT:more"),
        Some(SceneCommand::CharacterShow {
            name: "souma".to_string(),
            face: Some("smile".to_string()),
            pos: Some(CharacterPosition::Right),
        })
    );
    assert_eq!(
        ScenarioLoader::parse_simple_command("char:souma::up"),
        Some(SceneCommand::CharacterShow {
            name: "souma".to_string(),
            face: Some("".to_string()),
            pos: Some(CharacterPosition::Center),
        })
    );
}

fn empty_scene() -> Scene {
    Scene { commands: Vec::new(), dialogue_blocks: Vec::new() }
}

#[test]
fn process_line_by_shape() {
    let mut scene = empty_scene();
    assert_eq!(ScenarioLoader::process_line("[wait time=5]", &mut scene), None);
    assert_eq!(scene.commands, vec![SceneCommand::Wait { time: 5 }]);
    assert_eq!(ScenarioLoader::process_line("`bg:a.png`", &mut scene), None);
    assert_eq!(scene.commands.len(), 2);
    assert_eq!(ScenarioLoader::process_line("**A**「b」", &mut scene), None);
    assert_eq!(scene.dialogue_blocks, vec![said("A", "b")]);
    assert_eq!(ScenarioLoader::process_line("", &mut scene), None);
    assert_eq!(ScenarioLoader::process_line("   ", &mut scene), None);
    assert_eq!(scene.commands.len(), 2);
    assert_eq!(scene.dialogue_blocks.len(), 1);

    let error = ScenarioLoader::process_line("[jump]", &mut scene).unwrap();
    assert_eq!(error.line_number, 0);
    assert_eq!(error.kind, ParseErrorKind::UnknownCommand { name: "jump".to_string() });
    let error = ScenarioLoader::process_line("`jump`", &mut scene).unwrap();
    assert_eq!(error.kind, ParseErrorKind::UnknownShorthand { text: "jump".to_string() });
    let error = ScenarioLoader::process_line("``", &mut scene).unwrap();
    assert_eq!(error.kind, ParseErrorKind::UnknownShorthand { text: "".to_string() });
    assert_eq!(scene.commands.len(), 2);
    assert_eq!(scene.dialogue_blocks.len(), 1);
}

#[test]
fn lines_that_only_look_like_commands_are_narration() {
    let mut scene = empty_scene();
    for line in ["`", "[", "]", "[wait time=5", "`bg:a.png", " [wait time=5]", "x`bg:a`"] {
        assert_eq!(ScenarioLoader::process_line(line, &mut scene), None);
    }
    assert!(scene.commands.is_empty());
    let texts: Vec<&str> = scene.dialogue_blocks.iter().map(|b| b.text.as_str()).collect();
    assert_eq!(texts, vec!["`", "[", "]", "[wait time=5", "`bg:a.png", "[wait time=5]", "x`bg:a`"]);
    let scenario = ScenarioLoader::parse_markdown("`\n");
    assert_eq!(scenario.scenes.len(), 1);
    assert_eq!(scenario.scenes[0].dialogue_blocks, vec![narrated("`")]);
}

#[test]
fn stats_count_every_kind() {
    let text = "# S\n[bg storage=a]\n[bg storage=b]\n`bg:c`\n[chara_show name=a]\n`char:b`\n[chara_hide name=a]\n[bgm play=x]\n[se play=y]\n[se play=z]\nline\n---\n[wait time=1]\n[choice text=a|b]\n**A**「x」\n**A**「y」\n---\nlast";
    let scenario = ScenarioLoader::parse_markdown(text);
    let stats = ScenarioLoader::get_scenario_stats(&scenario);
    assert_eq!(stats.title, "S");
    assert_eq!(stats.scene_count, 3);
    assert_eq!(stats.total_commands, 11);
    assert_eq!(stats.total_dialogues, 4);
    assert_eq!(stats.command_types.len(), 7);
    assert_eq!(stats.command_types.get("bg"), Some(&3));
    assert_eq!(stats.command_types.get("chara_show"), Some(&2));
    assert_eq!(stats.command_types.get("chara_hide"), Some(&1));
    assert_eq!(stats.command_types.get("bgm"), Some(&1));
    assert_eq!(stats.command_types.get("se"), Some(&2));
    assert_eq!(stats.command_types.get("wait"), Some(&1));
    assert_eq!(stats.command_types.get("choice"), Some(&1));
}

#[test]
fn stats_of_an_empty_scenario() {
    let stats = ScenarioLoader::get_scenario_stats(&ScenarioFile::default());
    assert_eq!(stats.title, "デフォルトシナリオ");
    assert_eq!(stats.scene_count, 0);
    assert_eq!(stats.total_commands, 0);
    assert_eq!(stats.total_dialogues, 0);
    assert!(stats.command_types.is_empty());
    assert_eq!(stats.command_types.get("bg"), None);
    let scenario = ScenarioLoader::parse_markdown("only words");
    let stats = ScenarioLoader::get_scenario_stats(&scenario);
    assert_eq!(stats.total_dialogues, 1);
    assert!(!stats.command_types.contains_key("bg"));
}

#[test]
fn clone_of_a_scenario() {
    let scenario = ScenarioLoader::parse_markdown("# T\n[wait time=1]\na\n**B**: c\n---\n`bg:x.png`\n---\nd");
    let copy = scenario.clone();
    assert_eq!(copy.title, "T");
    assert_eq!(copy.current_scene_index, 0);
    assert_eq!(copy.scenes.len(), 3);
    for (a, b) in copy.scenes.iter().zip(scenario.scenes.iter()) {
        assert_eq!(a.commands, b.commands);
        assert_eq!(a.dialogue_blocks, b.dialogue_blocks);
    }
    let scene = scenario.scenes[0].clone();
    assert_eq!(scene.commands, vec![SceneCommand::Wait { time: 1 }]);
    assert_eq!(scene.dialogue_blocks.len(), 2);
}
