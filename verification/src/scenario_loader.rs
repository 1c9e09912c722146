//! Reading a whole scenario: the text is taken line by line, each line is a
//! title, a scene break, a command or a dialogue line, and the commands and
//! dialogue lines between two breaks make one scene.

use vstd::prelude::*;
use vstd::hash_map::StringHashMap;
use crate::scenario::{
    parsed_command, parsed_dialogue, position_named, CharacterPosition, DialogueBlock,
    DialogueBlockView, ParseError, ParseErrorKind, ParseErrorKindView, ParseErrorView,
    ScenarioFile, ScenarioFileView, Scene, SceneCommand, SceneCommandView, SceneView,
};
use crate::text::{enclosed_by, inner, lowercase_of, split_on, starts_with, texts_of, trim};
use crate::text::{
    begins_with, equals_str, inner_of, is_enclosed_by, slice, split, to_chars, to_string, trimmed,
};

verus! {

/// The title of a scenario whose text gives none.
pub open spec fn untitled() -> Seq<char> {
    "無題シナリオ"@
}

/// The time, in milliseconds, of a background change written in short form.
pub const SHORTHAND_BACKGROUND_TIME: u32 = 500;

/// The command that the short form `text` writes, if it writes one. The
/// parts of a short form are parted by colons: `bg:file`, `char:id` or
/// `char:id:face:position`.
pub open spec fn parsed_shorthand(text: Seq<char>) -> Option<SceneCommandView> {
    let parts = split_on(text, ':');
    if parts[0] == "bg"@ && parts.len() >= 2 {
        Some(
            SceneCommandView::Background {
                storage: parts[1],
                time: Some(SHORTHAND_BACKGROUND_TIME),
            },
        )
    } else if parts[0] == "char"@ && parts.len() >= 4 {
        Some(
            SceneCommandView::CharacterShow {
                name: parts[1],
                face: Some(parts[2]),
                pos: Some(position_named(lowercase_of(parts[3]))),
            },
        )
    } else if parts[0] == "char"@ && parts.len() >= 2 {
        Some(
            SceneCommandView::CharacterShow {
                name: parts[1],
                face: None,
                pos: Some(CharacterPosition::Center),
            },
        )
    } else {
        None
    }
}

/// What one line of a scene is found to be.
pub enum LineOutcome {
    /// A command, in brackets or in short form.
    Command(SceneCommandView),
    /// A dialogue line.
    Dialogue(DialogueBlockView),
    /// A line in the shape of a command that writes none.
    Rejected(ParseErrorKindView),
    /// A line of white space.
    Nothing,
}

/// What `line` is found to be, by its shape: in brackets a command, between
/// backticks a command in short form, otherwise a dialogue line.
pub open spec fn line_outcome(line: Seq<char>) -> LineOutcome {
    if enclosed_by(line, '[', ']') {
        match parsed_command(line) {
            Ok(command) => LineOutcome::Command(command),
            Err(kind) => LineOutcome::Rejected(kind),
        }
    } else if enclosed_by(line, '`', '`') {
        match parsed_shorthand(inner(line)) {
            Some(command) => LineOutcome::Command(command),
            None => LineOutcome::Rejected(ParseErrorKindView::UnknownShorthand { text: inner(line) }),
        }
    } else {
        match parsed_dialogue(line) {
            Some(block) => LineOutcome::Dialogue(block),
            None => LineOutcome::Nothing,
        }
    }
}

/// `scene` with what a line was found to be: a command joins the commands, a
/// dialogue line the dialogue, and anything else leaves the scene as it is.
pub open spec fn scene_with(scene: SceneView, outcome: LineOutcome) -> SceneView {
    match outcome {
        LineOutcome::Command(command) => SceneView {
            commands: scene.commands.push(command),
            dialogue_blocks: scene.dialogue_blocks,
        },
        LineOutcome::Dialogue(block) => SceneView {
            commands: scene.commands,
            dialogue_blocks: scene.dialogue_blocks.push(block),
        },
        _ => scene,
    }
}

/// Why a line was rejected, if it was.
pub open spec fn rejection(outcome: LineOutcome) -> Option<ParseErrorKindView> {
    match outcome {
        LineOutcome::Rejected(kind) => Some(kind),
        _ => None,
    }
}

/// Whether `line`, without white space around it, is a scene break: the
/// divider `---`, or a heading of the second level or below.
pub open spec fn is_break(line: Seq<char>) -> bool {
    line == "---"@ || starts_with(line, "##"@)
}

/// Whether `line`, without white space around it, has the shape of a title.
pub open spec fn is_title(line: Seq<char>) -> bool {
    starts_with(line, "# "@)
}

/// What has been read of a scenario after some of its lines.
pub struct DocumentState {
    /// The title, once a line has given it.
    pub title: Option<Seq<char>>,
    /// The scenes that are complete.
    pub scenes: Seq<SceneView>,
    /// The scene that the next lines go to.
    pub current: SceneView,
    /// The lines that were rejected so far.
    pub errors: Seq<ParseErrorView>,
    /// How many lines were read.
    pub lines_read: nat,
}

impl DocumentState {
    /// The state before the first line.
    pub open spec fn start() -> DocumentState {
        DocumentState {
            title: None,
            scenes: Seq::empty(),
            current: SceneView::empty(),
            errors: Seq::empty(),
            lines_read: 0,
        }
    }

    /// The state after a scene break: the current scene, unless it is empty,
    /// joins the complete ones and a new one begins.
    pub open spec fn close_scene(self) -> DocumentState {
        if self.current.is_empty() {
            self
        } else {
            DocumentState {
                scenes: self.scenes.push(self.current),
                current: SceneView::empty(),
                ..self
            }
        }
    }

    /// The state after one more line. The line is taken without the white
    /// space around it. An empty line changes nothing. The first line in the
    /// shape of a title gives the title. A break closes the scene. Any other
    /// line goes to the current scene, or to the errors if it is rejected.
    pub open spec fn read_line(self, raw: Seq<char>) -> DocumentState {
        let line = trim(raw);
        let number = self.lines_read + 1;
        let counted = DocumentState { lines_read: number, ..self };
        if line.len() == 0 {
            counted
        } else if self.title is None && is_title(line) {
            DocumentState { title: Some(trim(line.skip(2))), ..counted }
        } else if is_break(line) {
            counted.close_scene()
        } else {
            let outcome = line_outcome(line);
            DocumentState {
                current: scene_with(self.current, outcome),
                errors: match rejection(outcome) {
                    Some(kind) => self.errors.push(
                        ParseErrorView { line_number: number as usize, kind },
                    ),
                    None => self.errors,
                },
                ..counted
            }
        }
    }

    /// The state after the lines `lines`, read in order.
    pub open spec fn read_lines(self, lines: Seq<Seq<char>>) -> DocumentState
        decreases lines.len(),
    {
        if lines.len() == 0 {
            self
        } else {
            self.read_lines(lines.drop_last()).read_line(lines.last())
        }
    }

    /// The scenario that has been read: the scenes in order, the last one
    /// closed as by a break.
    pub open spec fn scenario(self) -> ScenarioFileView {
        ScenarioFileView {
            title: match self.title {
                Some(title) => title,
                None => untitled(),
            },
            scenes: self.close_scene().scenes,
            current_scene_index: 0,
        }
    }
}

/// The lines of `text`: what stands between its line feeds.
pub open spec fn lines_of(text: Seq<char>) -> Seq<Seq<char>> {
    split_on(text, '\n')
}

/// The scenario that the lines `lines` write.
pub open spec fn scenario_of_lines(lines: Seq<Seq<char>>) -> ScenarioFileView {
    DocumentState::start().read_lines(lines).scenario()
}

/// The scenario that `text` writes.
pub open spec fn parsed_scenario(text: Seq<char>) -> ScenarioFileView {
    scenario_of_lines(lines_of(text))
}

/// The lines of `text` that were rejected, in order, each with its number.
pub open spec fn rejected_lines(text: Seq<char>) -> Seq<ParseErrorView> {
    DocumentState::start().read_lines(lines_of(text)).errors
}

/// Whether the line `raw` adds a command or a dialogue block to the scene
/// it stands in. `title_known` says whether an earlier line gave the title.
pub open spec fn adds_content(raw: Seq<char>, title_known: bool) -> bool {
    let line = trim(raw);
    &&& line.len() > 0
    &&& title_known || !is_title(line)
    &&& !is_break(line)
    &&& line_outcome(line) is Command || line_outcome(line) is Dialogue
}

/// Whether the line `raw` adds to its scene wherever it stands.
pub open spec fn is_content_line(raw: Seq<char>) -> bool {
    adds_content(raw, false)
}

/// Whether one of the first `n` of `lines` has the shape of a title.
pub open spec fn title_seen(lines: Seq<Seq<char>>, n: int) -> bool {
    exists|j: int| 0 <= j < n && j < lines.len() && is_title(trim(#[trigger] lines[j]))
}

/// Whether none of the lines of `block` is a scene break.
pub open spec fn is_unbroken(block: Seq<Seq<char>>) -> bool {
    forall|k: int| 0 <= k < block.len() ==> !is_break(trim(#[trigger] block[k]))
}

/// Whether one of the lines of `block` adds to its scene wherever it
/// stands.
pub open spec fn has_content(block: Seq<Seq<char>>) -> bool {
    exists|k: int| 0 <= k < block.len() && is_content_line(#[trigger] block[k])
}

/// The lines of `blocks`, with a divider line between each two blocks.
pub open spec fn join_blocks(blocks: Seq<Seq<Seq<char>>>) -> Seq<Seq<char>>
    decreases blocks.len(),
{
    if blocks.len() == 0 {
        Seq::empty()
    } else if blocks.len() == 1 {
        blocks[0]
    } else {
        join_blocks(blocks.drop_last()) + seq!["---"@] + blocks.last()
    }
}

/// The text whose lines are `lines`: a line feed stands between each two.
pub open spec fn join_lines(lines: Seq<Seq<char>>) -> Seq<char>
    decreases lines.len(),
{
    if lines.len() == 0 {
        Seq::empty()
    } else if lines.len() == 1 {
        lines[0]
    } else {
        lines[0] + seq!['\n'] + join_lines(lines.drop_first())
    }
}

/// Whether every scene of `scenes` holds a command or a dialogue block.
pub open spec fn no_empty_scene(scenes: Seq<SceneView>) -> bool {
    forall|i: int| 0 <= i < scenes.len() ==> !(#[trigger] scenes[i]).is_empty()
}

/// A title is no break, and a divider is a break and no title.
proof fn lemma_line_shapes(line: Seq<char>)
    ensures
        !(is_title(line) && is_break(line)),
        trim("---"@) == "---"@,
        is_break("---"@),
        !is_title("---"@),
{
    reveal_strlit("---");
    reveal_strlit("# ");
    reveal_strlit("##");
    crate::text::lemma_trim_spotless("---"@);
    assert("---"@.take(2) == "##"@ ==> "---"@.take(2)[0] == "##"@[0]);
    assert("---"@.take(2) == "# "@ ==> "---"@.take(2)[0] == "# "@[0]);
    assert("---"@.take(2)[0] == '-');
    if is_title(line) && is_break(line) {
        assert(line.take(2)[0] == '#');
        assert(line.take(2)[1] == ' ');
        if line == "---"@ {
            assert(line[0] == '-');
        } else {
            assert(line.take(2)[1] == '#');
        }
    }
}

/// Reading lines after lines is reading them all in one go.
pub proof fn lemma_read_lines_concat(st: DocumentState, a: Seq<Seq<char>>, b: Seq<Seq<char>>)
    ensures
        st.read_lines(a + b) == st.read_lines(a).read_lines(b),
    decreases b.len(),
{
    if b.len() == 0 {
        assert(a + b == a);
    } else {
        lemma_read_lines_concat(st, a, b.drop_last());
        assert((a + b).drop_last() == a + b.drop_last());
        assert((a + b).last() == b.last());
    }
}

/// Reading lines never completes an empty scene.
pub proof fn lemma_read_lines_no_empty_scene(st: DocumentState, lines: Seq<Seq<char>>)
    requires
        no_empty_scene(st.scenes),
    ensures
        no_empty_scene(st.read_lines(lines).scenes),
        no_empty_scene(st.read_lines(lines).close_scene().scenes),
    decreases lines.len(),
{
    if lines.len() > 0 {
        lemma_read_lines_no_empty_scene(st, lines.drop_last());
    }
}

/// No scene of a scenario is empty, whatever lines it was read from: two
/// breaks in a row, or a break before any content, complete no scene.
pub proof fn lemma_no_empty_scene(lines: Seq<Seq<char>>)
    ensures
        no_empty_scene(scenario_of_lines(lines).scenes),
{
    lemma_read_lines_no_empty_scene(DocumentState::start(), lines);
}

/// After lines of which none adds content, no scene is complete and none
/// has begun, and the title is known if one of the lines had its shape.
proof fn lemma_read_idle_lines(lines: Seq<Seq<char>>, n: int)
    requires
        0 <= n <= lines.len(),
        forall|i: int| 0 <= i < n ==> !adds_content(#[trigger] lines[i], title_seen(lines, i)),
    ensures
        DocumentState::start().read_lines(lines.take(n)).scenes.len() == 0,
        DocumentState::start().read_lines(lines.take(n)).current.is_empty(),
        DocumentState::start().read_lines(lines.take(n)).title is Some <==> title_seen(lines, n),
    decreases n,
{
    if n > 0 {
        lemma_read_idle_lines(lines, n - 1);
        assert(lines.take(n).drop_last() == lines.take(n - 1));
        assert(lines.take(n).last() == lines[n - 1]);
        let before = DocumentState::start().read_lines(lines.take(n - 1));
        let line = trim(lines[n - 1]);
        assert(!adds_content(lines[n - 1], title_seen(lines, n - 1)));
        lemma_line_shapes(line);
        reveal_strlit("# ");
        let after = before.read_line(lines[n - 1]);
        assert(after == DocumentState::start().read_lines(lines.take(n)));
        assert(after.title is Some <==> before.title is Some || is_title(line));
        if is_title(line) {
            assert(is_title(trim(lines[n - 1])));
            assert(title_seen(lines, n));
        } else if title_seen(lines, n) {
            let j = choose|j: int| 0 <= j < n && j < lines.len() && is_title(trim(#[trigger] lines[j]));
            assert(j < n - 1);
            assert(title_seen(lines, n - 1));
        }
        if title_seen(lines, n - 1) {
            let j = choose|j: int|
                0 <= j < n - 1 && j < lines.len() && is_title(trim(#[trigger] lines[j]));
            assert(0 <= j < n && is_title(trim(lines[j])));
            assert(title_seen(lines, n));
        }
    } else {
        assert(lines.take(0) == Seq::<Seq<char>>::empty());
    }
}

/// A scenario none of whose lines adds content has no scenes.
pub proof fn lemma_no_content_no_scene(lines: Seq<Seq<char>>)
    requires
        forall|i: int|
            0 <= i < lines.len() ==> !adds_content(#[trigger] lines[i], title_seen(lines, i)),
    ensures
        scenario_of_lines(lines).scenes.len() == 0,
{
    lemma_read_idle_lines(lines, lines.len() as int);
    assert(lines.take(lines.len() as int) == lines);
}

/// Lines without a break complete no scene, and leave the current scene
/// with content if it had some or one of the lines adds some.
pub proof fn lemma_read_block(st: DocumentState, block: Seq<Seq<char>>)
    requires
        is_unbroken(block),
    ensures
        st.read_lines(block).scenes == st.scenes,
        !st.current.is_empty() || has_content(block) ==> !st.read_lines(block).current.is_empty(),
    decreases block.len(),
{
    if block.len() > 0 {
        let earlier = block.drop_last();
        assert forall|k: int| 0 <= k < earlier.len() implies !is_break(
            trim(#[trigger] earlier[k]),
        ) by {
            assert(earlier[k] == block[k]);
        }
        lemma_read_block(st, earlier);
        assert(!is_break(trim(block[block.len() - 1])));
        if has_content(block) {
            let k = choose|k: int| 0 <= k < block.len() && is_content_line(#[trigger] block[k]);
            if k < block.len() - 1 {
                assert(earlier[k] == block[k]);
                assert(has_content(earlier));
            }
        }
    }
}

/// The state after the lines of one or more blocks of which each has content
/// and none has a break, with a divider between each two: the blocks but
/// the last are complete scenes and the last is the current scene.
proof fn lemma_read_blocks(blocks: Seq<Seq<Seq<char>>>)
    requires
        blocks.len() >= 1,
        forall|j: int|
            0 <= j < blocks.len() ==> is_unbroken(#[trigger] blocks[j]) && has_content(blocks[j]),
    ensures
        DocumentState::start().read_lines(join_blocks(blocks)).scenes.len() == blocks.len() - 1,
        !DocumentState::start().read_lines(join_blocks(blocks)).current.is_empty(),
    decreases blocks.len(),
{
    let start = DocumentState::start();
    if blocks.len() == 1 {
        lemma_read_block(start, blocks[0]);
    } else {
        let earlier = blocks.drop_last();
        assert forall|j: int| 0 <= j < earlier.len() implies is_unbroken(#[trigger] earlier[j])
            && has_content(earlier[j]) by {
            assert(earlier[j] == blocks[j]);
        }
        lemma_read_blocks(earlier);
        let head = join_blocks(earlier);
        let divider = seq!["---"@];
        lemma_read_lines_concat(start, head + divider, blocks.last());
        lemma_read_lines_concat(start, head, divider);
        let reached = start.read_lines(head);
        assert(divider.drop_last() == Seq::<Seq<char>>::empty());
        assert(reached.read_lines(divider) == reached.read_line("---"@)) by {
            reveal_with_fuel(DocumentState::read_lines, 2);
        }
        lemma_line_shapes("---"@);
        reveal_strlit("---");
        lemma_read_block(reached.read_line("---"@), blocks.last());
    }
}

/// A scenario made of blocks with a divider between each two has one scene
/// for each block, where each block has a line that adds content and no
/// line that is a break.
pub proof fn lemma_scene_per_block(blocks: Seq<Seq<Seq<char>>>)
    requires
        forall|j: int|
            0 <= j < blocks.len() ==> is_unbroken(#[trigger] blocks[j]) && has_content(blocks[j]),
    ensures
        scenario_of_lines(join_blocks(blocks)).scenes.len() == blocks.len(),
{
    if blocks.len() >= 1 {
        lemma_read_blocks(blocks);
    }
}

/// The lines of a text that was joined from lines are those lines, where
/// there is at least one line and none holds a line feed.
pub proof fn lemma_lines_of_joined(lines: Seq<Seq<char>>)
    requires
        lines.len() >= 1,
        forall|i: int, k: int|
            0 <= i < lines.len() && 0 <= k < lines[i].len() ==> #[trigger] lines[i][k] != '\n',
    ensures
        lines_of(join_lines(lines)) == lines,
    decreases lines.len(),
{
    let class = crate::text::CharClass::Except('\n');
    let first = lines[0];
    let text = join_lines(lines);
    if lines.len() == 1 {
        assert forall|k: int| 0 <= k < text.len() implies class.holds(#[trigger] text[k]) by {
            assert(lines[0][k] != '\n');
        }
        crate::text::lemma_prefix_len_is(text, class, text.len() as int);
        assert(seq![text] == lines);
    } else {
        let rest = lines.drop_first();
        assert forall|i: int, k: int| 0 <= i < rest.len() && 0 <= k < rest[i].len() implies
            #[trigger] rest[i][k] != '\n' by {
            assert(rest[i] == lines[i + 1]);
            assert(lines[i + 1][k] != '\n');
        }
        lemma_lines_of_joined(rest);
        assert forall|k: int| 0 <= k < first.len() implies class.holds(#[trigger] text[k]) by {
            assert(text[k] == lines[0][k]);
        }
        assert(text[first.len() as int] == '\n');
        crate::text::lemma_prefix_len_is(text, class, first.len() as int);
        assert(text.take(first.len() as int) == first);
        assert(text.skip(first.len() as int + 1) == join_lines(rest));
        assert(seq![first] + rest == lines);
    }
}

/// The lines of blocks that hold no line feed hold none either.
proof fn lemma_joined_blocks_are_lines(blocks: Seq<Seq<Seq<char>>>)
    requires
        forall|j: int, k: int, n: int|
            0 <= j < blocks.len() && 0 <= k < blocks[j].len() && 0 <= n < blocks[j][k].len()
                ==> #[trigger] blocks[j][k][n] != '\n',
    ensures
        forall|i: int, n: int|
            0 <= i < join_blocks(blocks).len() && 0 <= n < join_blocks(blocks)[i].len()
                ==> #[trigger] join_blocks(blocks)[i][n] != '\n',
        blocks.len() >= 1 ==> join_blocks(blocks).len() >= blocks.last().len(),
    decreases blocks.len(),
{
    if blocks.len() > 1 {
        let earlier = blocks.drop_last();
        assert forall|j: int, k: int, n: int|
            0 <= j < earlier.len() && 0 <= k < earlier[j].len() && 0 <= n < earlier[j][k].len() implies
            #[trigger] earlier[j][k][n] != '\n' by {
            assert(earlier[j] == blocks[j]);
            assert(blocks[j][k][n] != '\n');
        }
        lemma_joined_blocks_are_lines(earlier);
        reveal_strlit("---");
        let head = join_blocks(earlier);
        let all = join_blocks(blocks);
        assert forall|i: int, n: int| 0 <= i < all.len() && 0 <= n < all[i].len() implies
            #[trigger] all[i][n] != '\n' by {
            if i < head.len() {
                assert(all[i] == head[i]);
                assert(head[i][n] != '\n');
            } else if i == head.len() {
                assert(all[i] == "---"@);
            } else {
                assert(all[i] == blocks[blocks.len() - 1][i - head.len() - 1]);
                assert(blocks[blocks.len() - 1][i - head.len() - 1][n] != '\n');
            }
        }
    } else if blocks.len() == 1 {
        let all = join_blocks(blocks);
        assert forall|i: int, n: int| 0 <= i < all.len() && 0 <= n < all[i].len() implies
            #[trigger] all[i][n] != '\n' by {
            assert(blocks[0][i][n] != '\n');
        }
    }
}

/// A text made of one or more blocks of lines, with a divider line between
/// each two blocks, is read as one scene for each block, where each block
/// has a line that adds content and no line that is a break.
pub proof fn lemma_scene_per_block_of_text(blocks: Seq<Seq<Seq<char>>>)
    requires
        blocks.len() >= 1,
        forall|j: int|
            0 <= j < blocks.len() ==> is_unbroken(#[trigger] blocks[j]) && has_content(blocks[j]),
        forall|j: int, k: int, n: int|
            0 <= j < blocks.len() && 0 <= k < blocks[j].len() && 0 <= n < blocks[j][k].len()
                ==> #[trigger] blocks[j][k][n] != '\n',
    ensures
        parsed_scenario(join_lines(join_blocks(blocks))).scenes.len() == blocks.len(),
{
    lemma_joined_blocks_are_lines(blocks);
    assert(has_content(blocks.last()));
    lemma_lines_of_joined(join_blocks(blocks));
    lemma_scene_per_block(blocks);
}

/// How many of `commands` are written under `name`.
pub open spec fn occurrences(commands: Seq<SceneCommandView>, name: Seq<char>) -> nat
    decreases commands.len(),
{
    if commands.len() == 0 {
        0
    } else {
        occurrences(commands.drop_last(), name) + if command_name(commands.last()) == name {
            1nat
        } else {
            0nat
        }
    }
}

/// The name under which a command is written in brackets.
pub open spec fn command_name(command: SceneCommandView) -> Seq<char> {
    match command {
        SceneCommandView::Background { .. } => "bg"@,
        SceneCommandView::CharacterShow { .. } => "chara_show"@,
        SceneCommandView::CharacterHide { .. } => "chara_hide"@,
        SceneCommandView::Bgm { .. } => "bgm"@,
        SceneCommandView::Se { .. } => "se"@,
        SceneCommandView::Wait { .. } => "wait"@,
        SceneCommandView::Choice { .. } => "choice"@,
    }
}

/// The names under which commands are written, in a fixed order.
pub open spec fn command_names() -> Seq<Seq<char>> {
    seq!["bg"@, "chara_show"@, "chara_hide"@, "bgm"@, "se"@, "wait"@, "choice"@]
}

/// Where the name of `command` stands among [`command_names`].
pub open spec fn command_kind(command: SceneCommandView) -> int {
    match command {
        SceneCommandView::Background { .. } => 0,
        SceneCommandView::CharacterShow { .. } => 1,
        SceneCommandView::CharacterHide { .. } => 2,
        SceneCommandView::Bgm { .. } => 3,
        SceneCommandView::Se { .. } => 4,
        SceneCommandView::Wait { .. } => 5,
        SceneCommandView::Choice { .. } => 6,
    }
}

/// No two commands are written under the same name.
pub proof fn lemma_command_names_distinct()
    ensures
        forall|i: int, j: int|
            0 <= i < 7 && 0 <= j < 7 && i != j ==> command_names()[i] != command_names()[j],
{
    reveal_strlit("bg");
    reveal_strlit("chara_show");
    reveal_strlit("chara_hide");
    reveal_strlit("bgm");
    reveal_strlit("se");
    reveal_strlit("wait");
    reveal_strlit("choice");
    let names = command_names();
    assert(names[0].len() == 2 && names[0][0] == 'b');
    assert(names[1].len() == 10 && names[1][6] == 's');
    assert(names[2].len() == 10 && names[2][6] == 'h');
    assert(names[3].len() == 3);
    assert(names[4].len() == 2 && names[4][0] == 's');
    assert(names[5].len() == 4);
    assert(names[6].len() == 6);
    assert forall|i: int, j: int| 0 <= i < 7 && 0 <= j < 7 && i != j implies names[i]
        != names[j] by {
        if names[i] == names[j] {
            assert(names[i].len() == names[j].len());
            assert(names[i][0] == names[j][0]);
            assert(names[i].len() == 10 ==> names[i][6] == names[j][6]);
        }
    }
}

/// A name that none of `commands` is written under occurs no times.
pub proof fn lemma_occurrences_of_names(commands: Seq<SceneCommandView>, name: Seq<char>)
    requires
        forall|k: int| 0 <= k < 7 ==> command_names()[k] != name,
    ensures
        occurrences(commands, name) == 0,
    decreases commands.len(),
{
    if commands.len() > 0 {
        lemma_occurrences_of_names(commands.drop_last(), name);
        assert(command_name(commands.last()) == command_names()[command_kind(commands.last())]);
    }
}

/// The commands of all of `scenes`, in order.
pub open spec fn all_commands(scenes: Seq<SceneView>) -> Seq<SceneCommandView>
    decreases scenes.len(),
{
    if scenes.len() == 0 {
        Seq::empty()
    } else {
        all_commands(scenes.drop_last()) + scenes.last().commands
    }
}

/// How many dialogue blocks `scenes` hold together.
pub open spec fn dialogue_count(scenes: Seq<SceneView>) -> nat
    decreases scenes.len(),
{
    if scenes.len() == 0 {
        0
    } else {
        dialogue_count(scenes.drop_last()) + scenes.last().dialogue_blocks.len()
    }
}

/// `n`, or the largest `usize` where `n` is above it.
pub open spec fn capped(n: nat) -> usize {
    if n > usize::MAX {
        usize::MAX
    } else {
        n as usize
    }
}

/// The reader's state while it goes through the lines of a scenario.
struct Reader {
    title: Option<String>,
    scenes: Vec<Scene>,
    current: Scene,
    errors: Vec<ParseError>,
    lines_read: usize,
}

impl View for Reader {
    type V = DocumentState;

    closed spec fn view(&self) -> DocumentState {
        DocumentState {
            title: self.title.deep_view(),
            scenes: self.scenes.deep_view(),
            current: self.current@,
            errors: self.errors.deep_view(),
            lines_read: self.lines_read as nat,
        }
    }
}

/// A scene without commands or dialogue.
fn empty_scene() -> (r: Scene)
    ensures
        r@ == SceneView::empty(),
{
    let r = Scene { commands: Vec::new(), dialogue_blocks: Vec::new() };
    assert(r.commands.deep_view() == Seq::<SceneCommandView>::empty());
    assert(r.dialogue_blocks.deep_view() == Seq::<DialogueBlockView>::empty());
    r
}

impl Reader {
    fn new() -> (r: Reader)
        ensures
            r@ == DocumentState::start(),
    {
        let r = Reader {
            title: None,
            scenes: Vec::new(),
            current: empty_scene(),
            errors: Vec::new(),
            lines_read: 0,
        };
        assert(r.scenes.deep_view() == Seq::<SceneView>::empty());
        assert(r.errors.deep_view() == Seq::<ParseErrorView>::empty());
        r
    }

    fn close_scene(&mut self)
        ensures
            final(self)@ == old(self)@.close_scene(),
    {
        if self.current.commands.len() > 0 || self.current.dialogue_blocks.len() > 0 {
            let mut scene = empty_scene();
            std::mem::swap(&mut self.current, &mut scene);
            self.scenes.push(scene);
            assert(self.scenes.deep_view() == old(self).scenes.deep_view().push(old(self).current@));
        } else {
            assert(self.current@.commands == Seq::<SceneCommandView>::empty());
            assert(self.current@.dialogue_blocks == Seq::<DialogueBlockView>::empty());
        }
    }

    fn read_line(&mut self, raw: &Vec<char>)
        requires
            old(self).lines_read < usize::MAX,
        ensures
            final(self)@ == old(self)@.read_line(raw@),
    {
        let line = trimmed(raw);
        self.lines_read = self.lines_read + 1;
        if line.len() == 0 {
            return ;
        }
        if self.title.is_none() && begins_with(&line, &to_chars("# ")) {
            proof {
                reveal_strlit("# ");
            }
            let rest = slice(&line, 2, line.len());
            assert(rest@ == line@.skip(2));
            self.title = Some(to_string(&trimmed(&rest)));
            return ;
        }
        if equals_str(&line, "---") || begins_with(&line, &to_chars("##")) {
            self.close_scene();
            return ;
        }
        match ScenarioLoader::process_chars(&line, &mut self.current) {
            Some(kind) => {
                self.errors.push(ParseError { line_number: self.lines_read, kind });
                assert(self.errors.deep_view() == old(self).errors.deep_view().push(
                    ParseErrorView { line_number: self.lines_read, kind: kind@ },
                ));
            },
            None => {},
        }
    }

    fn finish(self) -> (r: (ScenarioFile, Vec<ParseError>))
        ensures
            r.0@ == self@.scenario(),
            r.1.deep_view() == self@.errors,
    {
        let mut reader = self;
        reader.close_scene();
        let title = match reader.title {
            Some(title) => title,
            None => String::from_str("無題シナリオ"),
        };
        (ScenarioFile { title, scenes: reader.scenes, current_scene_index: 0 }, reader.errors)
    }
}

/// Counts of what a scenario holds.
pub struct ScenarioStats {
    pub title: String,
    pub scene_count: usize,
    pub total_commands: usize,
    pub total_dialogues: usize,
    /// For each command name that occurs, how often it does.
    pub command_types: StringHashMap<usize>,
}

/// `n + 1`, or `n` where that is the largest `usize`.
fn count_up(n: usize) -> (r: usize)
    ensures
        r == if n < usize::MAX {
            n + 1
        } else {
            n as int
        },
{
    if n < usize::MAX {
        n + 1
    } else {
        n
    }
}

/// Where the name of `command` stands among the command names.
fn kind_of(command: &SceneCommand) -> (k: usize)
    ensures
        k == command_kind(command@),
        k < 7,
        command_names()[k as int] == command_name(command@),
{
    match command {
        SceneCommand::Background { .. } => 0,
        SceneCommand::CharacterShow { .. } => 1,
        SceneCommand::CharacterHide { .. } => 2,
        SceneCommand::Bgm { .. } => 3,
        SceneCommand::Se { .. } => 4,
        SceneCommand::Wait { .. } => 5,
        SceneCommand::Choice { .. } => 6,
    }
}

/// The command name that stands at place `k`.
fn name_at(k: usize) -> (name: &'static str)
    requires
        k < 7,
    ensures
        name@ == command_names()[k as int],
{
    match k {
        0 => "bg",
        1 => "chara_show",
        2 => "chara_hide",
        3 => "bgm",
        4 => "se",
        5 => "wait",
        _ => "choice",
    }
}

/// Whether `counts` holds, for each command name, how often it occurs among
/// `seen`.
spec fn counts_match(counts: Seq<usize>, seen: Seq<SceneCommandView>) -> bool {
    &&& counts.len() == 7
    &&& forall|k: int|
        0 <= k < 7 ==> counts[k] == capped(occurrences(seen, #[trigger] command_names()[k]))
}

/// Counts one more command into `counts`.
fn count_command(counts: &mut Vec<usize>, command: &SceneCommand, Ghost(seen): Ghost<
    Seq<SceneCommandView>,
>)
    requires
        counts_match(old(counts)@, seen),
    ensures
        counts_match(final(counts)@, seen.push(command@)),
{
    let k = kind_of(command);
    let n = count_up(counts[k]);
    counts.set(k, n);
    proof {
        lemma_command_names_distinct();
        let next = seen.push(command@);
        assert(next.drop_last() == seen);
        assert(next.last() == command@);
        assert forall|j: int| 0 <= j < 7 implies counts@[j] == capped(
            occurrences(next, #[trigger] command_names()[j]),
        ) by {
            assert(old(counts)@[j] == capped(occurrences(seen, command_names()[j])));
        }
    }
}

/// Reads scenarios from text.
pub struct ScenarioLoader;

impl ScenarioLoader {
    /// Reads the scenario that `content` writes. Lines that are rejected
    /// are left out.
    pub fn parse_markdown(content: &str) -> (r: ScenarioFile)
        ensures
            r@ == parsed_scenario(content@),
            no_empty_scene(r@.scenes),
    {
        ScenarioLoader::parse_markdown_with_errors(content).0
    }

    /// Reads the scenario that `content` writes, and reports the lines that
    /// were rejected, each with its number.
    pub fn parse_markdown_with_errors(content: &str) -> (r: (ScenarioFile, Vec<ParseError>))
        ensures
            r.0@ == parsed_scenario(content@),
            r.1.deep_view() == rejected_lines(content@),
            no_empty_scene(r.0@.scenes),
    {
        proof {
            lemma_no_empty_scene(lines_of(content@));
        }
        let text = to_chars(content);
        let lines = split(&text, '\n');
        let mut reader = Reader::new();
        let mut i: usize = 0;
        assert(texts_of(lines@).take(0) == Seq::<Seq<char>>::empty());
        while i < lines.len()
            invariant
                i <= lines.len(),
                reader.lines_read == i,
                reader@ == DocumentState::start().read_lines(texts_of(lines@).take(i as int)),
            decreases lines.len() - i,
        {
            reader.read_line(&lines[i]);
            proof {
                let next = texts_of(lines@).take(i + 1);
                assert(next.drop_last() == texts_of(lines@).take(i as int));
                assert(next.last() == lines[i as int]@);
            }
            i += 1;
        }
        assert(texts_of(lines@).take(lines.len() as int) == texts_of(lines@));
        reader.finish()
    }

    /// Takes one line of a scene, without white space around it, and adds
    /// what it writes to `scene`. Returns the error if the line is rejected.
    pub fn process_line(line: &str, scene: &mut Scene) -> (r: Option<ParseError>)
        ensures
            final(scene)@ == scene_with(old(scene)@, line_outcome(line@)),
            match r {
                Some(e) => rejection(line_outcome(line@)) == Some(e.kind@) && e.line_number == 0,
                None => rejection(line_outcome(line@)) is None,
            },
    {
        match ScenarioLoader::process_chars(&to_chars(line), scene) {
            Some(kind) => Some(ParseError { line_number: 0, kind }),
            None => None,
        }
    }

    /// Takes one line of a scene, given by its characters.
    fn process_chars(line: &Vec<char>, scene: &mut Scene) -> (r: Option<ParseErrorKind>)
        ensures
            final(scene)@ == scene_with(old(scene)@, line_outcome(line@)),
            match r {
                Some(kind) => rejection(line_outcome(line@)) == Some(kind@),
                None => rejection(line_outcome(line@)) is None,
            },
    {
        if is_enclosed_by(line, '[', ']') {
            match SceneCommand::parse_chars(line) {
                Ok(command) => {
                    scene.commands.push(command);
                    assert(scene.commands.deep_view() == old(scene).commands.deep_view().push(
                        command@,
                    ));
                    None
                },
                Err(e) => Some(e.kind),
            }
        } else if is_enclosed_by(line, '`', '`') {
            let body = inner_of(line);
            match ScenarioLoader::shorthand_of(&body) {
                Some(command) => {
                    scene.commands.push(command);
                    assert(scene.commands.deep_view() == old(scene).commands.deep_view().push(
                        command@,
                    ));
                    None
                },
                None => Some(ParseErrorKind::UnknownShorthand { text: to_string(&body) }),
            }
        } else {
            match DialogueBlock::parse_chars(line) {
                Some(block) => {
                    scene.dialogue_blocks.push(block);
                    assert(scene.dialogue_blocks.deep_view() == old(
                        scene,
                    ).dialogue_blocks.deep_view().push(block@));
                    None
                },
                None => None,
            }
        }
    }

    /// Counts what `scenario` holds. A count that does not fit in `usize` is
    /// given as the largest `usize`.
    pub fn get_scenario_stats(scenario: &ScenarioFile) -> (stats: ScenarioStats)
        ensures
            stats.title@ == scenario.title@,
            stats.scene_count == scenario.scenes.len(),
            stats.total_commands == capped(all_commands(scenario@.scenes).len()),
            stats.total_dialogues == capped(dialogue_count(scenario@.scenes)),
            forall|name: Seq<char>|
                stats.command_types@.contains_key(name) <==> occurrences(
                    all_commands(scenario@.scenes),
                    name,
                ) > 0,
            forall|name: Seq<char>|
                stats.command_types@.contains_key(name) ==> stats.command_types@[name] == capped(
                    occurrences(all_commands(scenario@.scenes), name),
                ),
    {
        let ghost scenes = scenario@.scenes;
        let mut total_commands: usize = 0;
        let mut total_dialogues: usize = 0;
        let mut counts: Vec<usize> = Vec::new();
        let mut k: usize = 0;
        while k < 7
            invariant
                k <= 7,
                counts.len() == k,
                forall|j: int| 0 <= j < k ==> counts[j] == 0,
            decreases 7 - k,
        {
            counts.push(0);
            k += 1;
        }
        let mut i: usize = 0;
        assert(scenes.take(0) == Seq::<SceneView>::empty());
        while i < scenario.scenes.len()
            invariant
                i <= scenario.scenes.len(),
                scenes == scenario@.scenes,
                total_commands == capped(all_commands(scenes.take(i as int)).len()),
                total_dialogues == capped(dialogue_count(scenes.take(i as int))),
                counts_match(counts@, all_commands(scenes.take(i as int))),
            decreases scenario.scenes.len() - i,
        {
            let scene = &scenario.scenes[i];
            let ghost before = all_commands(scenes.take(i as int));
            proof {
                assert(scenes.take(i + 1).drop_last() == scenes.take(i as int));
                assert(scenes.take(i + 1).last() == scene@);
                assert(scene@.commands.take(0) == Seq::<SceneCommandView>::empty());
                assert(before + scene@.commands.take(0) == before);
            }
            let mut j: usize = 0;
            while j < scene.commands.len()
                invariant
                    j <= scene.commands.len(),
                    total_commands == capped((before + scene@.commands.take(j as int)).len()),
                    counts_match(counts@, before + scene@.commands.take(j as int)),
                decreases scene.commands.len() - j,
            {
                let ghost seen = before + scene@.commands.take(j as int);
                count_command(&mut counts, &scene.commands[j], Ghost(seen));
                total_commands = count_up(total_commands);
                proof {
                    assert(scene@.commands[j as int] == scene.commands[j as int]@);
                    assert(before + scene@.commands.take(j + 1) == seen.push(
                        scene.commands[j as int]@,
                    ));
                }
                j += 1;
            }
            proof {
                assert(scene@.commands.take(scene.commands.len() as int) == scene@.commands);
            }
            let dialogues = scene.dialogue_blocks.len();
            total_dialogues =
            if dialogues <= usize::MAX - total_dialogues {
                total_dialogues + dialogues
            } else {
                usize::MAX
            };
            i += 1;
        }
        assert(scenes.take(scenario.scenes.len() as int) == scenes);
        let ghost all = all_commands(scenes);
        let mut command_types: StringHashMap<usize> = StringHashMap::new();
        let mut k: usize = 0;
        while k < 7
            invariant
                k <= 7,
                counts_match(counts@, all),
                forall|name: Seq<char>|
                    command_types@.contains_key(name) <==> exists|j: int|
                        0 <= j < k && #[trigger] command_names()[j] == name && counts[j] > 0,
                forall|j: int|
                    0 <= j < k && counts[j] > 0 ==> command_types@[#[trigger] command_names()[j]]
                        == counts[j],
            decreases 7 - k,
        {
            proof {
                lemma_command_names_distinct();
            }
            if counts[k] > 0 {
                command_types.insert(String::from_str(name_at(k)), counts[k]);
            }
            k += 1;
        }
        proof {
            lemma_command_names_distinct();
            assert forall|name: Seq<char>|
                command_types@.contains_key(name) <==> occurrences(all, name) > 0 by {
                if occurrences(all, name) > 0 {
                    if forall|j: int| 0 <= j < 7 ==> command_names()[j] != name {
                        lemma_occurrences_of_names(all, name);
                    }
                }
            }
        }
        ScenarioStats {
            title: scenario.title.clone(),
            scene_count: scenario.scenes.len(),
            total_commands,
            total_dialogues,
            command_types,
        }
    }

    /// Reads the command that the short form `command_str` writes.
    pub fn parse_simple_command(command_str: &str) -> (r: Option<SceneCommand>)
        ensures
            r.deep_view() == parsed_shorthand(command_str@),
    {
        ScenarioLoader::shorthand_of(&to_chars(command_str))
    }

    /// Reads the command that the short form `text` writes.
    fn shorthand_of(text: &Vec<char>) -> (r: Option<SceneCommand>)
        ensures
            r.deep_view() == parsed_shorthand(text@),
    {
        let parts = split(text, ':');
        let ghost views = texts_of(parts@);
        assert(views[0] == parts[0]@);
        if equals_str(&parts[0], "bg") && parts.len() >= 2 {
            assert(views[1] == parts[1]@);
            Some(
                SceneCommand::Background {
                    storage: to_string(&parts[1]),
                    time: Some(SHORTHAND_BACKGROUND_TIME),
                },
            )
        } else if equals_str(&parts[0], "char") && parts.len() >= 4 {
            assert(views[1] == parts[1]@);
            assert(views[2] == parts[2]@);
            assert(views[3] == parts[3]@);
            let position = to_string(&parts[3]);
            Some(
                SceneCommand::CharacterShow {
                    name: to_string(&parts[1]),
                    face: Some(to_string(&parts[2])),
                    pos: Some(CharacterPosition::from(position.as_str())),
                },
            )
        } else if equals_str(&parts[0], "char") && parts.len() >= 2 {
            assert(views[1] == parts[1]@);
            Some(
                SceneCommand::CharacterShow {
                    name: to_string(&parts[1]),
                    face: None,
                    pos: Some(CharacterPosition::Center),
                },
            )
        } else {
            None
        }
    }
}

} // verus!
