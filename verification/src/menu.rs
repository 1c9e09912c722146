//! The title menu and the screens it leads to: where the cursor goes, what
//! a selection does, and how the game starts up.

use vstd::prelude::*;

verus! {

/// The buttons of the title menu, from top to bottom.
#[derive(Debug, Clone, Copy, PartialEq, Eq, Structural)]
pub enum MenuButtonType {
    NewGame,
    Continue,
    Settings,
    Gallery,
    Exit,
}

/// The number of buttons of the title menu.
pub const MENU_BUTTONS: usize = 5;

/// The button at place `index`; the first button for a place that the menu
/// does not have.
pub open spec fn button_at(index: int) -> MenuButtonType {
    if index == 1 {
        MenuButtonType::Continue
    } else if index == 2 {
        MenuButtonType::Settings
    } else if index == 3 {
        MenuButtonType::Gallery
    } else if index == 4 {
        MenuButtonType::Exit
    } else {
        MenuButtonType::NewGame
    }
}

/// The place of a button in the menu.
pub open spec fn place_of(button: MenuButtonType) -> int {
    match button {
        MenuButtonType::NewGame => 0,
        MenuButtonType::Continue => 1,
        MenuButtonType::Settings => 2,
        MenuButtonType::Gallery => 3,
        MenuButtonType::Exit => 4,
    }
}

/// What is written on a button.
pub open spec fn button_label(button: MenuButtonType) -> Seq<char> {
    match button {
        MenuButtonType::NewGame => "はじめから"@,
        MenuButtonType::Continue => "つづきから"@,
        MenuButtonType::Settings => "設定"@,
        MenuButtonType::Gallery => "ギャラリー"@,
        MenuButtonType::Exit => "ゲーム終了"@,
    }
}

/// The name of the button at place `index`, for messages; a place that the
/// menu does not have is named as unknown.
pub open spec fn button_name(index: int) -> Seq<char> {
    if 0 <= index < MENU_BUTTONS {
        button_label(button_at(index))
    } else {
        "不明"@
    }
}

/// The button at place `index`.
pub fn index_to_menu_button_type(index: usize) -> (button: MenuButtonType)
    ensures
        button == button_at(index as int),
{
    match index {
        0 => MenuButtonType::NewGame,
        1 => MenuButtonType::Continue,
        2 => MenuButtonType::Settings,
        3 => MenuButtonType::Gallery,
        4 => MenuButtonType::Exit,
        _ => MenuButtonType::NewGame,
    }
}

/// The place of `button` in the menu.
pub fn menu_button_index(button: MenuButtonType) -> (index: usize)
    ensures
        index == place_of(button),
{
    match button {
        MenuButtonType::NewGame => 0,
        MenuButtonType::Continue => 1,
        MenuButtonType::Settings => 2,
        MenuButtonType::Gallery => 3,
        MenuButtonType::Exit => 4,
    }
}

/// What is written on `button_type`.
pub fn get_menu_button_text(button_type: &MenuButtonType) -> (label: &'static str)
    ensures
        label@ == button_label(*button_type),
{
    match button_type {
        MenuButtonType::NewGame => "はじめから",
        MenuButtonType::Continue => "つづきから",
        MenuButtonType::Settings => "設定",
        MenuButtonType::Gallery => "ギャラリー",
        MenuButtonType::Exit => "ゲーム終了",
    }
}

/// What is written on the button at place `index`.
pub fn get_button_text_by_index(index: usize) -> (label: &'static str)
    ensures
        label@ == button_label(button_at(index as int)),
{
    let button_type = index_to_menu_button_type(index);
    get_menu_button_text(&button_type)
}

/// The name of the button at place `index`, for messages.
pub fn get_button_name(index: usize) -> (name: &'static str)
    ensures
        name@ == button_name(index as int),
{
    if index < MENU_BUTTONS {
        get_button_text_by_index(index)
    } else {
        "不明"
    }
}

/// The screens of the game.
#[derive(Debug, Clone, Copy, PartialEq, Eq, Structural)]
pub enum GameScreen {
    Title,
    Story,
    Settings,
    Gallery,
    Battle,
}

/// Which screen is shown, and whether the story is being played.
#[derive(Debug, Clone, Copy, PartialEq, Eq, Structural)]
pub struct GameMode {
    pub is_story_mode: bool,
    pub current_screen: GameScreen,
}

/// What the program is to do after a key or a click.
#[derive(Debug, Clone, Copy, PartialEq, Eq, Structural)]
pub enum MenuAction {
    /// Nothing beyond showing the current screen.
    Stay,
    /// Take down the title screen and build the story screen.
    StartStory,
    /// End the program.
    Exit,
}

/// The mode after the button at place `index` was chosen. A new game enters
/// the story; the settings and the gallery change the screen; anything else
/// leaves the mode as it is.
pub open spec fn mode_after_selection(mode: GameMode, index: int) -> GameMode {
    if index == 0 {
        GameMode { is_story_mode: true, current_screen: GameScreen::Story }
    } else if index == 2 {
        GameMode { current_screen: GameScreen::Settings, ..mode }
    } else if index == 3 {
        GameMode { current_screen: GameScreen::Gallery, ..mode }
    } else {
        mode
    }
}

/// What is to be done after the button at place `index` was chosen.
pub open spec fn action_of_selection(index: int) -> MenuAction {
    if index == 0 {
        MenuAction::StartStory
    } else if index == 4 {
        MenuAction::Exit
    } else {
        MenuAction::Stay
    }
}

impl Default for GameMode {
    /// The mode at the start: the title screen.
    fn default() -> (r: Self)
        ensures
            r == (GameMode { is_story_mode: false, current_screen: GameScreen::Title }),
    {
        GameMode { is_story_mode: false, current_screen: GameScreen::Title }
    }
}

impl GameMode {
    /// Takes the choice of the button at place `index`.
    pub fn select(&mut self, index: usize) -> (action: MenuAction)
        ensures
            *final(self) == mode_after_selection(*old(self), index as int),
            action == action_of_selection(index as int),
    {
        match index {
            0 => {
                self.is_story_mode = true;
                self.current_screen = GameScreen::Story;
                MenuAction::StartStory
            },
            2 => {
                self.current_screen = GameScreen::Settings;
                MenuAction::Stay
            },
            3 => {
                self.current_screen = GameScreen::Gallery;
                MenuAction::Stay
            },
            4 => MenuAction::Exit,
            _ => MenuAction::Stay,
        }
    }

    /// Takes the escape key: out of the story it leads back to the title,
    /// and from anywhere else out of the program.
    pub fn escape(&mut self) -> (action: MenuAction)
        ensures
            old(self).is_story_mode ==> action == MenuAction::Stay && *final(self) == (GameMode {
                is_story_mode: false,
                current_screen: GameScreen::Title,
            }),
            !old(self).is_story_mode ==> action == MenuAction::Exit && *final(self) == *old(self),
    {
        if self.is_story_mode {
            self.is_story_mode = false;
            self.current_screen = GameScreen::Title;
            MenuAction::Stay
        } else {
            MenuAction::Exit
        }
    }
}

/// The cursor of the title menu.
#[derive(Debug, Clone, Copy, PartialEq, Eq, Structural)]
pub struct MenuCursor {
    pub current_index: usize,
    pub max_buttons: usize,
}

impl Default for MenuCursor {
    /// The cursor at the start: on the first of the buttons.
    fn default() -> (r: Self)
        ensures
            r == (MenuCursor { current_index: 0, max_buttons: MENU_BUTTONS }),
    {
        MenuCursor { current_index: 0, max_buttons: MENU_BUTTONS }
    }
}

impl MenuCursor {
    /// Whether the cursor is on one of the buttons.
    pub open spec fn on_a_button(self) -> bool {
        self.current_index < self.max_buttons
    }

    /// Moves the cursor up by one button, unless it is on the first.
    /// Returns whether it moved.
    pub fn move_up(&mut self) -> (moved: bool)
        ensures
            moved == (old(self).current_index > 0),
            final(self).max_buttons == old(self).max_buttons,
            final(self).current_index == if moved {
                old(self).current_index - 1
            } else {
                old(self).current_index as int
            },
            old(self).on_a_button() ==> final(self).on_a_button(),
    {
        if self.current_index > 0 {
            self.current_index = self.current_index - 1;
            true
        } else {
            false
        }
    }

    /// Moves the cursor down by one button, unless it is on the last.
    /// Returns whether it moved.
    pub fn move_down(&mut self) -> (moved: bool)
        ensures
            moved == (old(self).current_index + 1 < old(self).max_buttons),
            final(self).max_buttons == old(self).max_buttons,
            final(self).current_index == if moved {
                old(self).current_index + 1
            } else {
                old(self).current_index as int
            },
            old(self).on_a_button() ==> final(self).on_a_button(),
    {
        if self.max_buttons > 0 && self.current_index < self.max_buttons - 1 {
            self.current_index = self.current_index + 1;
            true
        } else {
            false
        }
    }
}

/// The place of the background that follows the one at `current_index`,
/// of `count` backgrounds that are shown in turn.
pub fn next_background_index(current_index: usize, count: usize) -> (next: usize)
    requires
        count > 0,
    ensures
        next == (current_index + 1) % (count as int),
        next < count,
{
    let next: u128 = (current_index as u128 + 1) % (count as u128);
    next as usize
}

/// How far the start of the program has come.
#[derive(Debug, Clone, Copy, PartialEq, Eq, Structural)]
pub enum InitState {
    /// The font is still being loaded.
    LoadingFonts,
    /// The font is there and the title screen can be built.
    FontsReady,
    /// The title screen is built.
    UIReady,
}

impl Default for InitState {
    fn default() -> (r: Self)
        ensures
            r == InitState::LoadingFonts,
    {
        InitState::LoadingFonts
    }
}

/// The state of the program's start.
#[derive(Debug, Clone, Copy, PartialEq, Eq, Structural)]
pub struct AppState {
    /// Whether the loading of the first assets has come to an end.
    pub font_load_checked: bool,
    pub init_state: InitState,
}

impl Default for AppState {
    fn default() -> (r: Self)
        ensures
            r == (AppState { font_load_checked: false, init_state: InitState::LoadingFonts }),
    {
        AppState { font_load_checked: false, init_state: InitState::LoadingFonts }
    }
}

/// The state after one step of the start, where `font_loaded` says whether
/// the font is there and `assets_known` whether the first assets have been
/// asked for.
pub open spec fn state_after_step(state: AppState, assets_known: bool, font_loaded: bool) -> AppState {
    match state.init_state {
        InitState::LoadingFonts => if assets_known && font_loaded {
            AppState { init_state: InitState::FontsReady, ..state }
        } else {
            state
        },
        InitState::FontsReady => if assets_known {
            AppState { init_state: InitState::UIReady, ..state }
        } else {
            state
        },
        InitState::UIReady => state,
    }
}

impl AppState {
    /// Takes one step of the start. Returns whether the title screen is to
    /// be built now, which is so once.
    pub fn step(&mut self, assets_known: bool, font_loaded: bool) -> (build_ui: bool)
        ensures
            *final(self) == state_after_step(*old(self), assets_known, font_loaded),
            build_ui == (old(self).init_state == InitState::FontsReady && assets_known),
    {
        match self.init_state {
            InitState::LoadingFonts => {
                if assets_known && font_loaded {
                    self.init_state = InitState::FontsReady;
                }
                false
            },
            InitState::FontsReady => {
                if assets_known {
                    self.init_state = InitState::UIReady;
                    true
                } else {
                    false
                }
            },
            InitState::UIReady => false,
        }
    }

    /// Notes that the first assets are all loaded.
    pub fn assets_loaded(&mut self)
        ensures
            final(self).font_load_checked,
            final(self).init_state == if old(self).init_state == InitState::LoadingFonts {
                InitState::FontsReady
            } else {
                old(self).init_state
            },
    {
        self.font_load_checked = true;
        if self.init_state == InitState::LoadingFonts {
            self.init_state = InitState::FontsReady;
        }
    }
}

} // verus!
