//! The cursor that walks a scenario: which scene and which dialogue block are
//! current, and how a step forward moves them.

use vstd::prelude::*;
use crate::scenario::{
    DialogueBlock, DialogueBlockView, ScenarioFile, ScenarioFileView, Scene, SceneView,
};

verus! {

/// Where the play of a scenario stands.
#[derive(Debug)]
pub struct MarkdownScenarioState {
    /// The scenario that is played, once one is loaded.
    pub current_scenario: Option<ScenarioFile>,
    /// The current scene; the number of scenes once all are played.
    pub current_scene_index: usize,
    /// The current dialogue block within the current scene.
    pub current_dialogue_index: usize,
    /// Whether the commands of the current scene have been run.
    pub is_scene_commands_executed: bool,
    pub is_waiting_for_input: bool,
    /// Whether loading a scenario has been tried.
    pub has_attempted_load: bool,
}

/// What a [`MarkdownScenarioState`] holds, as mathematical values.
pub struct ScenarioCursor {
    pub scenario: Option<ScenarioFileView>,
    pub scene_index: int,
    pub dialogue_index: int,
    pub commands_executed: bool,
    pub waiting_for_input: bool,
    pub attempted_load: bool,
}

impl ScenarioCursor {
    /// The cursor before any scenario is loaded.
    pub open spec fn initial() -> ScenarioCursor {
        ScenarioCursor {
            scenario: None,
            scene_index: 0,
            dialogue_index: 0,
            commands_executed: false,
            waiting_for_input: false,
            attempted_load: false,
        }
    }

    /// The cursor at the start of `scenario`.
    pub open spec fn at_start_of(scenario: ScenarioFileView) -> ScenarioCursor {
        ScenarioCursor {
            scenario: Some(scenario),
            scene_index: 0,
            dialogue_index: 0,
            commands_executed: false,
            waiting_for_input: false,
            attempted_load: true,
        }
    }

    /// The scenes of the loaded scenario; none if none is loaded.
    pub open spec fn scenes(self) -> Seq<SceneView> {
        match self.scenario {
            Some(scenario) => scenario.scenes,
            None => Seq::empty(),
        }
    }

    /// The current scene; none once all scenes are played.
    pub open spec fn current_scene(self) -> Option<SceneView> {
        if 0 <= self.scene_index < self.scenes().len() {
            Some(self.scenes()[self.scene_index])
        } else {
            None
        }
    }

    /// The current dialogue block, if the current scene has one at the
    /// cursor.
    pub open spec fn current_dialogue(self) -> Option<DialogueBlockView> {
        match self.current_scene() {
            Some(scene) => if 0 <= self.dialogue_index < scene.dialogue_blocks.len() {
                Some(scene.dialogue_blocks[self.dialogue_index])
            } else {
                None
            },
            None => None,
        }
    }

    /// Whether the play is over: no scenario is loaded, or all scenes are
    /// played.
    pub open spec fn is_complete(self) -> bool {
        self.scenario is None || self.scene_index >= self.scenes().len()
    }

    /// The cursor at the start of scene `index`, whose commands are yet to
    /// run.
    pub open spec fn at_scene(self, index: int) -> ScenarioCursor {
        ScenarioCursor {
            scene_index: index,
            dialogue_index: 0,
            commands_executed: false,
            ..self
        }
    }

    /// The cursor after a step to the next scene. From the last scene the
    /// step leads past it, to where the play is over; from there no step
    /// leads on.
    pub open spec fn after_scene(self) -> ScenarioCursor {
        if self.current_scene() is Some {
            self.at_scene(self.scene_index + 1)
        } else {
            self
        }
    }

    /// Whether a step to the next scene reaches a scene.
    pub open spec fn has_next_scene(self) -> bool {
        self.current_scene() is Some && self.scene_index + 1 < self.scenes().len()
    }

    /// Whether a dialogue block follows the current one in its scene.
    pub open spec fn has_next_dialogue(self) -> bool {
        match self.current_scene() {
            Some(scene) => self.dialogue_index + 1 < scene.dialogue_blocks.len(),
            None => false,
        }
    }

    /// The cursor after a step to the next dialogue block: the next one of
    /// the scene if there is one, else the start of the next scene.
    pub open spec fn after_dialogue(self) -> ScenarioCursor {
        if self.has_next_dialogue() {
            ScenarioCursor { dialogue_index: self.dialogue_index + 1, ..self }
        } else {
            self.after_scene()
        }
    }

    /// Whether a step to the next dialogue block reaches one, or a scene.
    pub open spec fn can_advance(self) -> bool {
        self.has_next_dialogue() || self.has_next_scene()
    }

    /// Whether the cursor lies within its scenario: the scene is one of the
    /// scenes or just past them, and the dialogue block is one of the
    /// scene's, or the first where the scene has none or the play is over.
    pub open spec fn well_formed(self) -> bool {
        &&& 0 <= self.scene_index <= self.scenes().len()
        &&& match self.current_scene() {
            Some(scene) => self.dialogue_index == 0 || 0 <= self.dialogue_index
                < scene.dialogue_blocks.len(),
            None => self.dialogue_index == 0,
        }
    }
}

impl View for MarkdownScenarioState {
    type V = ScenarioCursor;

    open spec fn view(&self) -> ScenarioCursor {
        ScenarioCursor {
            scenario: match self.current_scenario {
                Some(scenario) => Some(scenario@),
                None => None,
            },
            scene_index: self.current_scene_index as int,
            dialogue_index: self.current_dialogue_index as int,
            commands_executed: self.is_scene_commands_executed,
            waiting_for_input: self.is_waiting_for_input,
            attempted_load: self.has_attempted_load,
        }
    }
}

impl Default for MarkdownScenarioState {
    /// The state before any scenario is loaded.
    fn default() -> (r: Self)
        ensures
            r@ == ScenarioCursor::initial(),
    {
        MarkdownScenarioState {
            current_scenario: None,
            current_scene_index: 0,
            current_dialogue_index: 0,
            is_scene_commands_executed: false,
            is_waiting_for_input: false,
            has_attempted_load: false,
        }
    }
}

impl MarkdownScenarioState {
    /// Loads `scenario_file` in place of what was loaded, and puts the
    /// cursor at its start.
    pub fn load_scenario(&mut self, scenario_file: ScenarioFile)
        ensures
            final(self)@ == ScenarioCursor::at_start_of(scenario_file@),
            final(self)@.well_formed(),
    {
        self.current_scenario = Some(scenario_file);
        self.current_scene_index = 0;
        self.current_dialogue_index = 0;
        self.is_scene_commands_executed = false;
        self.is_waiting_for_input = false;
        self.has_attempted_load = true;
    }

    /// The number of scenes of the loaded scenario.
    fn scene_count(&self) -> (n: usize)
        ensures
            n == self@.scenes().len(),
    {
        match &self.current_scenario {
            Some(scenario) => scenario.scenes.len(),
            None => 0,
        }
    }

    /// The current scene.
    pub fn get_current_scene(&self) -> (r: Option<&Scene>)
        ensures
            match r {
                Some(scene) => self@.current_scene() == Some(scene@),
                None => self@.current_scene() is None,
            },
    {
        match &self.current_scenario {
            Some(scenario) => {
                if self.current_scene_index < scenario.scenes.len() {
                    Some(&scenario.scenes[self.current_scene_index])
                } else {
                    None
                }
            },
            None => None,
        }
    }

    /// The current dialogue block.
    pub fn get_current_dialogue(&self) -> (r: Option<&DialogueBlock>)
        ensures
            match r {
                Some(block) => self@.current_dialogue() == Some(block@),
                None => self@.current_dialogue() is None,
            },
    {
        match self.get_current_scene() {
            Some(scene) => {
                if self.current_dialogue_index < scene.dialogue_blocks.len() {
                    Some(&scene.dialogue_blocks[self.current_dialogue_index])
                } else {
                    None
                }
            },
            None => None,
        }
    }

    /// Steps to the next dialogue block, into the next scene if the current
    /// one has no more. Returns whether there was anything to step to.
    pub fn advance_dialogue(&mut self) -> (advanced: bool)
        ensures
            final(self)@ == old(self)@.after_dialogue(),
            advanced == old(self)@.can_advance(),
            old(self)@.well_formed() ==> final(self)@.well_formed(),
    {
        let count = match self.get_current_scene() {
            Some(scene) => scene.dialogue_blocks.len(),
            None => {
                return false;
            },
        };
        if count > 0 && self.current_dialogue_index < count - 1 {
            self.current_dialogue_index = self.current_dialogue_index + 1;
            true
        } else {
            self.advance_scene()
        }
    }

    /// Steps to the next scene. Returns whether there was one; if not, the
    /// play is over from now on.
    pub fn advance_scene(&mut self) -> (advanced: bool)
        ensures
            final(self)@ == old(self)@.after_scene(),
            advanced == old(self)@.has_next_scene(),
            old(self)@.well_formed() ==> final(self)@.well_formed(),
            !advanced ==> final(self)@.is_complete(),
    {
        let count = self.scene_count();
        if self.current_scene_index < count {
            self.current_scene_index = self.current_scene_index + 1;
            self.current_dialogue_index = 0;
            self.is_scene_commands_executed = false;
            self.current_scene_index < count
        } else {
            false
        }
    }

    /// Whether the play is over.
    pub fn is_scenario_complete(&self) -> (b: bool)
        ensures
            b == self@.is_complete(),
    {
        match &self.current_scenario {
            Some(scenario) => self.current_scene_index >= scenario.scenes.len(),
            None => true,
        }
    }

    /// Claims the commands of the current scene: returns whether they are
    /// to be run now, which is so once for each visit of a scene, and notes
    /// that they have been.
    pub fn claim_scene_commands(&mut self) -> (due: bool)
        ensures
            due == (old(self)@.current_scene() is Some && !old(self)@.commands_executed),
            final(self)@ == (ScenarioCursor {
                commands_executed: old(self)@.commands_executed || due,
                ..old(self)@
            }),
    {
        if !self.is_scene_commands_executed && self.get_current_scene().is_some() {
            self.is_scene_commands_executed = true;
            true
        } else {
            false
        }
    }
}

/// After the commands of a scene were claimed, no step within the scene
/// makes them due again; a step into another scene does.
pub proof fn lemma_commands_once_per_scene(cursor: ScenarioCursor)
    requires
        cursor.commands_executed,
    ensures
        cursor.has_next_dialogue() ==> cursor.after_dialogue().commands_executed
            && cursor.after_dialogue().scene_index == cursor.scene_index,
        cursor.after_dialogue().scene_index != cursor.scene_index
            ==> !cursor.after_dialogue().commands_executed,
{
}

} // verus!
