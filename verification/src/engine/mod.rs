//! The engine: sprites under labels, logic that runs every tick, and the frame that a
//! tick composes.
//!
//! The engine does not touch the terminal, the keyboard or the clock. Its caller
//! measures the time, collects the keys and hands both to `tick`; it gets back the
//! frame to show, and asks `FrameRate::cap` how long to sleep.

pub mod drawable;
pub mod framerate;
pub mod keyboard;
pub mod layers;
pub mod rendering;
pub mod resource;
pub mod scene;
pub mod sprite;
pub mod timing;
pub mod vector;
pub mod window;

use vstd::prelude::*;
use crate::engine::keyboard::keyboard::Key;
use crate::engine::rendering::frame::{grid, is_grid, Frame};
use crate::engine::scene::{Scene, SceneView};
use crate::engine::sprite::Sprite;
use crate::engine::window::Window;

verus! {

/// Logic that runs once in every tick, on the scene and on the state of the game.
pub trait Logic<State> {
    /// What one run may do: `after` is a scene and a state that a run can leave, given
    /// that it found `before`. Logic that says nothing of itself may do anything.
    open spec fn effect(&self, before: (SceneView, State), after: (SceneView, State)) -> bool {
        true
    }

    /// Runs the logic once.
    fn apply(&self, scene: &mut Scene, state: &mut State)
        ensures
            self.effect((old(scene)@, *old(state)), (final(scene)@, *final(state))),
    ;
}

/// Why a tick gave no frame.
#[derive(Debug, Clone, Copy, PartialEq, Eq)]
pub enum EngineError {
    /// A visible sprite reaches outside the window.
    SpriteOutOfWindow,
}

/// A scene and the logic that works on it.
#[verifier::reject_recursive_types(State)]
pub struct Engine<State> {
    scene: Scene,
    logic_fns: Vec<Box<dyn Logic<State>>>,
}

/// The first `n` pieces of `logic`, run one after the other in their order, can lead
/// from `start` to `end`.
pub open spec fn runs<State>(
    logic: Seq<Box<dyn Logic<State>>>,
    n: int,
    start: (SceneView, State),
    end: (SceneView, State),
) -> bool
    decreases n,
{
    if n <= 0 {
        start == end
    } else {
        exists|mid: (SceneView, State)| runs(logic, n - 1, start, mid) && #[trigger] logic[n - 1].effect(mid, end)
    }
}

/// One more piece of logic, run after the others, prolongs the run.
pub proof fn lemma_runs_on<State>(
    logic: Seq<Box<dyn Logic<State>>>,
    n: int,
    start: (SceneView, State),
    mid: (SceneView, State),
    end: (SceneView, State),
)
    requires
        0 <= n < logic.len(),
        runs(logic, n, start, mid),
        logic[n].effect(mid, end),
    ensures
        runs(logic, n + 1, start, end),
{
    assert(logic[(n + 1) - 1].effect(mid, end));
}

impl<State> Engine<State> {
    /// The scene, as a value.
    pub closed spec fn scene(&self) -> SceneView {
        self.scene@
    }

    /// The logic, in the order in which it was registered.
    pub closed spec fn logic(&self) -> Seq<Box<dyn Logic<State>>> {
        self.logic_fns@
    }

    /// An engine for frames of the window's size, at 60 ticks per second, without
    /// sprites and without logic.
    pub fn new(window: Window) -> (engine: Self)
        ensures
            engine.scene() == (SceneView {
                fps: 60,
                width: window.width as nat,
                height: window.height as nat,
                labels: Seq::empty(),
                sprites: Seq::empty(),
                delta: 0,
                keys: Seq::empty(),
                stop: false,
            }),
            engine.logic() == Seq::<Box<dyn Logic<State>>>::empty(),
    {
        Self { scene: Scene::new(window), logic_fns: Vec::new() }
    }

    /// The engine with another target number of ticks per second.
    pub fn set_fps(self, fps: u64) -> (engine: Self)
        ensures
            engine.scene() == (SceneView { fps, ..self.scene() }),
            engine.logic() == self.logic(),
    {
        let mut engine = self;
        engine.scene.set_fps(fps);
        engine
    }

    /// The engine with `sprite` under `label`.
    pub fn with_sprite(self, label: &str, sprite: Sprite) -> (engine: Self)
        ensures
            engine.scene() == self.scene().with_sprite(label@, sprite@),
            engine.logic() == self.logic(),
    {
        let mut engine = self;
        engine.scene.insert_sprite(label, sprite);
        engine
    }

    /// Puts `sprite` under `label`. A sprite that had the label gives way to it.
    pub fn insert_sprite(&mut self, label: &str, sprite: Sprite)
        ensures
            final(self).scene() == old(self).scene().with_sprite(label@, sprite@),
            final(self).logic() == old(self).logic(),
    {
        self.scene.insert_sprite(label, sprite);
    }

    /// Takes the sprite under `label` away, if there is one.
    pub fn remove_sprite(&mut self, label: &str)
        ensures
            final(self).scene() == old(self).scene().without_sprite(label@),
            final(self).logic() == old(self).logic(),
    {
        self.scene.remove_sprite(label);
    }

    /// The sprite under `label`, if there is one.
    pub fn get_sprite(&self, label: &str) -> (found: Option<&Sprite>)
        ensures
            match found {
                Some(sprite) => self.scene().sprite(label@) == Some(sprite@),
                None => self.scene().sprite(label@) is None,
            },
    {
        self.scene.get_sprite(label)
    }

    /// The engine with one more piece of logic, which runs after those it had.
    pub fn with_logic(self, logic_fn: Box<dyn Logic<State>>) -> (engine: Self)
        ensures
            engine.scene() == self.scene(),
            engine.logic() == self.logic().push(logic_fn),
    {
        let mut engine = self;
        engine.logic_fns.push(logic_fn);
        engine
    }

    /// The keys of the last tick, in the order in which they were pressed.
    pub fn get_pressed_keys(&self) -> (keys: Vec<Key>)
        ensures
            keys@ == self.scene().keys,
    {
        self.scene.get_pressed_keys()
    }

    /// Asks the engine to stop.
    pub fn stop(&mut self)
        ensures
            final(self).scene() == (SceneView { stop: true, ..old(self).scene() }),
            final(self).logic() == old(self).logic(),
    {
        self.scene.stop();
    }

    /// Gets the engine ready to run: a stop asked for earlier no longer counts.
    pub fn start(&mut self)
        ensures
            final(self).scene() == (SceneView { stop: false, ..old(self).scene() }),
            final(self).logic() == old(self).logic(),
    {
        self.scene.resume();
    }

    /// Whether the engine goes on to another tick: it does until a stop is asked for.
    pub fn is_running(&self) -> (running: bool)
        ensures
            running == !self.scene().stop,
    {
        !self.scene.is_stopped()
    }

    /// The target number of ticks per second.
    pub fn fps(&self) -> (fps: u64)
        ensures
            fps == self.scene().fps,
    {
        self.scene.fps()
    }

    /// The width of the frames that the engine composes.
    pub fn width(&self) -> (width: usize)
        ensures
            width == self.scene().width,
    {
        self.scene.width()
    }

    /// The height of the frames that the engine composes.
    pub fn height(&self) -> (height: usize)
        ensures
            height == self.scene().height,
    {
        self.scene.height()
    }

    /// The milliseconds that the tick before the last took.
    pub fn delta(&self) -> (millis: u128)
        ensures
            millis == self.scene().delta,
    {
        self.scene.delta()
    }

    /// One tick. The scene takes `delta`, the milliseconds that the tick before took,
    /// and `keys`, the keys pressed since. Then every piece of logic runs once, in the
    /// order of registration, on the scene and on `state`. What the scene then holds is
    /// composed into a fresh frame, which is the result. If a visible sprite reaches
    /// outside the window there is no frame, but the logic has run all the same.
    pub fn tick(&mut self, state: &mut State, delta: u128, keys: Vec<Key>) -> (frame: Result<Frame, EngineError>)
        ensures
            final(self).logic() == old(self).logic(),
            runs(
                old(self).logic(),
                old(self).logic().len() as int,
                (SceneView { delta, keys: keys@, ..old(self).scene() }, *old(state)),
                (final(self).scene(), *final(state)),
            ),
            match frame {
                Ok(frame) => {
                    &&& final(self).scene().fits()
                    &&& grid(&frame) == final(self).scene().picture()
                    &&& is_grid(grid(&frame), final(self).scene().width, final(self).scene().height)
                },
                Err(error) => error == EngineError::SpriteOutOfWindow && !final(self).scene().fits(),
            },
    {
        self.scene.begin_tick(delta, keys);
        let ghost start = (self.scene@, *state);
        let mut i: usize = 0;
        while i < self.logic_fns.len()
            invariant
                i <= self.logic_fns@.len(),
                self.logic_fns@ == old(self).logic_fns@,
                runs(self.logic_fns@, i as int, start, (self.scene@, *state)),
            decreases self.logic_fns.len() - i,
        {
            let ghost mid = (self.scene@, *state);
            self.logic_fns[i].apply(&mut self.scene, state);
            proof {
                lemma_runs_on(self.logic_fns@, i as int, start, mid, (self.scene@, *state));
            }
            i += 1;
        }
        if self.scene.fits() {
            Ok(self.scene.compose())
        } else {
            Err(EngineError::SpriteOutOfWindow)
        }
    }
}

impl<State> Default for Engine<State> {
    /// An engine for frames of 100 by 100 cells.
    fn default() -> (engine: Self)
        ensures
            engine.scene() == (SceneView {
                fps: 60,
                width: 100,
                height: 100,
                labels: Seq::empty(),
                sprites: Seq::empty(),
                delta: 0,
                keys: Seq::empty(),
                stop: false,
            }),
            engine.logic() == Seq::<Box<dyn Logic<State>>>::empty(),
    {
        Engine::new(Window::new(100, 100))
    }
}

/// Without logic a tick changes nothing in the scene but the time and the keys.
pub proof fn lemma_no_logic_changes_nothing<State>(
    logic: Seq<Box<dyn Logic<State>>>,
    start: (SceneView, State),
    end: (SceneView, State),
)
    requires
        logic.len() == 0,
        runs(logic, 0, start, end),
    ensures
        start == end,
{
}

/// Logic runs in the order of its registration: what a tick with two pieces of logic
/// leaves is what the second piece leaves of what the first piece left.
pub proof fn lemma_logic_runs_in_order<State>(
    logic: Seq<Box<dyn Logic<State>>>,
    start: (SceneView, State),
    end: (SceneView, State),
)
    requires
        logic.len() == 2,
        runs(logic, 2, start, end),
    ensures
        exists|mid: (SceneView, State)| #[trigger] logic[0].effect(start, mid) && logic[1].effect(mid, end),
{
    let mid = choose|mid: (SceneView, State)| runs(logic, 1, start, mid) && #[trigger] logic[1].effect(mid, end);
    let first = choose|first: (SceneView, State)| runs(logic, 0, start, first) && #[trigger] logic[0].effect(first, mid);
    assert(first == start);
    assert(logic[0].effect(start, mid) && logic[1].effect(mid, end));
}

} // verus!
