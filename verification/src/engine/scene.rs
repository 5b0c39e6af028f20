//! The scene: what the logic of a tick can see and change.

use vstd::prelude::*;
use crate::engine::keyboard::keyboard::Key;
use crate::engine::layers::{all_fit, all_fit_in, compose, composed, views};
use crate::engine::rendering::frame::{grid, is_grid, Frame};
use crate::engine::sprite::{Sprite, SpriteView};
use crate::engine::window::Window;

verus! {

/// The sprites of an engine under their labels, the keys of the running tick, and the
/// engine's settings. No label stands for two sprites.
pub struct Scene {
    fps: u64,
    window: Window,
    registry: Registry,
    delta: u128,
    pressed_keys: Vec<Key>,
    stop: bool,
}

/// Sprites and their labels, side by side: sprite `i` has label `i`.
struct Registry {
    labels: Vec<String>,
    sprites: Vec<Sprite>,
}

/// A scene as a value: sprite `i` is registered under label `i`.
pub struct SceneView {
    pub fps: u64,
    pub width: nat,
    pub height: nat,
    pub labels: Seq<Seq<char>>,
    pub sprites: Seq<SpriteView>,
    pub delta: u128,
    pub keys: Seq<Key>,
    pub stop: bool,
}

/// No label occurs twice.
pub open spec fn distinct(labels: Seq<Seq<char>>) -> bool {
    forall|i: int, j: int| 0 <= i < j < labels.len() ==> labels[i] != labels[j]
}

/// The place of `label` among `labels`, the first if there are several.
pub open spec fn position(labels: Seq<Seq<char>>, label: Seq<char>) -> Option<int>
    decreases labels.len(),
{
    if labels.len() == 0 {
        None
    } else if labels[0] == label {
        Some(0)
    } else {
        match position(labels.drop_first(), label) {
            Some(i) => Some(i + 1),
            None => None,
        }
    }
}

/// `position` finds the first place of the label, and misses it only if it is absent.
pub proof fn lemma_position(labels: Seq<Seq<char>>, label: Seq<char>)
    ensures
        match position(labels, label) {
            Some(i) => 0 <= i < labels.len() && labels[i] == label && forall|j: int| 0 <= j < i ==> labels[j] != label,
            None => forall|j: int| 0 <= j < labels.len() ==> labels[j] != label,
        },
    decreases labels.len(),
{
    if labels.len() > 0 && labels[0] != label {
        let rest = labels.drop_first();
        lemma_position(rest, label);
        match position(rest, label) {
            Some(i) => {
                assert(labels[i + 1] == rest[i]);
                assert forall|j: int| 0 <= j < i + 1 implies labels[j] != label by {
                    if j > 0 {
                        assert(labels[j] == rest[j - 1]);
                    }
                }
            },
            None => {
                assert forall|j: int| 0 <= j < labels.len() implies labels[j] != label by {
                    if j > 0 {
                        assert(labels[j] == rest[j - 1]);
                    }
                }
            },
        }
    }
}

impl SceneView {
    /// Each sprite has its label, and no label occurs twice.
    pub open spec fn wf(self) -> bool {
        self.labels.len() == self.sprites.len() && distinct(self.labels)
    }

    /// The sprite registered under `label`, if there is one.
    pub open spec fn sprite(self, label: Seq<char>) -> Option<SpriteView> {
        match position(self.labels, label) {
            Some(i) => Some(self.sprites[i]),
            None => None,
        }
    }

    /// The scene with `sprite` under `label`: in the place of the sprite that had the
    /// label, or behind all others if none had it.
    pub open spec fn with_sprite(self, label: Seq<char>, sprite: SpriteView) -> SceneView {
        match position(self.labels, label) {
            Some(i) => SceneView { sprites: self.sprites.update(i, sprite), ..self },
            None => SceneView { labels: self.labels.push(label), sprites: self.sprites.push(sprite), ..self },
        }
    }

    /// The scene without the sprite under `label`.
    pub open spec fn without_sprite(self, label: Seq<char>) -> SceneView {
        match position(self.labels, label) {
            Some(i) => SceneView { labels: self.labels.remove(i), sprites: self.sprites.remove(i), ..self },
            None => self,
        }
    }

    /// Every sprite lies inside the window.
    pub open spec fn fits(self) -> bool {
        all_fit(self.sprites, self.width, self.height)
    }

    /// The picture of the scene: its sprites, composed in a frame of the window's size.
    pub open spec fn picture(self) -> Seq<Seq<u32>> {
        composed(self.sprites, self.width, self.height)
    }
}

/// A label that is put into a scene is found there with its sprite, and every other
/// label stands for what it stood for before.
pub proof fn lemma_with_sprite(scene: SceneView, label: Seq<char>, sprite: SpriteView, other: Seq<char>)
    requires
        scene.wf(),
    ensures
        scene.with_sprite(label, sprite).wf(),
        scene.with_sprite(label, sprite).sprite(label) == Some(sprite),
        other != label ==> scene.with_sprite(label, sprite).sprite(other) == scene.sprite(other),
{
    lemma_position(scene.labels, label);
    lemma_position(scene.labels, other);
    let after = scene.with_sprite(label, sprite);
    match position(scene.labels, label) {
        Some(i) => {},
        None => {
            lemma_position_is(after.labels, label, scene.labels.len() as int);
            match position(scene.labels, other) {
                Some(j) => {
                    lemma_position_is(after.labels, other, j);
                },
                None => {
                    if other != label {
                        lemma_position_none(after.labels, other);
                    }
                },
            }
        },
    }
}

/// A label that is taken out of a scene stands for nothing, and every other label
/// stands for what it stood for before.
pub proof fn lemma_without_sprite(scene: SceneView, label: Seq<char>, other: Seq<char>)
    requires
        scene.wf(),
    ensures
        scene.without_sprite(label).wf(),
        scene.without_sprite(label).sprite(label) is None,
        other != label ==> scene.without_sprite(label).sprite(other) == scene.sprite(other),
{
    lemma_position(scene.labels, label);
    lemma_position(scene.labels, other);
    let after = scene.without_sprite(label);
    match position(scene.labels, label) {
        Some(i) => {
            lemma_position_none(after.labels, label);
            match position(scene.labels, other) {
                Some(j) => {
                    if other != label {
                        if j < i {
                            lemma_position_is(after.labels, other, j);
                        } else {
                            lemma_position_is(after.labels, other, j - 1);
                        }
                    }
                },
                None => {
                    lemma_position_none(after.labels, other);
                },
            }
        },
        None => {},
    }
}

/// The place of a label is `i`, if the label stands there and nowhere before.
pub proof fn lemma_position_is(labels: Seq<Seq<char>>, label: Seq<char>, i: int)
    requires
        0 <= i < labels.len(),
        labels[i] == label,
        forall|j: int| 0 <= j < i ==> labels[j] != label,
    ensures
        position(labels, label) == Some(i),
{
    lemma_position(labels, label);
}

/// A label that stands nowhere has no place.
pub proof fn lemma_position_none(labels: Seq<Seq<char>>, label: Seq<char>)
    requires
        forall|j: int| 0 <= j < labels.len() ==> labels[j] != label,
    ensures
        position(labels, label) is None,
{
    lemma_position(labels, label);
}

impl View for Scene {
    type V = SceneView;

    closed spec fn view(&self) -> SceneView {
        SceneView {
            fps: self.fps,
            width: self.window.width as nat,
            height: self.window.height as nat,
            labels: Seq::new(self.registry.labels@.len(), |i: int| self.registry.labels@[i]@),
            sprites: views(&self.registry.sprites),
            delta: self.delta,
            keys: self.pressed_keys@,
            stop: self.stop,
        }
    }
}

impl Scene {
    #[verifier::type_invariant]
    spec fn inv(self) -> bool {
        self@.wf()
    }

    /// An empty scene for frames of the window's size, at 60 ticks per second.
    pub fn new(window: Window) -> (scene: Self)
        ensures
            scene@ == (SceneView {
                fps: 60,
                width: window.width as nat,
                height: window.height as nat,
                labels: Seq::empty(),
                sprites: Seq::empty(),
                delta: 0,
                keys: Seq::empty(),
                stop: false,
            }),
            scene@.wf(),
    {
        let registry = Registry { labels: Vec::new(), sprites: Vec::new() };
        assert(views(&registry.sprites) =~= Seq::empty());
        let scene = Scene {
            fps: 60,
            window,
            registry,
            delta: 0,
            pressed_keys: Vec::new(),
            stop: false,
        };
        assert(scene@.labels =~= Seq::empty());
        scene
    }

    /// The place of `label` among the labels.
    fn find(&self, label: &String) -> (place: Option<usize>)
        ensures
            self@.wf(),
            match place {
                Some(i) => position(self@.labels, label@) == Some(i as int) && i < self@.labels.len(),
                None => position(self@.labels, label@) is None,
            },
    {
        proof {
            use_type_invariant(self);
            lemma_position(self@.labels, label@);
        }
        let mut i: usize = 0;
        while i < self.registry.labels.len()
            invariant
                self@.wf(),
                i <= self.registry.labels@.len(),
                self@.labels.len() == self.registry.labels@.len(),
                forall|j: int| 0 <= j < i ==> self@.labels[j] != label@,
            decreases self.registry.labels.len() - i,
        {
            assert(self@.labels[i as int] == self.registry.labels@[i as int]@);
            if self.registry.labels[i] == *label {
                proof {
                    lemma_position(self@.labels, label@);
                }
                return Some(i);
            }
            i += 1;
        }
        None
    }

    /// Puts `sprite` under `label`. A sprite that had the label gives way to it.
    pub fn insert_sprite(&mut self, label: &str, sprite: Sprite)
        ensures
            final(self)@ == old(self)@.with_sprite(label@, sprite@),
            final(self)@.wf(),
    {
        let key = label.to_owned();
        let place = self.find(&key);
        let ghost before = self@;
        let mut registry = Registry { labels: Vec::new(), sprites: Vec::new() };
        proof {
            lemma_position(before.labels, label@);
            assert(Seq::new(0, |i: int| registry.labels@[i]@) =~= Seq::<Seq<char>>::empty());
        }
        std::mem::swap(&mut registry, &mut self.registry);
        match place {
            Some(i) => {
                registry.sprites[i] = sprite;
            },
            None => {
                registry.labels.push(key);
                registry.sprites.push(sprite);
            },
        }
        proof {
            let labels = Seq::new(registry.labels@.len(), |i: int| registry.labels@[i]@);
            if place is None {
                assert(labels =~= before.labels.push(label@));
                assert(views(&registry.sprites) =~= before.sprites.push(sprite@));
            } else {
                assert(labels =~= before.labels);
                assert(views(&registry.sprites) =~= before.sprites.update(place.unwrap() as int, sprite@));
            }
        }
        self.registry = registry;
    }

    /// Takes the sprite under `label` away, if there is one.
    pub fn remove_sprite(&mut self, label: &str)
        ensures
            final(self)@ == old(self)@.without_sprite(label@),
            final(self)@.wf(),
    {
        let key = label.to_owned();
        match self.find(&key) {
            Some(i) => {
                let ghost before = self@;
                let mut registry = Registry { labels: Vec::new(), sprites: Vec::new() };
                proof {
                    assert(Seq::new(0, |i: int| registry.labels@[i]@) =~= Seq::<Seq<char>>::empty());
                }
                std::mem::swap(&mut registry, &mut self.registry);
                registry.labels.remove(i);
                registry.sprites.remove(i);
                proof {
                    let labels = Seq::new(registry.labels@.len(), |i: int| registry.labels@[i]@);
                    assert(labels =~= before.labels.remove(i as int));
                    assert(views(&registry.sprites) =~= before.sprites.remove(i as int));
                }
                self.registry = registry;
            },
            None => {},
        }
    }

    /// The sprite under `label`, if there is one.
    pub fn get_sprite(&self, label: &str) -> (found: Option<&Sprite>)
        ensures
            self@.wf(),
            match found {
                Some(sprite) => self@.sprite(label@) == Some(sprite@),
                None => self@.sprite(label@) is None,
            },
    {
        let key = label.to_owned();
        match self.find(&key) {
            Some(i) => Some(&self.registry.sprites[i]),
            None => None,
        }
    }

    /// The keys of the running tick, in the order in which they were pressed.
    pub fn get_pressed_keys(&self) -> (keys: Vec<Key>)
        ensures
            keys@ == self@.keys,
    {
        let mut keys: Vec<Key> = Vec::with_capacity(self.pressed_keys.len());
        let mut i: usize = 0;
        while i < self.pressed_keys.len()
            invariant
                i <= self.pressed_keys@.len(),
                keys@ == self.pressed_keys@.take(i as int),
            decreases self.pressed_keys.len() - i,
        {
            keys.push(self.pressed_keys[i]);
            assert(keys@ =~= self.pressed_keys@.take(i as int + 1));
            i += 1;
        }
        assert(self.pressed_keys@.take(self.pressed_keys@.len() as int) =~= self.pressed_keys@);
        keys
    }

    /// Asks the engine to stop: the running tick is its last.
    pub fn stop(&mut self)
        ensures
            final(self)@ == (SceneView { stop: true, ..old(self)@ }),
    {
        proof {
            use_type_invariant(&*self);
        }
        self.stop = true;
    }

    /// Whether a stop was asked for.
    pub fn is_stopped(&self) -> (stopped: bool)
        ensures
            stopped == self@.stop,
    {
        self.stop
    }

    /// The milliseconds that the tick before the running one took.
    pub fn delta(&self) -> (millis: u128)
        ensures
            millis == self@.delta,
    {
        self.delta
    }

    /// The target number of ticks per second.
    pub fn fps(&self) -> (fps: u64)
        ensures
            fps == self@.fps,
    {
        self.fps
    }

    /// The width of the window, in cells.
    pub fn width(&self) -> (width: usize)
        ensures
            width == self@.width,
    {
        self.window.width
    }

    /// The height of the window, in cells.
    pub fn height(&self) -> (height: usize)
        ensures
            height == self@.height,
    {
        self.window.height
    }

    /// Sets the target number of ticks per second.
    pub fn set_fps(&mut self, fps: u64)
        ensures
            final(self)@ == (SceneView { fps, ..old(self)@ }),
    {
        proof {
            use_type_invariant(&*self);
        }
        self.fps = fps;
    }

    /// Clears a request to stop.
    pub fn resume(&mut self)
        ensures
            final(self)@ == (SceneView { stop: false, ..old(self)@ }),
    {
        proof {
            use_type_invariant(&*self);
        }
        self.stop = false;
    }

    /// Opens a tick: notes how long the last one took and which keys came since.
    pub fn begin_tick(&mut self, delta: u128, keys: Vec<Key>)
        ensures
            final(self)@ == (SceneView { delta, keys: keys@, ..old(self)@ }),
    {
        proof {
            use_type_invariant(&*self);
        }
        self.delta = delta;
        self.pressed_keys = keys;
    }

    /// Whether every sprite lies inside the window.
    pub fn fits(&self) -> (fits: bool)
        ensures
            fits == self@.fits(),
    {
        all_fit_in(&self.registry.sprites, self.window.width, self.window.height)
    }

    /// The picture of the scene: a fresh frame with every sprite painted into it, by
    /// ascending layer, sprites of one layer in the order in which their labels came.
    pub fn compose(&self) -> (frame: Frame)
        requires
            self@.fits(),
        ensures
            grid(&frame) == self@.picture(),
            is_grid(grid(&frame), self@.width, self@.height),
    {
        compose(&self.registry.sprites, self.window.width, self.window.height)
    }
}

} // verus!
