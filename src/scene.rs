use vstd::prelude::*;

verus! {

/// The scenes of the viewer.
#[derive(Clone, Copy, Debug, PartialEq, Eq, Structural)]
pub enum SceneName {
    TitleScene,
    SkillsScene,
    TileScene,
    StaticsScene,
    HuesScene,
    MapScene,
    GumpScene,
    AnimScene,
    TexMapsScene,
    WorldScene,
    FontScene,
}

/// A change of the scene stack asked for by the scene on top of it.
#[derive(Clone, Copy, Debug, PartialEq, Eq)]
pub enum SceneChangeEvent<T> {
    PushScene(T),
    SwapScene(T),
    PopScene,
}

/// A key pressed on the title menu.
#[derive(Clone, Copy, Debug, PartialEq, Eq, Structural)]
pub enum MenuKey {
    Escape,
    Digit(u8),
    Other,
}

/// The scene that title-menu entry `digit` opens: entries one to nine in menu order,
/// zero for fonts.
pub open spec fn menu_scene(digit: u8) -> Option<SceneName> {
    if digit == 1 {
        Some(SceneName::SkillsScene)
    } else if digit == 2 {
        Some(SceneName::TileScene)
    } else if digit == 3 {
        Some(SceneName::StaticsScene)
    } else if digit == 4 {
        Some(SceneName::HuesScene)
    } else if digit == 5 {
        Some(SceneName::MapScene)
    } else if digit == 6 {
        Some(SceneName::GumpScene)
    } else if digit == 7 {
        Some(SceneName::AnimScene)
    } else if digit == 8 {
        Some(SceneName::TexMapsScene)
    } else if digit == 9 {
        Some(SceneName::WorldScene)
    } else if digit == 0 {
        Some(SceneName::FontScene)
    } else {
        None
    }
}

/// What a key on the title menu asks for: escape leaves, a digit opens its scene on top.
pub fn title_event(key: MenuKey) -> (r: Option<SceneChangeEvent<SceneName>>)
    ensures
        r == match key {
            MenuKey::Escape => Some(SceneChangeEvent::PopScene),
            MenuKey::Digit(d) => match menu_scene(d) {
                Some(n) => Some(SceneChangeEvent::PushScene(n)),
                None => None,
            },
            MenuKey::Other => None,
        },
{
    match key {
        MenuKey::Escape => Some(SceneChangeEvent::PopScene),
        MenuKey::Digit(d) => {
            let name = if d == 1 {
                SceneName::SkillsScene
            } else if d == 2 {
                SceneName::TileScene
            } else if d == 3 {
                SceneName::StaticsScene
            } else if d == 4 {
                SceneName::HuesScene
            } else if d == 5 {
                SceneName::MapScene
            } else if d == 6 {
                SceneName::GumpScene
            } else if d == 7 {
                SceneName::AnimScene
            } else if d == 8 {
                SceneName::TexMapsScene
            } else if d == 9 {
                SceneName::WorldScene
            } else if d == 0 {
                SceneName::FontScene
            } else {
                return None;
            };
            Some(SceneChangeEvent::PushScene(name))
        },
        MenuKey::Other => None,
    }
}

/// A stack of scenes; the one on top is shown and gets the input.
pub struct SceneStack<T> {
    scenes: Vec<T>,
}

impl<T> View for SceneStack<T> {
    type V = Seq<T>;

    closed spec fn view(&self) -> Seq<T> {
        self.scenes@
    }
}

impl<T> SceneStack<T> {
    pub fn new() -> (r: SceneStack<T>)
        ensures
            r@ == Seq::<T>::empty(),
    {
        SceneStack { scenes: Vec::new() }
    }

    pub fn is_empty(&self) -> (r: bool)
        ensures
            r == (self@.len() == 0),
    {
        self.scenes.len() == 0
    }

    pub fn push(&mut self, scene: T)
        ensures
            final(self)@ == old(self)@.push(scene),
    {
        self.scenes.push(scene);
    }

    /// Replaces the scene on top, or pushes onto an empty stack; gives back the scene replaced.
    pub fn swap(&mut self, scene: T) -> (r: Option<T>)
        ensures
            old(self)@.len() == 0 ==> r is None && final(self)@ == seq![scene],
            old(self)@.len() > 0 ==> r == Some(old(self)@.last()) && final(self)@
                == old(self)@.drop_last().push(scene),
    {
        let old_scene = self.scenes.pop();
        self.scenes.push(scene);
        old_scene
    }

    /// Removes the scene on top.
    pub fn pop(&mut self) -> (r: Option<T>)
        ensures
            old(self)@.len() == 0 ==> r is None && final(self)@ == old(self)@,
            old(self)@.len() > 0 ==> r == Some(old(self)@.last()) && final(self)@ == old(
                self,
            )@.drop_last(),
    {
        self.scenes.pop()
    }

    /// Carries out a change asked for by the scene on top; gives back the scene removed.
    pub fn apply(&mut self, event: SceneChangeEvent<T>) -> (r: Option<T>)
        ensures
            match event {
                SceneChangeEvent::PushScene(s) => r is None && final(self)@ == old(self)@.push(s),
                SceneChangeEvent::SwapScene(s) => if old(self)@.len() == 0 {
                    r is None && final(self)@ == seq![s]
                } else {
                    r == Some(old(self)@.last()) && final(self)@ == old(self)@.drop_last().push(s)
                },
                SceneChangeEvent::PopScene => if old(self)@.len() == 0 {
                    r is None && final(self)@ == old(self)@
                } else {
                    r == Some(old(self)@.last()) && final(self)@ == old(self)@.drop_last()
                },
            },
    {
        match event {
            SceneChangeEvent::PushScene(s) => {
                self.push(s);
                None
            },
            SceneChangeEvent::SwapScene(s) => self.swap(s),
            SceneChangeEvent::PopScene => self.pop(),
        }
    }
}

} // verus!
