//! Templates as a whole: their elements and the shortcuts that run actions.
use vstd::prelude::*;
use std::collections::HashSet;

use super::Element;

verus! {

#[verifier::external_type_specification]
#[verifier::external_body]
pub struct ExKey(egui::Key);

#[verifier::external_type_specification]
#[verifier::external_body]
pub struct ExModifiers(egui::Modifiers);

/// A template: its elements and its shortcuts.
pub struct Template {
    pub id: String,
    pub version: String,
    pub element: Vec<ElemSpace>,
    pub shortcut: Vec<ShortCutMNG>,
}

/// An element of a template, with its tags and id.
pub struct ElemSpace {
    pub elem: Element,
    pub tags: HashSet<String>,
    pub id: u64,
}

/// A shortcut together with the actions it runs.
pub struct ShortCutMNG {
    pub short: ShortCut,
    pub action: ActionMNG,
    pub modifier: egui::Modifiers,
}

/// A list of actions to run.
pub struct ActionMNG {
    pub action: Vec<Action>,
}

/// What a shortcut can do. No action is defined yet, so no value of this
/// type exists.
pub type Action = core::convert::Infallible;

/// What sets a shortcut off: a key, or the start of the template.
pub enum ShortCut {
    KeyPressed(egui::Key),
    OnceStart,
}

impl ActionMNG {
    /// No actions.
    pub fn new() -> (r: Self)
        ensures
            r.action@ == Seq::<Action>::empty(),
    {
        ActionMNG { action: Vec::new() }
    }

    /// Moves all actions of `rhs` to the end of this list.
    pub fn merge(&mut self, rhs: &mut Self)
        ensures
            final(self).action@ == old(self).action@ + old(rhs).action@,
            final(rhs).action@ == Seq::<Action>::empty(),
    {
        self.action.append(&mut rhs.action)
    }

    /// Runs the actions; as no action is defined, there is nothing to do.
    pub fn run(&mut self)
        ensures
            final(self).action@ == old(self).action@,
    {
    }
}

impl ShortCut {
    /// Whether the shortcut goes off when the template starts.
    pub open spec fn is_start(self) -> bool {
        self is OnceStart
    }
}

impl Template {
    /// Starts the template: the actions of every shortcut that goes off at
    /// the start are gathered, in order, and run; those shortcuts are left
    /// with no actions.
    pub fn init(&mut self)
        ensures
            final(self).id == old(self).id,
            final(self).version == old(self).version,
            final(self).element == old(self).element,
            final(self).shortcut@.len() == old(self).shortcut@.len(),
            forall|i: int|
                0 <= i < old(self).shortcut@.len() ==> {
                    &&& #[trigger] final(self).shortcut@[i].short == old(self).shortcut@[i].short
                    &&& final(self).shortcut@[i].modifier == old(self).shortcut@[i].modifier
                    &&& final(self).shortcut@[i].action.action@ == if old(self).shortcut@[i].short.is_start() {
                        Seq::<Action>::empty()
                    } else {
                        old(self).shortcut@[i].action.action@
                    }
                },
    {
        let mut action = ActionMNG::new();
        let mut i: usize = 0;
        while i < self.shortcut.len()
            invariant
                i <= self.shortcut@.len(),
                self.id == old(self).id,
                self.version == old(self).version,
                self.element == old(self).element,
                self.shortcut@.len() == old(self).shortcut@.len(),
                forall|j: int|
                    0 <= j < old(self).shortcut@.len() ==> {
                        &&& #[trigger] self.shortcut@[j].short == old(self).shortcut@[j].short
                        &&& self.shortcut@[j].modifier == old(self).shortcut@[j].modifier
                        &&& self.shortcut@[j].action.action@ == if j < i && old(self).shortcut@[j].short.is_start() {
                            Seq::<Action>::empty()
                        } else {
                            old(self).shortcut@[j].action.action@
                        }
                    },
            decreases self.shortcut@.len() - i,
        {
            let start = match self.shortcut[i].short {
                ShortCut::OnceStart => true,
                _ => false,
            };
            if start {
                action.merge(&mut self.shortcut[i].action);
            }
            i = i + 1;
        }
        action.run();
    }
}

} // verus!
