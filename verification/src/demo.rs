//! A small component family: enough to drive every lifecycle path of the
//! storage. A position advances once per update tick; a marker advances its
//! stage once at setup. Neither hook reads its siblings.

use vstd::prelude::*;

use crate::component::Component;
use crate::storage::ComponentStorage;
use crate::storage::StorageView;

verus! {

/// The type-identity token of [`DemoComponent::Position`].
pub const POSITION_TOKEN: u64 = 0;

/// The type-identity token of [`DemoComponent::Marker`].
pub const MARKER_TOKEN: u64 = 1;

/// The tagged union of the demo component types. Each variant is one logical
/// component type, told apart by its token.
#[derive(Clone, Copy, PartialEq, Eq, Structural, Debug)]
pub enum DemoComponent {
    /// A one-axis position; its `update` advances `x` by one, saturating.
    Position { x: u32 },
    /// A marker; its `setup` advances `stage` by one, saturating.
    Marker { stage: u32 },
}

impl Component for DemoComponent {
    open spec fn token(&self) -> u64 {
        match *self {
            DemoComponent::Position { .. } => POSITION_TOKEN,
            DemoComponent::Marker { .. } => MARKER_TOKEN,
        }
    }

    open spec fn setup_spec(self, w: StorageView<Self>) -> Self {
        match self {
            DemoComponent::Position { x } => DemoComponent::Position { x },
            DemoComponent::Marker { stage } => DemoComponent::Marker {
                stage: if stage < u32::MAX {
                    (stage + 1) as u32
                } else {
                    stage
                },
            },
        }
    }

    open spec fn update_spec(self, w: StorageView<Self>) -> Self {
        match self {
            DemoComponent::Position { x } => DemoComponent::Position {
                x: if x < u32::MAX {
                    (x + 1) as u32
                } else {
                    x
                },
            },
            DemoComponent::Marker { stage } => DemoComponent::Marker { stage },
        }
    }

    fn type_token(&self) -> (t: u64) {
        match *self {
            DemoComponent::Position { .. } => POSITION_TOKEN,
            DemoComponent::Marker { .. } => MARKER_TOKEN,
        }
    }

    fn dup(&self) -> (r: Self) {
        *self
    }

    fn setup(&mut self, _world: &ComponentStorage<Self>) {
        match self {
            DemoComponent::Position { x: _ } => {},
            DemoComponent::Marker { stage } => {
                if *stage < u32::MAX {
                    *stage = *stage + 1;
                }
            },
        }
    }

    fn update(&mut self, _world: &ComponentStorage<Self>) {
        match self {
            DemoComponent::Position { x } => {
                if *x < u32::MAX {
                    *x = *x + 1;
                }
            },
            DemoComponent::Marker { stage: _ } => {},
        }
    }
}

} // verus!
