//! A minimal retained-mode widget tree: nodes with geometry and a
//! little per-widget state. The UI consumes the same input-action
//! abstraction as the simulation and feeds nothing back into it.

use vstd::prelude::*;

verus! {

/// Identifier of a node in the widget tree.
pub type NodeId = usize;

/// Position and size of a widget, in pixels.
#[derive(Clone, Copy, Debug, PartialEq, Eq, Structural)]
pub struct NodeGeometry {
    pub x: i64,
    pub y: i64,
    pub width: i64,
    pub height: i64,
}

/// A button's retained state.
#[derive(Clone, Copy, Debug, PartialEq, Eq, Structural)]
pub struct ButtonState {
    pub pressed: bool,
}

/// One widget node: its parent, its geometry, and its state.
#[derive(Clone, Copy, Debug, PartialEq, Eq, Structural)]
pub struct Node {
    pub parent: Option<NodeId>,
    pub geometry: NodeGeometry,
    pub button: ButtonState,
}

/// The widget tree.
pub struct Ui {
    pub nodes: Vec<Node>,
}

impl Ui {
    pub fn new() -> (r: Ui)
        ensures
            r.nodes@.len() == 0,
    {
        Ui { nodes: Vec::new() }
    }

    /// Append a node and hand back its identifier.
    pub fn new_node(&mut self, parent: Option<NodeId>, geometry: NodeGeometry, button: ButtonState) -> (r:
        NodeId)
        ensures
            r == old(self).nodes@.len(),
            final(self).nodes@ == old(self).nodes@.push(Node { parent, geometry, button }),
    {
        let id = self.nodes.len();
        self.nodes.push(Node { parent, geometry, button });
        id
    }

    /// A click on a button presses it while the pointer is down and
    /// releases it otherwise; the button takes mouse focus exactly while
    /// pressed.
    pub fn on_click(&mut self, node: NodeId, pressed: bool) -> (focus: bool)
        requires
            node < old(self).nodes@.len(),
        ensures
            focus == pressed,
            final(self).nodes@ == old(self).nodes@.update(
                node as int,
                Node { button: ButtonState { pressed }, ..old(self).nodes@[node as int] },
            ),
    {
        let n = self.nodes[node];
        self.nodes[node] = Node { button: ButtonState { pressed }, ..n };
        pressed
    }

    /// Losing mouse focus releases the button.
    pub fn on_mouse_focus_lost(&mut self, node: NodeId)
        requires
            node < old(self).nodes@.len(),
        ensures
            final(self).nodes@ == old(self).nodes@.update(
                node as int,
                Node {
                    button: ButtonState { pressed: false },
                    ..old(self).nodes@[node as int]
                },
            ),
    {
        let n = self.nodes[node];
        self.nodes[node] = Node { button: ButtonState { pressed: false }, ..n };
    }
}

/// Create a button widget: default geometry, released state.
pub fn create_button(ui: &mut Ui, parent: Option<NodeId>) -> (r: NodeId)
    ensures
        r == old(ui).nodes@.len(),
        final(ui).nodes@ == old(ui).nodes@.push(
            Node {
                parent,
                geometry: NodeGeometry { x: 0, y: 0, width: 200, height: 80 },
                button: ButtonState { pressed: false },
            },
        ),
{
    ui.new_node(
        parent,
        NodeGeometry { x: 0, y: 0, width: 200, height: 80 },
        ButtonState { pressed: false },
    )
}

} // verus!
