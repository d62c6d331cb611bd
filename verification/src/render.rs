//! The boundary to the external render-resource manager, modeled as an
//! append-only call log. The core issues create/update/remove calls for
//! model instances and never reads anything back; the rendering shell
//! drains the log and performs the GPU work. A model's world placement is
//! handed over as the owning entity's `Transform`, which the shell
//! composes into a matrix (translation, then rotation, then scale).

use vstd::prelude::*;
use crate::components::Transform;

verus! {

/// One call issued to the render-resource manager.
#[derive(Clone, Copy, Debug, PartialEq, Eq, Structural)]
pub enum RenderCall {
    /// Create a model instance of mesh `mesh_id`; `handle` names it from now on.
    Create { mesh_id: u64, handle: u64, world: Transform },
    /// Move the instance `handle` of mesh `mesh_id` to a new placement.
    Update { mesh_id: u64, handle: u64, world: Transform },
    /// Release the instance `handle` of mesh `mesh_id`.
    Remove { mesh_id: u64, handle: u64 },
}

/// The render-resource manager as the core sees it: the ordered log of
/// calls issued so far. Handles are allocated as the log position of the
/// creating call.
pub struct MeshManager {
    pub calls: Vec<RenderCall>,
}

/// The handle a creation appended at log position `pos` receives.
pub open spec fn handle_at(pos: int) -> u64 {
    pos as u64
}

impl MeshManager {
    pub fn new() -> (r: MeshManager)
        ensures
            r.calls@.len() == 0,
    {
        MeshManager { calls: Vec::new() }
    }

    /// Request creation of a model instance; returns its fresh handle.
    pub fn new_model(&mut self, mesh_id: u64, world: Transform) -> (handle: u64)
        ensures
            handle == handle_at(old(self).calls@.len() as int),
            final(self).calls@ == old(self).calls@.push(
                RenderCall::Create { mesh_id, handle, world },
            ),
    {
        let handle = self.calls.len() as u64;
        self.calls.push(RenderCall::Create { mesh_id, handle, world });
        handle
    }

    /// Request a new placement for an existing model instance.
    pub fn update_model(&mut self, mesh_id: u64, handle: u64, world: Transform)
        ensures
            final(self).calls@ == old(self).calls@.push(
                RenderCall::Update { mesh_id, handle, world },
            ),
    {
        self.calls.push(RenderCall::Update { mesh_id, handle, world });
    }

    /// Request release of a model instance.
    pub fn remove_model(&mut self, mesh_id: u64, handle: u64)
        ensures
            final(self).calls@ == old(self).calls@.push(RenderCall::Remove { mesh_id, handle }),
    {
        self.calls.push(RenderCall::Remove { mesh_id, handle });
    }
}

/// Mesh identifiers of the meshes the simulation spawns on its own
/// (asteroids per carried item, and the mining missile), as the asset
/// shell registered them.
#[derive(Clone, Copy, Debug, PartialEq, Eq, Structural)]
pub struct ObjectMeshes {
    pub asteroid_iron: u64,
    pub asteroid_copper: u64,
    pub missile: u64,
}

} // verus!
