//! The set of workspaces an application switches between, one of them
//! active. What a workspace holds (panels placed in floating point) is the
//! caller's type `W`.

use vstd::prelude::*;

verus! {

/// Manages multiple workspaces; there is always at least one, and the
/// active one is among them.
pub struct WorkspaceManager<W> {
    workspaces: Vec<W>,
    active_index: usize,
}

impl<W> WorkspaceManager<W> {
    /// There is a workspace, and the active one is among them.
    pub closed spec fn wf(&self) -> bool {
        self.active_index < self.workspaces@.len()
    }

    /// The workspaces, in the order they were added.
    pub closed spec fn workspaces_view(&self) -> Seq<W> {
        self.workspaces@
    }

    /// The position of the active workspace.
    pub closed spec fn active_position(&self) -> int {
        self.active_index as int
    }

    /// A manager holding the first workspace, which is active.
    pub fn new(first: W) -> (r: Self)
        ensures
            r.wf(),
            r.workspaces_view() == seq![first],
            r.active_position() == 0,
    {
        let mut workspaces = Vec::new();
        workspaces.push(first);
        WorkspaceManager { workspaces, active_index: 0 }
    }

    /// Get active workspace
    pub fn active(&self) -> (r: &W)
        requires
            self.wf(),
        ensures
            0 <= self.active_position() < self.workspaces_view().len(),
            *r == self.workspaces_view()[self.active_position()],
    {
        &self.workspaces[self.active_index]
    }

    /// Get active workspace (mutable)
    pub fn active_mut(&mut self) -> (r: &mut W)
        requires
            old(self).wf(),
        ensures
            *r == old(self).workspaces_view()[old(self).active_position()],
            final(self).workspaces_view() == old(self).workspaces_view().update(
                old(self).active_position(),
                *final(r),
            ),
            final(self).active_position() == old(self).active_position(),
            final(self).wf(),
    {
        &mut self.workspaces[self.active_index]
    }

    /// Add a new workspace (the active one stays active).
    pub fn add_workspace(&mut self, workspace: W)
        ensures
            old(self).wf() ==> final(self).wf(),
            final(self).workspaces_view() == old(self).workspaces_view().push(workspace),
            final(self).active_position() == old(self).active_position(),
    {
        self.workspaces.push(workspace);
    }

    /// Switch to workspace by index; an index past the last workspace
    /// changes nothing.
    pub fn switch_to(&mut self, index: usize)
        ensures
            old(self).wf() ==> final(self).wf(),
            final(self).workspaces_view() == old(self).workspaces_view(),
            final(self).active_position() == if index < old(self).workspaces_view().len() {
                index as int
            } else {
                old(self).active_position()
            },
    {
        if index < self.workspaces.len() {
            self.active_index = index;
        }
    }

    /// Get all workspaces
    pub fn all(&self) -> (r: &[W])
        ensures
            r@ == self.workspaces_view(),
    {
        self.workspaces.as_slice()
    }
}

} // verus!
