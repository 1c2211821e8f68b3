//! What sway reports of its workspaces and outputs.

use vstd::prelude::*;

verus! {

#[derive(Debug, PartialEq, Eq)]
pub struct WorkspaceInfo {
    /// -1 for a workspace without a number.
    pub num: i32,
    pub name: String,
    pub output: String,
    pub focused: bool,
    pub urgent: bool,
    pub visible: bool,
}

impl Clone for WorkspaceInfo {
    fn clone(&self) -> (r: Self)
        ensures
            r == *self,
    {
        WorkspaceInfo {
            num: self.num,
            name: self.name.clone(),
            output: self.output.clone(),
            focused: self.focused,
            urgent: self.urgent,
            visible: self.visible,
        }
    }
}

#[derive(Debug, PartialEq, Eq)]
pub struct OutputInfo {
    pub name: String,
    /// Where its top left corner lies in the layout.
    pub x: i32,
    pub y: i32,
}

impl Clone for OutputInfo {
    fn clone(&self) -> (r: Self)
        ensures
            r == *self,
    {
        OutputInfo { name: self.name.clone(), x: self.x, y: self.y }
    }
}

} // verus!
