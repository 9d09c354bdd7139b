//! Desktop wallpaper switching. Setting a wallpaper is a best-effort call
//! of an external tool whose failure is only ever logged; what stands here
//! is the exact invocation owed for each enforcement condition, which the
//! surrounding program executes.

use vstd::prelude::*;
use vstd::string::*;

verus! {

/// Builds the wallpaper-tool invocations.
pub struct BackgroundManager;

impl BackgroundManager {
    /// The wallpaper-tool command line for `image_path`: program first,
    /// then its arguments.
    pub fn set_background(image_path: &str) -> (cmd: Vec<String>)
        ensures
            cmd.deep_view() == seq!["feh"@, "--bg-scale"@, image_path@],
    {
        let mut cmd: Vec<String> = Vec::new();
        cmd.push(String::from_str("feh"));
        cmd.push(String::from_str("--bg-scale"));
        cmd.push(image_path.to_owned());
        proof {
            assert(cmd.deep_view() =~~= seq!["feh"@, "--bg-scale"@, image_path@]);
        }
        cmd
    }

    /// The command line showing the wallpaper for ordinary operation.
    pub fn set_normal_background(image_path: &str) -> (cmd: Vec<String>)
        ensures
            cmd.deep_view() == seq!["feh"@, "--bg-scale"@, image_path@],
    {
        Self::set_background(image_path)
    }

    /// The command line showing the wallpaper for a content block.
    pub fn set_blocked_background(image_path: &str) -> (cmd: Vec<String>)
        ensures
            cmd.deep_view() == seq!["feh"@, "--bg-scale"@, image_path@],
    {
        Self::set_background(image_path)
    }

    /// The command line showing the wallpaper for a bathroom break.
    pub fn set_bathroom_break_background(image_path: &str) -> (cmd: Vec<String>)
        ensures
            cmd.deep_view() == seq!["feh"@, "--bg-scale"@, image_path@],
    {
        Self::set_background(image_path)
    }
}

} // verus!
