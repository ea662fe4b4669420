//! The path registry: holds the currently selected input video path,
//! subtitle path and output path. An empty string means nothing is selected
//! yet; no validation happens here beyond that, existence checks being the
//! operating system's business at use time.

use vstd::prelude::*;
use vstd::string::*;

verus! {

/// The three user-chosen filesystem paths. Values are handed out by clone,
/// so a render job owns its copies independently of later selections.
pub struct PathRegistry {
    video: String,
    subtitle: String,
    output: String,
}

impl PathRegistry {
    pub closed spec fn spec_video(&self) -> Seq<char> {
        self.video@
    }

    pub closed spec fn spec_subtitle(&self) -> Seq<char> {
        self.subtitle@
    }

    pub closed spec fn spec_output(&self) -> Seq<char> {
        self.output@
    }

    /// A fresh registry with nothing selected.
    pub fn new() -> (r: PathRegistry)
        ensures
            r.spec_video() == Seq::<char>::empty(),
            r.spec_subtitle() == Seq::<char>::empty(),
            r.spec_output() == Seq::<char>::empty(),
    {
        PathRegistry {
            video: String::new(),
            subtitle: String::new(),
            output: String::new(),
        }
    }

    pub fn set_video(&mut self, path: &str)
        ensures
            final(self).spec_video() == path@,
            final(self).spec_subtitle() == old(self).spec_subtitle(),
            final(self).spec_output() == old(self).spec_output(),
    {
        self.video = String::from_str(path);
    }

    pub fn set_subtitle(&mut self, path: &str)
        ensures
            final(self).spec_subtitle() == path@,
            final(self).spec_video() == old(self).spec_video(),
            final(self).spec_output() == old(self).spec_output(),
    {
        self.subtitle = String::from_str(path);
    }

    pub fn set_output(&mut self, path: &str)
        ensures
            final(self).spec_output() == path@,
            final(self).spec_video() == old(self).spec_video(),
            final(self).spec_subtitle() == old(self).spec_subtitle(),
    {
        self.output = String::from_str(path);
    }

    pub fn video(&self) -> (r: String)
        ensures
            r@ == self.spec_video(),
    {
        self.video.clone()
    }

    pub fn subtitle(&self) -> (r: String)
        ensures
            r@ == self.spec_subtitle(),
    {
        self.subtitle.clone()
    }

    pub fn output(&self) -> (r: String)
        ensures
            r@ == self.spec_output(),
    {
        self.output.clone()
    }

    /// Whether a render can be triggered: both inputs have been chosen.
    pub fn inputs_selected(&self) -> (r: bool)
        ensures
            r == (self.spec_video().len() > 0 && self.spec_subtitle().len() > 0),
    {
        self.video.as_str().unicode_len() > 0 && self.subtitle.as_str().unicode_len() > 0
    }
}

} // verus!
