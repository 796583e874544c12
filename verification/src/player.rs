//! The description of a media file that a playback sink is to play.

use vstd::prelude::*;

verus! {

/// A media file to play, named by its path.
pub struct MediaFilePlayer {
    file_path: String,
}

impl MediaFilePlayer {
    /// The path of the file, as text.
    pub closed spec fn path(&self) -> Seq<char> {
        self.file_path@
    }

    pub fn new(file_path: String) -> (player: MediaFilePlayer)
        ensures
            player.path() == file_path@,
    {
        MediaFilePlayer { file_path }
    }

    /// The path that a playback sink opens.
    pub fn file_path(&self) -> (path: &String)
        ensures
            path@ == self.path(),
    {
        &self.file_path
    }
}

} // verus!
