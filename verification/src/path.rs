//! The working-directory layout: where the media copy, the control
//! sockets and the player log live under the user's home.

use vstd::prelude::*;
use vstd::string::*;

verus! {

/// The fixed file layout under one configuration directory. The
/// caller supplies the home directory and creates the directories;
/// everything here is pure path text.
pub struct PathConfig {
    config_dir: String,
    media_file: String,
    socket_dir: String,
}

impl PathConfig {
    /// The configuration directory's path text.
    pub closed spec fn config_dir_text(&self) -> Seq<char> {
        self.config_dir@
    }

    /// The media copy's path text.
    pub closed spec fn media_file_text(&self) -> Seq<char> {
        self.media_file@
    }

    /// The socket directory's path text.
    pub closed spec fn socket_dir_text(&self) -> Seq<char> {
        self.socket_dir@
    }

    /// The layout under a home directory: one `.config/watchr`
    /// directory holding the media copy, the control sockets and the
    /// player log.
    pub fn new(home: &str) -> (p: PathConfig)
        ensures
            p.config_dir_text() == home@ + "/.config/watchr"@,
            p.socket_dir_text() == p.config_dir_text(),
            p.media_file_text() == p.config_dir_text() + "/media.mkv"@,
    {
        let mut config_dir = home.to_owned();
        config_dir.append("/.config/watchr");
        let mut media_file = config_dir.clone();
        media_file.append("/media.mkv");
        let socket_dir = config_dir.clone();
        PathConfig { config_dir, media_file, socket_dir }
    }

    /// The configuration directory, which the caller must create.
    pub fn config_dir(&self) -> (r: String)
        ensures
            r@ == self.config_dir_text(),
    {
        self.config_dir.clone()
    }

    /// The path of one control socket, one per player role.
    pub fn socket_path(&self, suffix: &str) -> (r: String)
        ensures
            r@ == self.socket_dir_text() + "/sock."@ + suffix@,
    {
        let mut r = self.socket_dir.clone();
        r.append("/sock.");
        r.append(suffix);
        r
    }

    /// The path of the peer's local copy of the media asset.
    pub fn media_file(&self) -> (r: String)
        ensures
            r@ == self.media_file_text(),
    {
        self.media_file.clone()
    }

    /// The path of the player's log file.
    pub fn log_path(&self) -> (r: String)
        ensures
            r@ == self.config_dir_text() + "/log.mpv"@,
    {
        let mut r = self.config_dir.clone();
        r.append("/log.mpv");
        r
    }
}

} // verus!
