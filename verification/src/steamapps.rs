//! A library root and its path conventions.
//!
//! A [`SteamApps`] value is nothing but an owned root path; everything else
//! — the metadata file of an identifier, the `common/` payload directory —
//! is derived from it by pure path computation with `/` as the separator.
//! Nothing here probes the filesystem: the operations that depend on what
//! is actually on disk take the caller's probe result as an argument and
//! decide from it.

use vstd::prelude::*;

use crate::errors::SteamError;

verus! {

/// `base` and `name` joined with one path separator between them.
pub open spec fn path_join(base: Seq<char>, name: Seq<char>) -> Seq<char> {
    base + seq!['/'] + name
}

/// The payload directory of a root: `root/common`.
pub open spec fn common_path_spec(root: Seq<char>) -> Seq<char> {
    path_join(root, "common"@)
}

/// The metadata file of an identifier under a root:
/// `root/appmanifest_<appid>.acf`.
pub open spec fn manifest_path_spec(root: Seq<char>, appid: Seq<char>) -> Seq<char> {
    path_join(root, "appmanifest_"@ + appid + ".acf"@)
}

/// Join two path fragments with one separator.
pub fn join_path(base: &str, name: &str) -> (r: String)
    ensures
        r@ == path_join(base@, name@),
{
    proof {
        reveal_strlit("/");
        assert("/"@ =~= seq!['/']);
    }
    let mut s = String::from_str(base);
    s.append("/");
    s.append(name);
    s
}

/// The OS families with a conventional default library root.
#[derive(Clone, Copy, Debug, PartialEq, Eq, Structural)]
pub enum OsFamily {
    Windows,
    MacOs,
    Linux,
}

/// The platform-conventional library root of an OS family.
pub open spec fn default_location(os: OsFamily) -> Seq<char> {
    match os {
        OsFamily::Windows => "C:\\Program Files (x86)\\Steam\\steamapps"@,
        OsFamily::MacOs => "~/Library/Application Support/Steam"@,
        OsFamily::Linux => "~/.steam/steam/steamapps"@,
    }
}

/// A library root: a directory that holds `appmanifest_<id>.acf` metadata
/// files and a `common/` payload subdirectory. Pure value semantics — two
/// roots with the same location are interchangeable.
pub struct SteamApps {
    pub location: String,
}

impl Clone for SteamApps {
    fn clone(&self) -> (r: Self)
        ensures
            r == *self,
    {
        SteamApps { location: self.location.clone() }
    }
}

impl SteamApps {
    /// The conventional root of the given OS family. An unrecognized
    /// platform has no conventional root; the caller maps the running OS to
    /// a family first and treats failure to do so as a fatal configuration
    /// error.
    pub fn default(os: OsFamily) -> (r: SteamApps)
        ensures
            r.location@ == default_location(os),
    {
        match os {
            OsFamily::Windows => SteamApps {
                location: String::from_str("C:\\Program Files (x86)\\Steam\\steamapps"),
            },
            OsFamily::MacOs => SteamApps {
                location: String::from_str("~/Library/Application Support/Steam"),
            },
            OsFamily::Linux => SteamApps { location: String::from_str("~/.steam/steam/steamapps") },
        }
    }

    /// A root at the given location, taken verbatim — no existence check at
    /// construction time.
    pub fn path(location: String) -> (r: SteamApps)
        ensures
            r.location == location,
    {
        SteamApps { location }
    }

    /// A root from optional user input: the given path verbatim, or the
    /// platform default when none was given.
    pub fn from_console_input(input: Option<String>, os: OsFamily) -> (r: SteamApps)
        ensures
            match input {
                Some(p) => r.location == p,
                None => r.location@ == default_location(os),
            },
    {
        match input {
            Some(p) => SteamApps::path(p),
            None => SteamApps::default(os),
        }
    }

    /// The payload directory path, `root/common`; a pure path computation.
    pub fn common_path(&self) -> (r: String)
        ensures
            r@ == common_path_spec(self.location@),
    {
        join_path(self.location.as_str(), "common")
    }

    /// The payload directory, for use as a copy source: `Some` exactly when
    /// the caller's probe found `root/common` to be a directory. A source
    /// without it has nothing to copy from, so `None` is reported as a
    /// missing common folder by the engine.
    pub fn get_common(&self, common_is_dir: bool) -> (r: Option<String>)
        ensures
            match r {
                Some(p) => common_is_dir && p@ == common_path_spec(self.location@),
                None => !common_is_dir,
            },
    {
        if common_is_dir {
            Some(self.common_path())
        } else {
            None
        }
    }

    /// The payload directory, for use as a copy destination: the caller
    /// creates `root/common` when it is absent and reports whether it is
    /// now available; only a failed creation yields an error.
    pub fn get_or_create_common(&self, common_available: bool) -> (r: Result<String, SteamError>)
        ensures
            match r {
                Ok(p) => common_available && p@ == common_path_spec(self.location@),
                Err(e) => !common_available && e == SteamError::DirectoryCreateFailed,
            },
    {
        if common_available {
            Ok(self.common_path())
        } else {
            Err(SteamError::DirectoryCreateFailed)
        }
    }

    /// The manifest of an identifier, from the text the caller read at
    /// [`SteamApps::get_manifest_path`] for it; `None` stands for any kind
    /// of read failure — missing file, permissions, malformed encoding —
    /// and yields the one unreadable-manifest error.
    #[allow(unused_variables)]
    pub fn get_manifest(&self, appid: &str, contents: Option<String>) -> (r: Result<
        crate::manifest::AppManifest,
        SteamError,
    >)
        ensures
            match r {
                Ok(m) => contents matches Some(t) && m@ == t@,
                Err(e) => contents is None && e == SteamError::ManifestUnreadable,
            },
    {
        match contents {
            Some(t) => Ok(crate::manifest::AppManifest::new(t)),
            None => Err(SteamError::ManifestUnreadable),
        }
    }

    /// The metadata file path of an identifier,
    /// `root/appmanifest_<appid>.acf`; never probed here.
    pub fn get_manifest_path(&self, appid: &str) -> (r: String)
        ensures
            r@ == manifest_path_spec(self.location@, appid@),
    {
        let mut name = String::from_str("appmanifest_");
        name.append(appid);
        name.append(".acf");
        join_path(self.location.as_str(), name.as_str())
    }
}

} // verus!
