//! The paths the daemon and its clients agree on.

use crate::key::ConfigError;
use crate::watcher::WatchTarget;
use vstd::prelude::*;
use vstd::string::StrSliceExecFns;
use vstd::string::StringExecFns;

verus! {

/// The environment variable that names the per-user runtime directory.
pub const RUNTIME_DIR_VAR: &'static str = "XDG_RUNTIME_DIR";

/// The environment variable that names the session's display, and with it
/// the compositor's socket inside the runtime directory.
pub const DISPLAY_VAR: &'static str = "WAYLAND_DISPLAY";

/// The file name of the daemon's socket inside the runtime directory.
pub const SOCKET_NAME: &'static str = "clipto.sock";

/// The file name of the service credential inside the credentials directory.
pub const CREDENTIAL_NAME: &'static str = "clipto-key";

/// `name` resolved against the directory `dir`: an absolute `name` stands
/// for itself; otherwise it follows `dir`, after a `/` unless `dir` is empty
/// or already ends in one.
pub open spec fn join_spec(dir: Seq<char>, name: Seq<char>) -> Seq<char> {
    if name.len() > 0 && name[0] == '/' {
        name
    } else if dir.len() == 0 || dir.last() == '/' {
        dir + name
    } else {
        dir + seq!['/'] + name
    }
}

/// Resolves `name` against the directory `dir`.
pub fn join_path(dir: &str, name: &str) -> (r: String)
    ensures
        r@ == join_spec(dir@, name@),
{
    if name.unicode_len() > 0 && name.get_char(0) == '/' {
        return name.to_owned();
    }
    let dir_len = dir.unicode_len();
    let mut out = dir.to_owned();
    if dir_len > 0 && dir.get_char(dir_len - 1) != '/' {
        proof {
            reveal_strlit("/");
            assert("/"@ == seq!['/']);
        }
        out.append("/");
    }
    out.append(name);
    out
}

/// The path of the daemon's socket: `clipto.sock` in the runtime directory.
/// Without a runtime directory there is no socket path.
pub fn socket_path(runtime_dir: Option<&str>) -> (r: Result<String, ConfigError>)
    ensures
        match runtime_dir {
            Some(dir) => r matches Ok(path) && path@ == join_spec(dir@, SOCKET_NAME@),
            None => r == Err::<String, ConfigError>(ConfigError::NoRuntimeDir),
        },
{
    match runtime_dir {
        Some(dir) => Ok(join_path(dir, SOCKET_NAME)),
        None => Err(ConfigError::NoRuntimeDir),
    }
}

/// The path of the service credential in the credentials directory.
pub fn credential_path(credentials_dir: &str) -> (r: String)
    ensures
        r@ == join_spec(credentials_dir@, CREDENTIAL_NAME@),
{
    join_path(credentials_dir, CREDENTIAL_NAME)
}

/// The path of the compositor's socket that the watcher follows.
pub fn compositor_socket_path(target: &WatchTarget) -> (r: String)
    ensures
        r@ == join_spec(target.directory@, target.name@),
{
    join_path(target.directory.as_str(), target.name.as_str())
}

} // verus!
