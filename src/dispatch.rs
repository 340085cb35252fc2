//! The text protocol of the wallpaper daemon: the replies it prints, the
//! argument of a `reload` request, and the library's error type for a
//! failed request. Running the control program is left to the caller, which
//! hands the printed reply to the functions here.

use vstd::prelude::*;
use vstd::string::StringExecFns;

use crate::text::{
    eq_ignore_ascii_case, has_infix, has_prefix, str_eq_ignore_ascii_case, str_equal, starts_with,
    contains,
};

verus! {

pub const HYPRCTL_CMD: &'static str = "hyprctl";

pub const HYPRPAPER_CMD: &'static str = "hyprpaper";

pub const UNKNOWN_REQUEST_ERROR: &'static str = "unknown request\n";

pub const NO_SUCH_FILE_ERROR: &'static str = "no such file:";

pub const WALLPAPER_NOT_PRELOADED: &'static str = "wallpaper failed (not preloaded)\n";

pub const CONNECTION_FAILED: &'static str = "Couldn't connect to";

pub const OK_REPLY: &'static str = "ok\n";

/// The screen name that stands for every active screen.
pub const ALL_SCREENS: &'static str = "all";

/// Why the daemon refused a request.
#[derive(Clone, Copy, Debug, PartialEq, Eq, Structural)]
pub enum DispatchErrorKind {
    UnknownRequest,
    NoSuchFile,
    WallpaperNotPreloaded,
    SockConnectionFailed,
    UnExpected,
}

/// A failed request: the control program could not be run, the daemon
/// refused, or its reply could not be read.
#[derive(Debug, PartialEq, Eq)]
pub enum Error {
    /// The operating system's message for why the program could not run.
    Os(String),
    Dispatch(DispatchErrorKind),
    JsonParsing,
}

/// How a wallpaper is fitted to the screen.
#[derive(Clone, Copy, Debug, PartialEq, Eq, Structural)]
pub enum Mode {
    Default,
    Contain,
    Tile,
}

/// What an `unload` request drops from the daemon's memory.
#[derive(Debug, PartialEq, Eq)]
pub enum Unload {
    All,
    Unused,
    Path(String),
}

pub open spec fn dispatch_error_text(k: DispatchErrorKind) -> Seq<char> {
    match k {
        DispatchErrorKind::UnknownRequest => "Unknown request"@,
        DispatchErrorKind::NoSuchFile => "No such file"@,
        DispatchErrorKind::WallpaperNotPreloaded => "Wallpaper not preloaded"@,
        DispatchErrorKind::SockConnectionFailed => "Sock connection failed"@,
        DispatchErrorKind::UnExpected => "An unexpected error occurred"@,
    }
}

pub open spec fn error_text(e: Error) -> Seq<char> {
    match e {
        Error::Os(m) => "Os error: "@ + m@,
        Error::Dispatch(k) => "Dispatch error: "@ + dispatch_error_text(k),
        Error::JsonParsing => "Json parsing error"@,
    }
}

pub open spec fn mode_text(m: Mode) -> Seq<char> {
    match m {
        Mode::Default => "default"@,
        Mode::Contain => "contain"@,
        Mode::Tile => "tile"@,
    }
}

/// The mode a name stands for: its letters are compared without case, and
/// an unknown name gives `Default`.
pub open spec fn mode_named(s: Seq<char>) -> Mode {
    if eq_ignore_ascii_case(s, "contain"@) {
        Mode::Contain
    } else if eq_ignore_ascii_case(s, "tile"@) {
        Mode::Tile
    } else {
        Mode::Default
    }
}

pub open spec fn unload_text(u: Unload) -> Seq<char> {
    match u {
        Unload::All => "all"@,
        Unload::Unused => "unused"@,
        Unload::Path(p) => p@,
    }
}

impl DispatchErrorKind {
    pub fn to_string(&self) -> (r: String)
        ensures
            r@ == dispatch_error_text(*self),
    {
        match self {
            DispatchErrorKind::UnknownRequest => String::from_str("Unknown request"),
            DispatchErrorKind::NoSuchFile => String::from_str("No such file"),
            DispatchErrorKind::WallpaperNotPreloaded => String::from_str(
                "Wallpaper not preloaded",
            ),
            DispatchErrorKind::SockConnectionFailed => String::from_str("Sock connection failed"),
            DispatchErrorKind::UnExpected => String::from_str("An unexpected error occurred"),
        }
    }
}

impl Error {
    pub fn to_string(&self) -> (r: String)
        ensures
            r@ == error_text(*self),
    {
        match self {
            Error::Os(m) => String::from_str("Os error: ").concat(m.as_str()),
            Error::Dispatch(k) => {
                let t = k.to_string();
                String::from_str("Dispatch error: ").concat(t.as_str())
            },
            Error::JsonParsing => String::from_str("Json parsing error"),
        }
    }
}

impl Mode {
    pub fn to_string(&self) -> (r: String)
        ensures
            r@ == mode_text(*self),
    {
        match self {
            Mode::Default => String::from_str("default"),
            Mode::Contain => String::from_str("contain"),
            Mode::Tile => String::from_str("tile"),
        }
    }

    pub fn from_string(string: String) -> (r: Mode)
        ensures
            r == mode_named(string@),
    {
        if str_eq_ignore_ascii_case(string.as_str(), "contain") {
            Mode::Contain
        } else if str_eq_ignore_ascii_case(string.as_str(), "tile") {
            Mode::Tile
        } else {
            Mode::Default
        }
    }
}

impl Unload {
    pub fn to_string(&self) -> (r: String)
        ensures
            r@ == unload_text(*self),
    {
        match self {
            Unload::All => String::from_str("all"),
            Unload::Unused => String::from_str("unused"),
            Unload::Path(p) => p.clone(),
        }
    }
}

/// The outcome that a refusal of kind `k`, or its absence, amounts to.
pub open spec fn refusal(k: Option<DispatchErrorKind>) -> Result<(), Error> {
    match k {
        Some(k) => Err(Error::Dispatch(k)),
        None => Ok(()),
    }
}

/// How the daemon's reply to `unload` is read.
pub open spec fn unload_refusal(t: Seq<char>) -> Option<DispatchErrorKind> {
    if t == UNKNOWN_REQUEST_ERROR@ {
        Some(DispatchErrorKind::UnknownRequest)
    } else if t != OK_REPLY@ {
        Some(DispatchErrorKind::UnExpected)
    } else {
        None
    }
}

/// How the daemon's reply to `preload` is read.
pub open spec fn preload_refusal(t: Seq<char>) -> Option<DispatchErrorKind> {
    if t == UNKNOWN_REQUEST_ERROR@ {
        Some(DispatchErrorKind::UnknownRequest)
    } else if has_prefix(t, NO_SUCH_FILE_ERROR@) {
        Some(DispatchErrorKind::NoSuchFile)
    } else if t != OK_REPLY@ {
        Some(DispatchErrorKind::UnExpected)
    } else {
        None
    }
}

/// How the daemon's reply to `reload` is read.
pub open spec fn reload_refusal(t: Seq<char>) -> Option<DispatchErrorKind> {
    if t == UNKNOWN_REQUEST_ERROR@ {
        Some(DispatchErrorKind::UnknownRequest)
    } else if has_prefix(t, NO_SUCH_FILE_ERROR@) {
        Some(DispatchErrorKind::NoSuchFile)
    } else if t == WALLPAPER_NOT_PRELOADED@ {
        Some(DispatchErrorKind::WallpaperNotPreloaded)
    } else if has_infix(t, NO_SUCH_FILE_ERROR@) {
        Some(DispatchErrorKind::NoSuchFile)
    } else if has_prefix(t, CONNECTION_FAILED@) {
        Some(DispatchErrorKind::SockConnectionFailed)
    } else if t != OK_REPLY@ {
        Some(DispatchErrorKind::UnExpected)
    } else {
        None
    }
}

/// Reads the reply to an `unload` request. `reply` is `None` when the
/// program printed something that is not UTF-8, which is let pass.
pub fn unload_reply(reply: Option<&str>) -> (r: Result<(), Error>)
    ensures
        r == match reply {
            Some(t) => refusal(unload_refusal(t@)),
            None => Ok(()),
        },
{
    match reply {
        None => Ok(()),
        Some(t) => {
            if str_equal(t, UNKNOWN_REQUEST_ERROR) {
                Err(Error::Dispatch(DispatchErrorKind::UnknownRequest))
            } else if !str_equal(t, OK_REPLY) {
                Err(Error::Dispatch(DispatchErrorKind::UnExpected))
            } else {
                Ok(())
            }
        },
    }
}

/// Reads the reply to a `preload` request; `None` as for `unload_reply`.
pub fn preload_reply(reply: Option<&str>) -> (r: Result<(), Error>)
    ensures
        r == match reply {
            Some(t) => refusal(preload_refusal(t@)),
            None => Ok(()),
        },
{
    match reply {
        None => Ok(()),
        Some(t) => {
            if str_equal(t, UNKNOWN_REQUEST_ERROR) {
                Err(Error::Dispatch(DispatchErrorKind::UnknownRequest))
            } else if starts_with(t, NO_SUCH_FILE_ERROR) {
                Err(Error::Dispatch(DispatchErrorKind::NoSuchFile))
            } else if !str_equal(t, OK_REPLY) {
                Err(Error::Dispatch(DispatchErrorKind::UnExpected))
            } else {
                Ok(())
            }
        },
    }
}

/// Reads the reply to a `reload` request; `None` as for `unload_reply`.
pub fn reload_reply(reply: Option<&str>) -> (r: Result<(), Error>)
    ensures
        r == match reply {
            Some(t) => refusal(reload_refusal(t@)),
            None => Ok(()),
        },
{
    match reply {
        None => Ok(()),
        Some(t) => {
            if str_equal(t, UNKNOWN_REQUEST_ERROR) {
                Err(Error::Dispatch(DispatchErrorKind::UnknownRequest))
            } else if starts_with(t, NO_SUCH_FILE_ERROR) {
                Err(Error::Dispatch(DispatchErrorKind::NoSuchFile))
            } else if str_equal(t, WALLPAPER_NOT_PRELOADED) {
                Err(Error::Dispatch(DispatchErrorKind::WallpaperNotPreloaded))
            } else if contains(t, NO_SUCH_FILE_ERROR) {
                Err(Error::Dispatch(DispatchErrorKind::NoSuchFile))
            } else if starts_with(t, CONNECTION_FAILED) {
                Err(Error::Dispatch(DispatchErrorKind::SockConnectionFailed))
            } else if !str_equal(t, OK_REPLY) {
                Err(Error::Dispatch(DispatchErrorKind::UnExpected))
            } else {
                Ok(())
            }
        },
    }
}

/// The daemon did not understand the request.
pub open spec fn is_unknown_request(reply: Option<&str>) -> bool {
    match reply {
        Some(t) => t@ == UNKNOWN_REQUEST_ERROR@,
        None => false,
    }
}

/// Reads the reply to a request for the active screens. `reply` is the
/// printed text (`None` when it is not UTF-8), `success` whether the program
/// exited successfully, and `names` the screen names that the printed JSON
/// listed (`None` when it could not be parsed).
pub fn screens_reply(reply: Option<&str>, success: bool, names: Option<Vec<String>>) -> (r: Result<
    Vec<String>,
    Error,
>)
    ensures
        is_unknown_request(reply) ==> r == Err::<Vec<String>, Error>(
            Error::Dispatch(DispatchErrorKind::UnknownRequest),
        ),
        !is_unknown_request(reply) && !success ==> (r matches Ok(v) && v@.len() == 0),
        !is_unknown_request(reply) && success ==> r == match names {
            Some(v) => Ok(v),
            None => Err(Error::JsonParsing),
        },
{
    let unknown = match reply {
        Some(t) => str_equal(t, UNKNOWN_REQUEST_ERROR),
        None => false,
    };
    if unknown {
        return Err(Error::Dispatch(DispatchErrorKind::UnknownRequest));
    }
    if !success {
        return Ok(Vec::new());
    }
    match names {
        Some(v) => Ok(v),
        None => Err(Error::JsonParsing),
    }
}

/// Whether `screen` names every active screen rather than one.
pub fn names_all_screens(screen: &str) -> (r: bool)
    ensures
        r == (screen@ == ALL_SCREENS@),
{
    str_equal(screen, ALL_SCREENS)
}

/// The screens that a request for `screen` addresses: `active` when it
/// names every screen, else `screen` alone.
pub fn target_screens(screen: String, active: Vec<String>) -> (r: Vec<String>)
    ensures
        screen@ == ALL_SCREENS@ ==> r == active,
        screen@ != ALL_SCREENS@ ==> r@ == seq![screen],
{
    if names_all_screens(screen.as_str()) {
        active
    } else {
        let mut v: Vec<String> = Vec::new();
        v.push(screen);
        assert(v@ =~= seq![screen]);
        v
    }
}

/// The argument of a `reload` request: the screen, then the mode unless it
/// is the default one, then the wallpaper's path.
pub open spec fn reload_value(screen: Seq<char>, wallpaper: Seq<char>, mode: Mode) -> Seq<char> {
    if mode == Mode::Default {
        screen + ","@ + wallpaper
    } else {
        screen + ","@ + mode_text(mode) + ":"@ + wallpaper
    }
}

pub fn reload_argument(screen: &str, wallpaper: &str, mode: &Mode) -> (r: String)
    ensures
        r@ == reload_value(screen@, wallpaper@, *mode),
{
    let mut v = screen.to_owned();
    v.append(",");
    if *mode != Mode::Default {
        let m = mode.to_string();
        v.append(m.as_str());
        v.append(":");
    }
    v.append(wallpaper);
    v
}

} // verus!
