use hypr_nitrogen::dispatch::{
    names_all_screens, preload_reply, reload_argument, reload_reply, screens_reply,
    target_screens, unload_reply, DispatchErrorKind, Error, Mode, Unload,
};

#[test]
fn mode_names_are_read_without_case() {
    assert_eq!(Mode::from_string("contain".to_string()), Mode::Contain);
    assert_eq!(Mode::from_string("CoNtAiN".to_string()), Mode::Contain);
    assert_eq!(Mode::from_string("TILE".to_string()), Mode::Tile);
    assert_eq!(Mode::from_string("default".to_string()), Mode::Default);
    assert_eq!(Mode::from_string("stretch".to_string()), Mode::Default);
    assert_eq!(Mode::from_string(String::new()), Mode::Default);
}

#[test]
fn mode_texts() {
    assert_eq!(Mode::Default.to_string(), "default");
    assert_eq!(Mode::Contain.to_string(), "contain");
    assert_eq!(Mode::Tile.to_string(), "tile");
}

#[test]
fn unload_texts() {
    assert_eq!(Unload::All.to_string(), "all");
    assert_eq!(Unload::Unused.to_string(), "unused");
    assert_eq!(Unload::Path("/tmp/a.png".to_string()).to_string(), "/tmp/a.png");
}

#[test]
fn error_texts() {
    assert_eq!(DispatchErrorKind::UnknownRequest.to_string(), "Unknown request");
    assert_eq!(DispatchErrorKind::NoSuchFile.to_string(), "No such file");
    assert_eq!(DispatchErrorKind::WallpaperNotPreloaded.to_string(), "Wallpaper not preloaded");
    assert_eq!(DispatchErrorKind::SockConnectionFailed.to_string(), "Sock connection failed");
    assert_eq!(DispatchErrorKind::UnExpected.to_string(), "An unexpected error occurred");
    assert_eq!(
        Error::Dispatch(DispatchErrorKind::NoSuchFile).to_string(),
        "Dispatch error: No such file"
    );
    assert_eq!(Error::Os("denied".to_string()).to_string(), "Os error: denied");
    assert_eq!(Error::JsonParsing.to_string(), "Json parsing error");
}

#[test]
fn unload_replies() {
    assert_eq!(unload_reply(Some("ok\n")), Ok(()));
    assert_eq!(
        unload_reply(Some("unknown request\n")),
        Err(Error::Dispatch(DispatchErrorKind::UnknownRequest))
    );
    assert_eq!(
        unload_reply(Some("something else\n")),
        Err(Error::Dispatch(DispatchErrorKind::UnExpected))
    );
    assert_eq!(unload_reply(None), Ok(()));
}

#[test]
fn preload_replies() {
    assert_eq!(preload_reply(Some("ok\n")), Ok(()));
    assert_eq!(
        preload_reply(Some("no such file: /x.png\n")),
        Err(Error::Dispatch(DispatchErrorKind::NoSuchFile))
    );
    assert_eq!(
        preload_reply(Some("unknown request\n")),
        Err(Error::Dispatch(DispatchErrorKind::UnknownRequest))
    );
    assert_eq!(
        preload_reply(Some("ok")),
        Err(Error::Dispatch(DispatchErrorKind::UnExpected))
    );
}

#[test]
fn reload_replies() {
    assert_eq!(reload_reply(Some("ok\n")), Ok(()));
    assert_eq!(
        reload_reply(Some("wallpaper failed (not preloaded)\n")),
        Err(Error::Dispatch(DispatchErrorKind::WallpaperNotPreloaded))
    );
    assert_eq!(
        reload_reply(Some("reload failed: no such file: /x.png\n")),
        Err(Error::Dispatch(DispatchErrorKind::NoSuchFile))
    );
    assert_eq!(
        reload_reply(Some("no such file: /x.png\n")),
        Err(Error::Dispatch(DispatchErrorKind::NoSuchFile))
    );
    assert_eq!(
        reload_reply(Some("Couldn't connect to /run/user/1000/hypr/.socket.sock\n")),
        Err(Error::Dispatch(DispatchErrorKind::SockConnectionFailed))
    );
    assert_eq!(
        reload_reply(Some("unknown request\n")),
        Err(Error::Dispatch(DispatchErrorKind::UnknownRequest))
    );
    assert_eq!(
        reload_reply(Some("")),
        Err(Error::Dispatch(DispatchErrorKind::UnExpected))
    );
    assert_eq!(reload_reply(None), Ok(()));
}

#[test]
fn screens_replies() {
    let names = vec!["DP-1".to_string(), "HDMI-A-1".to_string()];
    assert_eq!(
        screens_reply(Some("[]"), true, Some(names.clone())),
        Ok(names.clone())
    );
    assert_eq!(
        screens_reply(Some("unknown request\n"), true, None),
        Err(Error::Dispatch(DispatchErrorKind::UnknownRequest))
    );
    assert_eq!(screens_reply(Some("x"), true, None), Err(Error::JsonParsing));
    assert_eq!(screens_reply(Some("x"), false, None), Ok(Vec::new()));
}

#[test]
fn reload_arguments() {
    assert_eq!(
        reload_argument("DP-1", "/w/a.png", &Mode::Default),
        "DP-1,/w/a.png"
    );
    assert_eq!(
        reload_argument("DP-1", "/w/a.png", &Mode::Contain),
        "DP-1,contain:/w/a.png"
    );
    assert_eq!(reload_argument("", "/w/a.png", &Mode::Tile), ",tile:/w/a.png");
}

#[test]
fn screen_targets() {
    assert!(names_all_screens("all"));
    assert!(!names_all_screens("ALL"));
    let active = vec!["DP-1".to_string(), "DP-2".to_string()];
    assert_eq!(target_screens("all".to_string(), active.clone()), active);
    assert_eq!(
        target_screens("DP-2".to_string(), active),
        vec!["DP-2".to_string()]
    );
}
