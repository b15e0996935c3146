use glycin_ng::rsvg::{base_uri_path, close_reply, element_id, percent_decode, CloseError, CloseStep, LoadState};

#[test]
fn id_cstring_strips_the_hash() {
    assert_eq!(element_id(b"#foo"), b"foo");
    assert_eq!(element_id(b"bar"), b"bar");
    assert_eq!(element_id(b"##x"), b"#x");
    assert_eq!(element_id(b""), b"");
}

#[test]
fn percent_escapes_decode_fully() {
    assert_eq!(percent_decode(b"/tmp/My%20Bilder%C3%A4").unwrap(), "/tmp/My Bilder\u{e4}".as_bytes());
    assert_eq!(percent_decode(b"%2f%2F").unwrap(), b"//".to_vec());
    assert_eq!(percent_decode(b"").unwrap(), Vec::<u8>::new());
    // Truncated or malformed escapes are rejected rather than mangled.
    assert!(percent_decode(b"/tmp/bad%2").is_none());
    assert!(percent_decode(b"%").is_none());
    assert!(percent_decode(b"%zz").is_none());
}

#[test]
fn base_uri_paths() {
    assert_eq!(base_uri_path(b"file:///tmp/icons/foo.svg").unwrap(), b"/tmp/icons/foo.svg".to_vec());
    assert_eq!(base_uri_path(b"/tmp/icons/foo.svg").unwrap(), b"/tmp/icons/foo.svg".to_vec());
    assert!(base_uri_path(b"https://example.com/a.svg").is_none());
    // A file URI with a host name is refused.
    assert!(base_uri_path(b"file://host/tmp/a.svg").is_none());
    assert_eq!(
        base_uri_path(b"file:///tmp/My%20Bilder%C3%A4/x.svg").unwrap(),
        "/tmp/My Bilder\u{e4}/x.svg".as_bytes()
    );
    assert!(base_uri_path(b"file:///tmp/bad%2/x.svg").is_none());
    assert!(base_uri_path(&[b'/', 0xff]).is_none());
}

#[test]
fn write_then_close_hands_over_the_bytes() {
    let mut state: LoadState<u32> = LoadState::Start;
    assert!(state.write(b"<svg"));
    assert!(state.write(b"/>"));
    match state.close() {
        CloseStep::Parse(bytes) => assert_eq!(bytes, b"<svg/>".to_vec()),
        _ => panic!("expected the buffered bytes"),
    }
    assert!(matches!(state, LoadState::Start));
    assert!(state.finish(Some(7)).is_none());
    assert_eq!(state.document(), Some(&7));
}

#[test]
fn loaded_and_failed_handles_refuse_writes() {
    let mut state: LoadState<u32> = LoadState::Loaded(1);
    assert!(!state.write(b"x"));
    assert!(matches!(state.close(), CloseStep::AlreadyLoaded));
    assert_eq!(state.document(), Some(&1));
    let mut failed: LoadState<u32> = LoadState::Failed;
    assert!(!failed.write(b"x"));
    assert!(matches!(failed.close(), CloseStep::InError));
    assert!(matches!(failed, LoadState::Failed));
}

#[test]
fn closing_a_fresh_handle_reports_no_data() {
    let mut state: LoadState<u32> = LoadState::Start;
    assert!(matches!(state.close(), CloseStep::NoData));
    assert!(state.document().is_none());
}

#[test]
fn reloading_hands_back_the_replaced_document() {
    let mut state: LoadState<u32> = LoadState::Loaded(1);
    assert_eq!(state.finish(Some(2)), Some(1));
    assert_eq!(state.document(), Some(&2));
    assert_eq!(state.finish(None), None);
    assert!(matches!(state, LoadState::Failed));
}

#[test]
fn plain_paths_decode_to_themselves() {
    let path = b"/usr/share/icons/hicolor/a b.svg";
    assert_eq!(percent_decode(path).unwrap(), path.to_vec());
}

#[test]
fn close_answers_follow_the_lifecycle() {
    let mut state: LoadState<u32> = LoadState::Start;
    let step = state.close();
    assert_eq!(close_reply(&step, false), Err(CloseError::NoData));
    assert_eq!(CloseError::NoData.message(), Some("no data has been fed to the handle"));
    let mut failed: LoadState<u32> = LoadState::Failed;
    let step = failed.close();
    assert_eq!(close_reply(&step, false), Err(CloseError::InError));
    assert_eq!(CloseError::InError.message(), Some("handle is in an error state"));
    let mut loaded: LoadState<u32> = LoadState::Loaded(3);
    let step = loaded.close();
    assert_eq!(close_reply(&step, false), Ok(()));
    let mut loading: LoadState<u32> = LoadState::Start;
    assert!(loading.write(b"<svg/>"));
    let step = loading.close();
    assert_eq!(close_reply(&step, true), Ok(()));
    assert_eq!(close_reply(&step, false), Err(CloseError::Engine));
    assert_eq!(CloseError::Engine.message(), None);
}
