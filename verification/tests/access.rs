use rekk::permissions::{
    ensure_microphone_permission, ensure_screen_capture_permission, mic_permission_string,
    microphone_must_ask, permission_outcome, permission_reset_args, privacy_settings_url,
    screen_must_ask, screen_permission_string, setup_status, MicAuthorization,
};
use rekk::text::{concat_text, decimal, join_lines, same_text};

#[test]
fn microphone_access() {
    let ask = |s: Option<MicAuthorization>, a: Option<bool>| ensure_microphone_permission(s, a);
    assert_eq!(ask(Some(MicAuthorization::Authorized), None), Ok(()));
    assert_eq!(
        ask(Some(MicAuthorization::Denied), Some(true)),
        Err("Microphone permission is denied for Rek. Enable it in macOS Settings > Privacy & Security > Microphone, then restart the app.".to_string())
    );
    assert_eq!(
        ask(Some(MicAuthorization::Restricted), None),
        Err("Microphone permission is restricted by macOS.".to_string())
    );
    assert_eq!(ask(Some(MicAuthorization::NotDetermined), Some(true)), Ok(()));
    assert_eq!(
        ask(Some(MicAuthorization::NotDetermined), Some(false)),
        Err("Microphone permission was not granted.".to_string())
    );
    assert_eq!(
        ask(Some(MicAuthorization::NotDetermined), None),
        Err("Timed out waiting for microphone permission.".to_string())
    );
    assert_eq!(
        ask(Some(MicAuthorization::Other("State(9)".to_string())), None),
        Err("Unknown microphone permission state: State(9)".to_string())
    );
    assert_eq!(ask(None, Some(true)), Err("AVMediaTypeAudio is unavailable".to_string()));
    assert!(microphone_must_ask(&Some(MicAuthorization::NotDetermined)));
    assert!(!microphone_must_ask(&Some(MicAuthorization::Denied)));
    assert!(!microphone_must_ask(&None));
}

#[test]
fn screen_access() {
    assert!(screen_must_ask(false));
    assert!(!screen_must_ask(true));
    assert_eq!(ensure_screen_capture_permission(true, false), Ok(()));
    assert_eq!(ensure_screen_capture_permission(false, true), Ok(()));
    assert_eq!(
        ensure_screen_capture_permission(false, false),
        Err("Screen Recording permission is required to capture system audio. Enable Rek under System Settings > Privacy & Security > Screen & System Audio Recording, then restart the app.".to_string())
    );
}

#[test]
fn access_in_words() {
    assert_eq!(permission_outcome(Ok(())), "authorized");
    assert_eq!(permission_outcome(Err("no".to_string())), "denied: no");
    assert_eq!(mic_permission_string(&Some(MicAuthorization::Authorized)), "authorized");
    assert_eq!(mic_permission_string(&Some(MicAuthorization::Denied)), "denied");
    assert_eq!(mic_permission_string(&Some(MicAuthorization::Restricted)), "restricted");
    assert_eq!(mic_permission_string(&Some(MicAuthorization::NotDetermined)), "not_determined");
    assert_eq!(mic_permission_string(&Some(MicAuthorization::Other(String::new()))), "unknown");
    assert_eq!(mic_permission_string(&None), "unknown");
    assert_eq!(screen_permission_string(true), "authorized");
    assert_eq!(screen_permission_string(false), "denied");
    let s = setup_status(&Some(MicAuthorization::Restricted), true);
    assert_eq!(s.mic_permission, "restricted");
    assert_eq!(s.screen_permission, "authorized");
}

#[test]
fn privacy_panels() {
    assert_eq!(
        privacy_settings_url("screen"),
        Ok("x-apple.systempreferences:com.apple.preference.security?Privacy_ScreenCapture".to_string())
    );
    assert_eq!(
        privacy_settings_url("microphone"),
        Ok("x-apple.systempreferences:com.apple.preference.security?Privacy_Microphone".to_string())
    );
    assert_eq!(privacy_settings_url("camera"), Err("Unknown privacy panel: camera".to_string()));
    assert_eq!(
        permission_reset_args(),
        vec![
            vec!["reset", "ScreenCapture", "io.dbr.rekk"],
            vec!["reset", "Microphone", "io.dbr.rekk"],
        ]
    );
}

#[test]
fn text_helpers() {
    assert_eq!(concat_text("a", "b"), "ab");
    assert!(same_text("x", "x") && !same_text("x", "y"));
    for n in [0u64, 7, 10, 16, 1024, 65535, u64::MAX] {
        assert_eq!(decimal(n), n.to_string());
    }
    let lines = |v: &[&str]| join_lines(&v.iter().map(|s| s.to_string()).collect());
    assert_eq!(lines(&[]), "");
    assert_eq!(lines(&["a"]), "a");
    assert_eq!(lines(&["a", "", "c"]), "a\n\nc");
}
