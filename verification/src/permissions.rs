//! What follows from the system's answers about microphone and screen access.
use crate::text::{concat_text, same_text};
use vstd::prelude::*;

verus! {

/// The bundle identifier under which the system keeps the permissions.
pub const APP_BUNDLE_ID: &'static str = "io.dbr.rekk";

/// What the system says about access to the microphone. A state that is not
/// known carries its own description.
pub enum MicAuthorization {
    Authorized,
    Denied,
    Restricted,
    NotDetermined,
    Other(String),
}

/// Whether the user has to be asked: only where no decision is on record.
pub fn microphone_must_ask(status: &Option<MicAuthorization>) -> (r: bool)
    ensures
        r == (status matches Some(s) && s is NotDetermined),
{
    match status {
        Some(MicAuthorization::NotDetermined) => true,
        _ => false,
    }
}

/// Why the microphone may not be used; nothing where it may. `status` is absent
/// where the system has no audio media type, `answer` where the user did not
/// answer in time.
pub open spec fn microphone_refusal(
    status: Option<MicAuthorization>,
    answer: Option<bool>,
) -> Option<Seq<char>> {
    match status {
        None => Some("AVMediaTypeAudio is unavailable"@),
        Some(MicAuthorization::Authorized) => None,
        Some(MicAuthorization::Denied) => Some(
            "Microphone permission is denied for Rek. Enable it in macOS Settings > Privacy & Security > Microphone, then restart the app."@,
        ),
        Some(MicAuthorization::Restricted) => Some(
            "Microphone permission is restricted by macOS."@,
        ),
        Some(MicAuthorization::NotDetermined) => match answer {
            None => Some("Timed out waiting for microphone permission."@),
            Some(true) => None,
            Some(false) => Some("Microphone permission was not granted."@),
        },
        Some(MicAuthorization::Other(state)) => Some(
            "Unknown microphone permission state: "@ + state@,
        ),
    }
}

/// Whether a result is a go-ahead or exactly the given refusal.
pub open spec fn is_refusal(refusal: Option<Seq<char>>, r: Result<(), String>) -> bool {
    match refusal {
        None => r is Ok,
        Some(message) => r matches Err(m) && m@ == message,
    }
}

/// Whether the microphone may be used. The answer counts only where the user
/// had to be asked.
pub fn ensure_microphone_permission(status: Option<MicAuthorization>, answer: Option<bool>) -> (r:
    Result<(), String>)
    ensures
        is_refusal(microphone_refusal(status, answer), r),
{
    match status {
        None => Err("AVMediaTypeAudio is unavailable".to_owned()),
        Some(MicAuthorization::Authorized) => Ok(()),
        Some(MicAuthorization::Denied) => Err(
            "Microphone permission is denied for Rek. Enable it in macOS Settings > Privacy & Security > Microphone, then restart the app.".to_owned(),
        ),
        Some(MicAuthorization::Restricted) => Err(
            "Microphone permission is restricted by macOS.".to_owned(),
        ),
        Some(MicAuthorization::NotDetermined) => match answer {
            None => Err("Timed out waiting for microphone permission.".to_owned()),
            Some(granted) => if granted {
                Ok(())
            } else {
                Err("Microphone permission was not granted.".to_owned())
            },
        },
        Some(MicAuthorization::Other(state)) => Err(
            concat_text("Unknown microphone permission state: ", state.as_str()),
        ),
    }
}

/// Whether access to the screen has to be requested: only where it is missing,
/// so that nobody is prompted who has granted it.
pub fn screen_must_ask(preflight: bool) -> (r: bool)
    ensures
        r == !preflight,
{
    !preflight
}

/// Why the screen may not be captured; nothing where it may.
pub open spec fn screen_refusal(preflight: bool, requested: bool) -> Option<Seq<char>> {
    if preflight || requested {
        None
    } else {
        Some(
            "Screen Recording permission is required to capture system audio. Enable Rek under System Settings > Privacy & Security > Screen & System Audio Recording, then restart the app."@,
        )
    }
}

/// Whether the screen may be captured: access was there already, or was granted
/// on request.
pub fn ensure_screen_capture_permission(preflight: bool, requested: bool) -> (r: Result<
    (),
    String,
>)
    ensures
        is_refusal(screen_refusal(preflight, requested), r),
{
    if preflight || requested {
        Ok(())
    } else {
        Err(
            "Screen Recording permission is required to capture system audio. Enable Rek under System Settings > Privacy & Security > Screen & System Audio Recording, then restart the app.".to_owned(),
        )
    }
}

/// How a request for permission went, in words.
pub fn permission_outcome(granted: Result<(), String>) -> (r: String)
    ensures
        r@ == (match granted {
            Ok(_) => "authorized"@,
            Err(e) => "denied: "@ + e@,
        }),
{
    match granted {
        Ok(_) => "authorized".to_owned(),
        Err(e) => concat_text("denied: ", e.as_str()),
    }
}

/// The word for a state of microphone access.
pub open spec fn mic_word(status: Option<MicAuthorization>) -> Seq<char> {
    match status {
        Some(MicAuthorization::Authorized) => "authorized"@,
        Some(MicAuthorization::Denied) => "denied"@,
        Some(MicAuthorization::Restricted) => "restricted"@,
        Some(MicAuthorization::NotDetermined) => "not_determined"@,
        _ => "unknown"@,
    }
}

/// The word for a state of screen access.
pub open spec fn screen_word(preflight: bool) -> Seq<char> {
    if preflight {
        "authorized"@
    } else {
        "denied"@
    }
}

/// The state of microphone access, in a word.
pub fn mic_permission_string(status: &Option<MicAuthorization>) -> (r: String)
    ensures
        r@ == mic_word(*status),
{
    match status {
        Some(MicAuthorization::Authorized) => "authorized".to_owned(),
        Some(MicAuthorization::Denied) => "denied".to_owned(),
        Some(MicAuthorization::Restricted) => "restricted".to_owned(),
        Some(MicAuthorization::NotDetermined) => "not_determined".to_owned(),
        _ => "unknown".to_owned(),
    }
}

/// The state of screen access, in a word.
pub fn screen_permission_string(preflight: bool) -> (r: String)
    ensures
        r@ == screen_word(preflight),
{
    if preflight {
        "authorized".to_owned()
    } else {
        "denied".to_owned()
    }
}

/// Both states of access.
pub struct SetupStatus {
    pub mic_permission: String,
    pub screen_permission: String,
}

/// The states of access, each as its own function words it.
pub fn setup_status(status: &Option<MicAuthorization>, preflight: bool) -> (r: SetupStatus)
    ensures
        r.mic_permission@ == mic_word(*status),
        r.screen_permission@ == screen_word(preflight),
{
    SetupStatus {
        mic_permission: mic_permission_string(status),
        screen_permission: screen_permission_string(preflight),
    }
}

/// The address of a panel of the system's privacy settings.
pub open spec fn privacy_url_of(panel: Seq<char>) -> Option<Seq<char>> {
    if panel == "screen"@ {
        Some("x-apple.systempreferences:com.apple.preference.security?Privacy_ScreenCapture"@)
    } else if panel == "microphone"@ {
        Some("x-apple.systempreferences:com.apple.preference.security?Privacy_Microphone"@)
    } else {
        None
    }
}

/// The address of a panel of the system's privacy settings; two are known.
pub fn privacy_settings_url(panel: &str) -> (r: Result<String, String>)
    ensures
        match privacy_url_of(panel@) {
            Some(url) => r matches Ok(u) && u@ == url,
            None => r matches Err(m) && m@ == "Unknown privacy panel: "@ + panel@,
        },
{
    if same_text(panel, "screen") {
        Ok(
            "x-apple.systempreferences:com.apple.preference.security?Privacy_ScreenCapture".to_owned(),
        )
    } else if same_text(panel, "microphone") {
        Ok("x-apple.systempreferences:com.apple.preference.security?Privacy_Microphone".to_owned())
    } else {
        Err(concat_text("Unknown privacy panel: ", panel))
    }
}

/// The services whose permissions a reset clears.
pub open spec fn reset_services() -> Seq<Seq<char>> {
    seq!["ScreenCapture"@, "Microphone"@]
}

/// The argument lists that reset this application's permissions, one per
/// service: the word `reset`, the service, the bundle identifier.
pub fn permission_reset_args() -> (r: Vec<Vec<String>>)
    ensures
        r@.len() == reset_services().len(),
        forall|i: int|
            0 <= i < r@.len() ==> {
                &&& (#[trigger] r@[i])@.len() == 3
                &&& r@[i]@[0]@ == "reset"@
                &&& r@[i]@[1]@ == reset_services()[i]
                &&& r@[i]@[2]@ == APP_BUNDLE_ID@
            },
{
    vec![
        vec!["reset".to_owned(), "ScreenCapture".to_owned(), APP_BUNDLE_ID.to_owned()],
        vec!["reset".to_owned(), "Microphone".to_owned(), APP_BUNDLE_ID.to_owned()],
    ]
}

/// The microphone may be used where access is on record or was granted when asked
/// for; any other answer gives its reason, a state that is not known with all of
/// its description.
pub proof fn law_microphone_needs_consent(
    status: Option<MicAuthorization>,
    answer: Option<bool>,
    r: Result<(), String>,
)
    requires
        is_refusal(microphone_refusal(status, answer), r),
    ensures
        r is Ok <==> {
            ||| status matches Some(s) && s is Authorized
            ||| (status matches Some(s) && s is NotDetermined) && answer == Some(true)
        },
        status matches Some(MicAuthorization::Other(state)) ==> (r matches Err(m) && m@
            == "Unknown microphone permission state: "@ + state@),
{
}

/// The screen may be captured where access was there or was granted on request.
pub proof fn law_screen_needs_consent(preflight: bool, requested: bool, r: Result<(), String>)
    requires
        is_refusal(screen_refusal(preflight, requested), r),
    ensures
        r is Ok <==> preflight || requested,
{
}

/// Only the two panels have an address, and not the same.
pub proof fn law_two_panels_are_known(panel: Seq<char>)
    ensures
        privacy_url_of(panel) is Some <==> panel == "screen"@ || panel == "microphone"@,
        privacy_url_of("screen"@) != privacy_url_of("microphone"@),
        panel == "screen"@ ==> privacy_url_of(panel) == Some(
            "x-apple.systempreferences:com.apple.preference.security?Privacy_ScreenCapture"@,
        ),
        panel == "microphone"@ ==> privacy_url_of(panel) == Some(
            "x-apple.systempreferences:com.apple.preference.security?Privacy_Microphone"@,
        ),
{
    reveal_strlit("screen");
    reveal_strlit("microphone");
    assert("screen"@.len() != "microphone"@.len());
    reveal_strlit("x-apple.systempreferences:com.apple.preference.security?Privacy_ScreenCapture");
    reveal_strlit("x-apple.systempreferences:com.apple.preference.security?Privacy_Microphone");
    assert("x-apple.systempreferences:com.apple.preference.security?Privacy_ScreenCapture"@.len()
        != "x-apple.systempreferences:com.apple.preference.security?Privacy_Microphone"@.len());
}

/// A refusal says why: what is missing, and what can be done about it.
pub proof fn law_refusals_say_why(status: MicAuthorization, answer: Option<bool>)
    ensures
        microphone_refusal(None, answer) == Some("AVMediaTypeAudio is unavailable"@),
        status is Denied ==> microphone_refusal(Some(status), answer) == Some(
            "Microphone permission is denied for Rek. Enable it in macOS Settings > Privacy & Security > Microphone, then restart the app."@,
        ),
        status is Restricted ==> microphone_refusal(Some(status), answer) == Some(
            "Microphone permission is restricted by macOS."@,
        ),
        status is NotDetermined && answer is None ==> microphone_refusal(Some(status), answer)
            == Some("Timed out waiting for microphone permission."@),
        status is NotDetermined && answer == Some(false) ==> microphone_refusal(
            Some(status),
            answer,
        ) == Some("Microphone permission was not granted."@),
        screen_refusal(false, false) == Some(
            "Screen Recording permission is required to capture system audio. Enable Rek under System Settings > Privacy & Security > Screen & System Audio Recording, then restart the app."@,
        ),
{
}

/// Each state of access has its word; a state that cannot be told is unknown.
pub proof fn law_states_have_their_words(status: MicAuthorization, preflight: bool)
    ensures
        mic_word(None) == "unknown"@,
        mic_word(Some(status)) == (match status {
            MicAuthorization::Authorized => "authorized"@,
            MicAuthorization::Denied => "denied"@,
            MicAuthorization::Restricted => "restricted"@,
            MicAuthorization::NotDetermined => "not_determined"@,
            MicAuthorization::Other(_) => "unknown"@,
        }),
        preflight ==> screen_word(preflight) == "authorized"@,
        !preflight ==> screen_word(preflight) == "denied"@,
{
}

/// A reset clears both permissions, of this application.
pub proof fn law_both_permissions_are_reset()
    ensures
        reset_services().len() == 2,
        reset_services().contains("ScreenCapture"@),
        reset_services().contains("Microphone"@),
        APP_BUNDLE_ID@ == "io.dbr.rekk"@,
{
    assert(reset_services()[0] == "ScreenCapture"@);
    assert(reset_services()[1] == "Microphone"@);
}

} // verus!
