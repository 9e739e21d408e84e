//! Inserting text into another app: when the desk may paste, and where it sends
//! the user for permissions.
use vstd::prelude::*;

verus! {

/// Why a finished text was copied but not pasted.
#[derive(Clone, Copy, Debug, PartialEq, Eq, Structural)]
pub enum PasteRefusal {
    /// The desk is not allowed to post key events (Accessibility).
    NotTrusted,
    /// Another app came to the front while transcribing.
    TargetChanged,
}

/// Whether the desk may paste into process `pid`: Accessibility must be allowed,
/// then `pid` must still be the frontmost app.
pub fn paste_check(accessibility_allowed: bool, frontmost: Option<i32>, pid: i32) -> (r: Result<(), PasteRefusal>)
    ensures
        !accessibility_allowed ==> r == Err::<(), PasteRefusal>(PasteRefusal::NotTrusted),
        accessibility_allowed && frontmost != Some(pid) ==> r == Err::<(), PasteRefusal>(PasteRefusal::TargetChanged),
        accessibility_allowed && frontmost == Some(pid) ==> r is Ok,
{
    if !accessibility_allowed {
        return Err(PasteRefusal::NotTrusted);
    }
    match frontmost {
        Some(p) => {
            if p == pid {
                Ok(())
            } else {
                Err(PasteRefusal::TargetChanged)
            }
        },
        None => Err(PasteRefusal::TargetChanged),
    }
}

impl PasteRefusal {
    /// The message shown to the user.
    pub fn message(&self) -> (r: &'static str)
        ensures
            *self == PasteRefusal::NotTrusted ==> r@ == "Text copied. To insert it automatically, allow FastAF Flow in System Settings \u{2192} Privacy & Security \u{2192} Accessibility."@,
            *self == PasteRefusal::TargetChanged ==> r@ == "Text copied. The active app changed while transcribing; press \u{2318}V where you want the text."@,
    {
        match self {
            PasteRefusal::NotTrusted => "Text copied. To insert it automatically, allow FastAF Flow in System Settings \u{2192} Privacy & Security \u{2192} Accessibility.",
            PasteRefusal::TargetChanged => "Text copied. The active app changed while transcribing; press \u{2318}V where you want the text.",
        }
    }
}

/// The app that a shortcut recording will paste into: the frontmost app, unless
/// that is the desk itself (process `own`).
pub fn paste_target(frontmost: Option<i32>, own: i32) -> (r: Option<i32>)
    ensures
        r == (match frontmost {
            Some(p) => if p != own {
                Some(p)
            } else {
                None
            },
            None => None,
        }),
{
    match frontmost {
        Some(p) => {
            if p != own {
                Some(p)
            } else {
                None
            }
        },
        None => None,
    }
}

/// The System Settings page for microphone (or else Accessibility) permission.
pub fn privacy_url(microphone: bool) -> (r: &'static str)
    ensures
        microphone ==> r@ == "x-apple.systempreferences:com.apple.preference.security?Privacy_Microphone"@,
        !microphone ==> r@ == "x-apple.systempreferences:com.apple.preference.security?Privacy_Accessibility"@,
{
    if microphone {
        "x-apple.systempreferences:com.apple.preference.security?Privacy_Microphone"
    } else {
        "x-apple.systempreferences:com.apple.preference.security?Privacy_Accessibility"
    }
}

} // verus!
