//! What happens around one accepted read: the dedup decision, the scan record
//! to send, and the audio cue for each notification outcome.
use vstd::prelude::*;
use crate::dedup::{Action, DedupStore, is_payment_port, observed};
use crate::port::{logical_port_of, usb_port_to_int};

verus! {

/// An audio clip played as feedback.
#[derive(Clone, Copy, Debug, PartialEq, Eq, Structural)]
pub enum Sound {
    /// The notification was accepted.
    Success,
    /// An admin-class read, played before the notification is sent.
    Admin,
    /// The notification failed.
    Error,
    /// A payment-class card was already charged: a refund follows.
    Payback,
    /// The card is still held on the reader.
    Again,
    /// The card must be activated first.
    Activate,
    /// The card must be registered first.
    Register,
}

pub open spec fn sound_path(s: Sound) -> Seq<char> {
    match s {
        Sound::Success => "/usr/local/share/sounds/paypay.mp3"@,
        Sound::Admin => "/usr/local/share/sounds/admin-2.mp3"@,
        Sound::Error => "/usr/local/share/sounds/error-2.mp3"@,
        Sound::Payback => "/usr/local/share/sounds/payback-3.mp3"@,
        Sound::Again => "/usr/local/share/sounds/again.mp3"@,
        Sound::Activate => "/usr/local/share/sounds/activate.mp3"@,
        Sound::Register => "/usr/local/share/sounds/register.mp3"@,
    }
}

impl Sound {
    /// The file that holds the clip.
    pub fn path(self) -> (r: &'static str)
        ensures
            r@ == sound_path(self),
    {
        match self {
            Sound::Success => "/usr/local/share/sounds/paypay.mp3",
            Sound::Admin => "/usr/local/share/sounds/admin-2.mp3",
            Sound::Error => "/usr/local/share/sounds/error-2.mp3",
            Sound::Payback => "/usr/local/share/sounds/payback-3.mp3",
            Sound::Again => "/usr/local/share/sounds/again.mp3",
            Sound::Activate => "/usr/local/share/sounds/activate.mp3",
            Sound::Register => "/usr/local/share/sounds/register.mp3",
        }
    }
}

/// The result of sending a scan record.
#[derive(Clone, Copy, Debug, PartialEq, Eq, Structural)]
pub enum Outcome {
    /// HTTP 200.
    Accepted,
    /// HTTP 400: the scan duplicates one already booked.
    Duplicate,
    /// HTTP 403.
    Forbidden,
    /// HTTP 404.
    NotFound,
    /// Any other status, or no response at all.
    TransportError,
}

pub open spec fn outcome_of(status: Option<u16>) -> Outcome {
    match status {
        Some(code) => if code == 200 {
            Outcome::Accepted
        } else if code == 400 {
            Outcome::Duplicate
        } else if code == 403 {
            Outcome::Forbidden
        } else if code == 404 {
            Outcome::NotFound
        } else {
            Outcome::TransportError
        },
        None => Outcome::TransportError,
    }
}

/// Classify the HTTP status of the response, `None` when no response came.
pub fn classify_response(status: Option<u16>) -> (r: Outcome)
    ensures
        r == outcome_of(status),
{
    match status {
        Some(200) => Outcome::Accepted,
        Some(400) => Outcome::Duplicate,
        Some(403) => Outcome::Forbidden,
        Some(404) => Outcome::NotFound,
        _ => Outcome::TransportError,
    }
}

pub open spec fn is_admin_port(port: Option<u32>) -> bool {
    port == Some(5u32)
}

/// The cue played after the outcome is known.
pub open spec fn outcome_cue_of(port: Option<u32>, outcome: Outcome) -> Option<Sound> {
    if is_admin_port(port) {
        None
    } else {
        match outcome {
            Outcome::Accepted => Some(Sound::Success),
            Outcome::Duplicate => if is_payment_port(port) {
                Some(Sound::Payback)
            } else {
                Some(Sound::Success)
            },
            Outcome::Forbidden => Some(Sound::Activate),
            Outcome::NotFound => Some(Sound::Register),
            Outcome::TransportError => Some(Sound::Error),
        }
    }
}

/// The cue for a notification outcome on a logical port. The admin port has
/// its cue before sending and none afterwards.
pub fn outcome_cue(port: Option<u32>, outcome: Outcome) -> (r: Option<Sound>)
    ensures
        r == outcome_cue_of(port, outcome),
        is_admin_port(port) ==> r is None,
        !is_admin_port(port) ==> r is Some,
        !is_admin_port(port) && outcome == Outcome::Accepted ==> r == Some(Sound::Success),
        is_payment_port(port) && outcome == Outcome::Duplicate ==> r == Some(Sound::Payback),
        !is_admin_port(port) && outcome == Outcome::Forbidden ==> r == Some(Sound::Activate),
        !is_admin_port(port) && outcome == Outcome::NotFound ==> r == Some(Sound::Register),
        !is_admin_port(port) && outcome == Outcome::TransportError ==> r == Some(Sound::Error),
{
    match port {
        Some(5) => {
            return None;
        },
        _ => {},
    }
    match outcome {
        Outcome::Accepted => Some(Sound::Success),
        Outcome::Duplicate => {
            let payment = match port {
                Some(p) => 1 <= p && p <= 4,
                None => false,
            };
            if payment {
                Some(Sound::Payback)
            } else {
                Some(Sound::Success)
            }
        },
        Outcome::Forbidden => Some(Sound::Activate),
        Outcome::NotFound => Some(Sound::Register),
        Outcome::TransportError => Some(Sound::Error),
    }
}

/// The cue for a response status, `None` when no response came.
pub fn response_cue(port: Option<u32>, status: Option<u16>) -> (r: Option<Sound>)
    ensures
        r == outcome_cue_of(port, outcome_of(status)),
{
    outcome_cue(port, classify_response(status))
}

/// The cue played before the notification is sent.
pub open spec fn pre_dispatch_cue_of(port: Option<u32>) -> Option<Sound> {
    if is_admin_port(port) {
        Some(Sound::Admin)
    } else {
        None
    }
}

/// The cue for a suppressed read.
pub open spec fn suppression_cue_of(action: Action) -> Option<Sound> {
    if action == Action::SuppressWithSecondarySound {
        Some(Sound::Again)
    } else {
        None
    }
}

/// The record sent for an accepted scan.
pub struct ScanData {
    /// Upper-case hex card id.
    pub idm: String,
    /// Logical port of the reader, when its socket is known.
    pub usb_port: Option<u32>,
    /// ISO-8601 UTC time of the scan, with milliseconds.
    pub timestamp: String,
}

/// What to do with a read after the dedup decision.
pub enum ScanPlan {
    /// Send nothing; play the cue if there is one.
    Suppress { cue: Option<Sound> },
    /// Play `cue_before` if there is one, then send `data`.
    Send { cue_before: Option<Sound>, data: ScanData },
}

/// The logical port of an optional hardware path.
pub open spec fn port_of_path(usb_port: Option<Seq<char>>) -> Option<u32> {
    match usb_port {
        Some(p) => logical_port_of(p),
        None => None,
    }
}

pub open spec fn opt_view(s: Option<String>) -> Option<Seq<char>> {
    match s {
        Some(t) => Some(t@),
        None => None,
    }
}

/// Decide what to do with a read of card `idm` from the reader at hardware
/// path `usb_port`, at monotonic time `now_ms`: record it in `store`, and
/// either suppress it with the repeat cue or send a record stamped
/// `timestamp`, preceded by the admin cue on the admin port.
pub fn plan_scan(
    store: &mut DedupStore,
    idm: &String,
    usb_port: &Option<String>,
    now_ms: u64,
    timestamp: String,
) -> (r: ScanPlan)
    ensures
        ({
            let port = port_of_path(opt_view(*usb_port));
            let (m, action) = observed(old(store)@, port, idm@, now_ms);
            &&& final(store)@ == m
            &&& match r {
                ScanPlan::Suppress { cue } => action != Action::Notify && cue == suppression_cue_of(
                    action,
                ),
                ScanPlan::Send { cue_before, data } => {
                    &&& action == Action::Notify
                    &&& cue_before == pre_dispatch_cue_of(port)
                    &&& data.idm@ == idm@
                    &&& data.usb_port == port
                    &&& data.timestamp@ == timestamp@
                },
            }
        }),
{
    let port = match usb_port {
        Some(p) => usb_port_to_int(p.as_str()),
        None => None,
    };
    let action = store.observe(port, idm, now_ms);
    match action {
        Action::Notify => {},
        Action::SuppressWithSecondarySound => {
            return ScanPlan::Suppress { cue: Some(Sound::Again) };
        },
        Action::SuppressSilently => {
            return ScanPlan::Suppress { cue: None };
        },
    }
    let cue_before = match port {
        Some(5) => Some(Sound::Admin),
        _ => None,
    };
    ScanPlan::Send {
        cue_before,
        data: ScanData { idm: idm.clone(), usb_port: port, timestamp },
    }
}

/// The admin port notifies every read, cues it once before sending, and
/// plays no cue for any outcome.
pub proof fn admin_port_cues_once(
    m: Map<(u32, Seq<char>), crate::dedup::CardState>,
    card: Seq<char>,
    now: u64,
    outcome: Outcome,
)
    ensures
        observed(m, Some(5u32), card, now).1 == Action::Notify,
        observed(m, Some(5u32), card, now).0 == m,
        pre_dispatch_cue_of(Some(5u32)) == Some(Sound::Admin),
        outcome_cue_of(Some(5u32), outcome) is None,
{
}

} // verus!
