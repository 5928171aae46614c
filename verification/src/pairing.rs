//! Pairing windows.
//!
//! A pairing is a short, explicitly opened window carrying a single-use token. The QR code
//! carries the token (and the desktop's name) out of band, screen to camera.

use vstd::prelude::*;
use crate::bytes::bytes_equal;
use crate::primitives::{base64_url, base64_url_decoded, encode_base64_url, os_random};
use crate::text::{decimal, fixed_digits, push_decimal, push_fixed_digits};

verus! {

/// The port the phone connects to.
pub const DEFAULT_PHONE_PORT: u16 = 34719;

/// Long enough to walk to the phone and scan, short enough that a forgotten window closes.
pub const PAIRING_WINDOW_SECS: u64 = 120;

pub const TOKEN_LEN: usize = 32;

#[verifier::external_type_specification]
#[verifier::external_body]
pub struct ExInstant(std::time::Instant);

/// `std::time::Instant::now`: the current monotonic time; nothing about its value is stated.
#[verifier::external_body]
fn instant_now() -> (r: std::time::Instant) {
    std::time::Instant::now()
}

/// `std::time::Instant::elapsed`, as whole seconds and the sub-second nanoseconds
/// (`Duration::as_secs`, `Duration::subsec_nanos`, the latter documented below one
/// billion). The time that passed is not stated: it depends on the clock.
#[verifier::external_body]
fn elapsed_since(opened: &std::time::Instant) -> (r: (u64, u32))
    ensures
        r.1 < 1_000_000_000,
{
    let elapsed = opened.elapsed();
    (elapsed.as_secs(), elapsed.subsec_nanos())
}

pub struct PairingSession {
    pub token: [u8; TOKEN_LEN],
    pub uri: String,
    /// Six digits shown on both screens so the user can confirm they paired the right pair.
    pub short_code: String,
    pub label: String,
    /// When the window opened, on the monotonic clock.
    pub opened: std::time::Instant,
}

/// What a pairing session holds: its token, URI, short code and label, and the moment it
/// opened, from which its time is counted.
pub struct SessionView {
    pub token: Seq<u8>,
    pub uri: Seq<char>,
    pub short_code: Seq<char>,
    pub label: Seq<char>,
    pub opened: std::time::Instant,
}

impl View for PairingSession {
    type V = SessionView;

    open spec fn view(&self) -> SessionView {
        SessionView {
            token: self.token@,
            uri: self.uri@,
            short_code: self.short_code@,
            label: self.label@,
            opened: self.opened,
        }
    }
}

pub open spec fn session_view(s: Option<PairingSession>) -> Option<SessionView> {
    match s {
        Some(session) => Some(session@),
        None => None,
    }
}

impl PairingSession {
    /// Whether the window has run out, by the monotonic clock; how much time has passed
    /// is the clock's to say.
    pub fn expired(&self) -> (r: bool) {
        let (secs, _) = elapsed_since(&self.opened);
        expired_at(secs)
    }
}

/// Whether a window that has been open `secs` whole seconds has run out.
pub open spec fn expired(secs: u64) -> bool {
    secs >= PAIRING_WINDOW_SECS
}

/// Whether a window that has been open `secs` whole seconds has run out.
pub fn expired_at(secs: u64) -> (r: bool)
    ensures
        r == expired(secs),
{
    secs >= PAIRING_WINDOW_SECS
}

/// Whole seconds left of the window after `secs` seconds and `nanos` nanoseconds.
pub open spec fn remaining_secs(secs: u64, nanos: u32) -> u32 {
    if secs >= PAIRING_WINDOW_SECS {
        0
    } else if nanos > 0 {
        (PAIRING_WINDOW_SECS - 1 - secs) as u32
    } else {
        (PAIRING_WINDOW_SECS - secs) as u32
    }
}

/// The single-byte step of the short code: `value * 31 + byte`, wrapping at 2^32.
pub open spec fn code_step(value: u32, byte: u8) -> u32 {
    ((value as int * 31 + byte as int) % 0x1_0000_0000) as u32
}

/// The short-code value of a byte string.
pub open spec fn code_value(bytes: Seq<u8>) -> u32
    decreases bytes.len(),
{
    if bytes.len() == 0 {
        0
    } else {
        code_step(code_value(bytes.drop_last()), bytes.last())
    }
}

/// The six digits of a token: its first four bytes folded into a number, shown as the last
/// six decimal digits, zero-padded.
pub open spec fn short_code_spec(token: Seq<u8>) -> Seq<char> {
    let first = if token.len() < 4 { token } else { token.take(4) };
    fixed_digits((code_value(first) % 1_000_000) as nat, 6)
}

/// The pairing URI for a token: version, the desktop's name, the token in unpadded
/// URL-safe Base64 and the address the phone connects to.
pub open spec fn pairing_uri(host: Seq<char>, token: Seq<u8>) -> Seq<char> {
    "kpk://pair?v=1&h="@ + host + "&t="@ + base64_url(token) + "&a="@ + "127.0.0.1"@ + ":"@ + decimal(
        DEFAULT_PHONE_PORT as nat,
    )
}

/// Six digits shown on both screens.
pub fn short_code(token: &[u8]) -> (r: String)
    ensures
        r@ == short_code_spec(token@),
{
    let count = if token.len() < 4 { token.len() } else { 4 };
    let mut value: u32 = 0;
    let mut i: usize = 0;
    while i < count
        invariant
            count <= token@.len(),
            count == if token@.len() < 4 { token@.len() } else { 4 },
            i <= count,
            value == code_value(token@.take(i as int)),
        decreases count - i,
    {
        assert(token@.take(i + 1).drop_last() =~= token@.take(i as int));
        value = (((value as u64) * 31 + token[i] as u64) % 0x1_0000_0000) as u32;
        i = i + 1;
    }
    proof {
        if token@.len() < 4 {
            assert(token@.take(count as int) =~= token@);
        }
    }
    let mut code = String::new();
    push_fixed_digits(&mut code, (value % 1_000_000) as u64, 6);
    code
}

fn build_uri(host: &str, token: &[u8]) -> (r: String)
    ensures
        r@ == pairing_uri(host@, token@),
        base64_url_decoded(base64_url(token@)) == Some(token@),
{
    let mut uri = String::new();
    uri.append("kpk://pair?v=1&h=");
    uri.append(host);
    uri.append("&t=");
    let encoded = encode_base64_url(token);
    uri.append(encoded.as_str());
    uri.append("&a=");
    uri.append("127.0.0.1");
    uri.append(":");
    push_decimal(&mut uri, DEFAULT_PHONE_PORT as u64);
    uri
}

/// Why a pairing window could not be opened.
#[derive(Debug, Clone, Copy, PartialEq, Eq, Structural)]
pub enum PairingError {
    EntropyUnavailable,
}

impl PairingError {
    /// The message the daemon reports for this error.
    pub fn message(&self) -> (r: String)
        ensures
            r@ == "drawing a pairing token from the OS CSPRNG"@,
    {
        "drawing a pairing token from the OS CSPRNG".to_owned()
    }
}

/// Whether an open window matches `token` after `secs` seconds: `None` when none is open
/// or it has run out.
pub open spec fn window_matches(current: Option<SessionView>, token: Seq<u8>, secs: u64) -> bool {
    current matches Some(s) && !expired(secs) && s.token == token
}

pub struct Pairings {
    current: Option<PairingSession>,
}

impl View for Pairings {
    type V = Option<SessionView>;

    closed spec fn view(&self) -> Option<SessionView> {
        session_view(self.current)
    }
}

impl Pairings {
    pub fn new() -> (r: Self)
        ensures
            r@ is None,
    {
        Self { current: None }
    }

    /// Opens a window, replacing any existing one — a second Pair click should restart
    /// rather than silently reuse a token the user has already walked away from. `host` is
    /// the name of this machine. Fails, leaving any window as it was, if the OS entropy
    /// source is unavailable.
    pub fn begin(&mut self, label: String, host: &str) -> (r: Result<&PairingSession, PairingError>)
        ensures
            r matches Ok(session) ==> final(self)@ == Some(session@) && session.label == label
                && session.uri@ == pairing_uri(host@, session.token@)
                && session.short_code@ == short_code_spec(session.token@)
                && base64_url_decoded(base64_url(session.token@)) == Some(session.token@),
            r is Err ==> r == Err::<&PairingSession, PairingError>(PairingError::EntropyUnavailable)
                && final(self)@ == old(self)@,
    {
        let token = match os_random::<TOKEN_LEN>() {
            Some(token) => token,
            None => return Err(PairingError::EntropyUnavailable),
        };
        let uri = build_uri(host, &token);
        let short_code = short_code(&token);
        self.current = Some(PairingSession { token, uri, short_code, label, opened: instant_now() });
        match &self.current {
            Some(session) => Ok(session),
            None => Err(PairingError::EntropyUnavailable),
        }
    }

    /// Closes the window if it has been open `secs` whole seconds and its time is up.
    pub fn expire_if_due_at(&mut self, secs: u64)
        ensures
            final(self)@ == if old(self)@ is Some && expired(secs) { None } else { old(self)@ },
    {
        if self.current.is_some() && expired_at(secs) {
            self.current = None;
        }
    }

    /// Closes the window if its time is up; how much time has passed is the clock's to say.
    pub fn expire_if_due(&mut self)
        ensures
            final(self)@ is None || final(self)@ == old(self)@,
            old(self)@ is None ==> final(self)@ is None,
    {
        let secs = match &self.current {
            Some(session) => elapsed_since(&session.opened).0,
            None => 0,
        };
        self.expire_if_due_at(secs);
    }

    /// Closes any open window.
    pub fn cancel(&mut self)
        ensures
            final(self)@ is None,
    {
        self.current = None;
    }

    /// The whole seconds left in the window after `secs` seconds and `nanos` nanoseconds
    /// have passed since it opened; a window that has run out is closed and counts 0.
    pub fn seconds_left_at(&mut self, secs: u64, nanos: u32) -> (r: u32)
        ensures
            old(self)@ is None ==> r == 0 && final(self)@ is None,
            old(self)@ is Some && expired(secs) ==> r == 0 && final(self)@ is None,
            old(self)@ is Some && !expired(secs) ==> r == remaining_secs(secs, nanos) && final(self)@ == old(self)@,
    {
        if secs >= PAIRING_WINDOW_SECS {
            self.current = None;
        }
        match &self.current {
            Some(_) => {
                if nanos > 0 {
                    (PAIRING_WINDOW_SECS - 1 - secs) as u32
                } else {
                    (PAIRING_WINDOW_SECS - secs) as u32
                }
            },
            None => 0,
        }
    }

    /// Seconds remaining in the current window, or 0 when none is open. The window may
    /// close here if its time is up; how much time has passed is the clock's.
    pub fn seconds_left(&mut self) -> (r: u32)
        ensures
            r <= PAIRING_WINDOW_SECS,
            final(self)@ is None ==> r == 0,
            final(self)@ is None || final(self)@ == old(self)@,
            old(self)@ is None ==> final(self)@ is None,
    {
        let elapsed = match &self.current {
            Some(session) => Some(elapsed_since(&session.opened)),
            None => None,
        };
        match elapsed {
            Some((secs, nanos)) => self.seconds_left_at(secs, nanos),
            None => 0,
        }
    }

    /// Consumes the window if `token` matches and it has been open `secs` whole seconds:
    /// a token pairs exactly one device. A window whose time is up is closed and matches
    /// nothing.
    pub fn take_matching_at(&mut self, token: &[u8], secs: u64) -> (r: Option<PairingSession>)
        ensures
            window_matches(old(self)@, token@, secs) ==> (r matches Some(session) && Some(session@)
                == old(self)@ && final(self)@ is None),
            !window_matches(old(self)@, token@, secs) ==> r is None,
            old(self)@ is Some && expired(secs) ==> final(self)@ is None,
            !window_matches(old(self)@, token@, secs) && !expired(secs) ==> final(self)@ == old(self)@,
            old(self)@ is None ==> final(self)@ is None,
    {
        if secs >= PAIRING_WINDOW_SECS {
            self.current = None;
        }
        let matches = match &self.current {
            Some(session) => bytes_equal(&session.token, token),
            None => false,
        };
        if matches {
            self.current.take()
        } else {
            None
        }
    }

    /// Consumes the window if `token` matches, so a token can pair exactly one device. The
    /// window may close here if its time is up; how much time has passed is the clock's.
    pub fn take_matching(&mut self, token: &[u8]) -> (r: Option<PairingSession>)
        ensures
            r matches Some(session) ==> Some(session@) == old(self)@ && session@.token == token@
                && final(self)@ is None,
            (old(self)@ matches Some(s) && s.token != token@) ==> r is None,
            r is None ==> final(self)@ is None || final(self)@ == old(self)@,
            (old(self)@ matches Some(s) && s.token == token@ && r is None) ==> final(self)@ is None,
            old(self)@ is None ==> r is None && final(self)@ is None,
    {
        let secs = match &self.current {
            Some(session) => elapsed_since(&session.opened).0,
            None => 0,
        };
        self.take_matching_at(token, secs)
    }
}

/// A token pairs exactly one device: once a window has been consumed, no token matches
/// until a new window is opened.
pub proof fn lemma_token_single_use(consumed: Option<SessionView>, token: Seq<u8>, secs: u64)
    requires
        consumed is None,
    ensures
        !window_matches(consumed, token, secs),
{
}

/// A window whose time is up matches no token, its own included.
pub proof fn lemma_expired_window_matches_nothing(current: Option<SessionView>, token: Seq<u8>, secs: u64)
    requires
        expired(secs),
    ensures
        !window_matches(current, token, secs),
{
}

proof fn lemma_fixed_digits(n: nat, width: nat)
    ensures
        fixed_digits(n, width).len() == width,
        forall|i: int| 0 <= i < width ==> '0' <= #[trigger] fixed_digits(n, width)[i] <= '9',
    decreases width,
{
    if width > 0 {
        lemma_fixed_digits(n / 10, (width - 1) as nat);
        let head = fixed_digits(n / 10, (width - 1) as nat);
        assert forall|i: int| 0 <= i < width implies '0' <= #[trigger] fixed_digits(n, width)[i] <= '9' by {
            if i < width - 1 {
                assert(fixed_digits(n, width)[i] == head[i]);
            }
        }
    }
}

/// Every short code is six decimal digits, whatever the token.
pub proof fn lemma_short_code_six_digits(token: Seq<u8>)
    ensures
        short_code_spec(token).len() == 6,
        forall|i: int| 0 <= i < 6 ==> '0' <= #[trigger] short_code_spec(token)[i] <= '9',
{
    let first = if token.len() < 4 { token } else { token.take(4) };
    lemma_fixed_digits((code_value(first) % 1_000_000) as nat, 6);
}

/// The token a window's URI carries brings the phone back to that window: sent back as
/// the request's `token`, it decodes to the window's token, which the window matches for
/// as long as it is open.
pub proof fn lemma_uri_token_matches(session: SessionView, sent: Seq<char>, secs: u64)
    requires
        sent == base64_url(session.token),
        base64_url_decoded(base64_url(session.token)) == Some(session.token),
        !expired(secs),
    ensures
        base64_url_decoded(sent) == Some(session.token),
        window_matches(Some(session), session.token, secs),
{
}

} // verus!
