//! BLE proximity beacon: carries a per-verification nonce over a minimum-power radio link
//! so that a network-only attacker cannot produce it. The advertisement is described here;
//! registering it with BlueZ over D-Bus is the program's part.

use vstd::prelude::*;
use crate::cli::parse_unsigned_max;
use crate::cli::parse_unsigned;
use crate::json::string_eq;
use crate::primitives::os_random;

verus! {

/// Service UUID under which the proximity nonce is advertised as GATT service data.
pub open spec fn proximity_service_uuid() -> Seq<char> {
    "6f1d2b1a-9c4e-4f57-a1d3-7b8e2c05f9a4"@
}

/// The proximity service UUID.
pub fn proximity_service_uuid_text() -> (r: String)
    ensures
        r@ == proximity_service_uuid(),
{
    "6f1d2b1a-9c4e-4f57-a1d3-7b8e2c05f9a4".to_owned()
}

/// Advertised nonce length. 16 bytes fits extended advertising; legacy 31-byte advertising
/// forces a shorter value, still ample for a single-use token with a 30 s life.
pub const NONCE_LEN: usize = 16;

/// Minimum transmit power in dBm. The controller clamps this to its own floor; the intent
/// is a beacon readable at roughly arm's length rather than across a building.
pub const MIN_TX_POWER_DBM: i16 = -34;

/// A nonce that has been broadcast but not yet echoed back inside a signed assertion. It has
/// no `Debug`: a nonce must never reach a log.
#[derive(Clone, PartialEq, Eq)]
pub struct ProximityNonce([u8; NONCE_LEN]);

impl View for ProximityNonce {
    type V = Seq<u8>;

    closed spec fn view(&self) -> Seq<u8> {
        self.0@
    }
}

/// Why no nonce could be drawn.
#[derive(Debug, Clone, Copy, PartialEq, Eq, Structural)]
pub enum ProximityError {
    EntropyUnavailable,
}

impl ProximityError {
    /// The message reported for this error.
    pub fn message(&self) -> (r: String)
        ensures
            r@ == "drawing a proximity nonce from the OS CSPRNG"@,
    {
        "drawing a proximity nonce from the OS CSPRNG".to_owned()
    }
}

impl ProximityNonce {
    /// Draws a fresh nonce from the OS CSPRNG; fails if the entropy source is unavailable.
    /// The bytes are random.
    pub fn generate() -> (r: Result<Self, ProximityError>)
        ensures
            r matches Ok(nonce) ==> nonce@.len() == NONCE_LEN,
            r is Err ==> r matches Err(ProximityError::EntropyUnavailable),
    {
        match os_random::<NONCE_LEN>() {
            Some(bytes) => Ok(ProximityNonce(bytes)),
            None => Err(ProximityError::EntropyUnavailable),
        }
    }

    /// The nonce's bytes.
    pub fn as_bytes(&self) -> (r: &[u8; NONCE_LEN])
        ensures
            r@ == self@,
    {
        &self.0
    }
}

/// A nonce is its bytes: two nonces are the same exactly when their bytes are.
pub proof fn lemma_nonce_is_its_bytes(n1: ProximityNonce, n2: ProximityNonce)
    ensures
        n1 == n2 <==> n1@ == n2@,
{
    if n1@ == n2@ {
        assert(n1.0 =~= n2.0);
    }
}

/// The advertisement BlueZ broadcasts: a peripheral advertising the proximity service,
/// with the nonce as its service data, at minimum power.
pub struct Advertisement {
    nonce: ProximityNonce,
    released: bool,
}

/// What an advertisement says, and whether BlueZ has dropped it.
pub struct AdvertisementView {
    pub nonce: Seq<u8>,
    pub released: bool,
}

impl View for Advertisement {
    type V = AdvertisementView;

    closed spec fn view(&self) -> AdvertisementView {
        AdvertisementView { nonce: self.nonce@, released: self.released }
    }
}

impl Advertisement {
    /// The advertisement of `nonce`, not yet released.
    pub fn new(nonce: ProximityNonce) -> (r: Self)
        ensures
            r@.nonce == nonce@,
            !r@.released,
    {
        Advertisement { nonce, released: false }
    }

    /// BlueZ calls this when it has dropped the advertisement of its own accord. Recording
    /// it keeps the beacon from unregistering something that no longer exists, which BlueZ
    /// answers with `DoesNotExist`.
    pub fn release(&mut self)
        ensures
            final(self)@.released,
            final(self)@.nonce == old(self)@.nonce,
    {
        self.released = true;
    }

    /// Whether BlueZ has released the advertisement.
    pub fn released(&self) -> (r: bool)
        ensures
            r == self@.released,
    {
        self.released
    }

    /// Whether stopping the beacon has to unregister the advertisement: not once BlueZ
    /// has released it.
    pub fn needs_unregister(&self) -> (r: bool)
        ensures
            r == !self@.released,
    {
        !self.released
    }

    /// The advertisement type: `peripheral`.
    pub fn advertisement_type(&self) -> (r: String)
        ensures
            r@ == "peripheral"@,
    {
        "peripheral".to_owned()
    }

    /// The advertised services: the proximity service alone.
    pub fn service_uuids(&self) -> (r: Vec<String>)
        ensures
            r@.len() == 1,
            r@[0]@ == proximity_service_uuid(),
    {
        let mut uuids: Vec<String> = Vec::new();
        uuids.push(proximity_service_uuid_text());
        uuids
    }

    /// The service data: the nonce's bytes, under the proximity service's UUID.
    pub fn service_data(&self) -> (r: (String, Vec<u8>))
        ensures
            r.0@ == proximity_service_uuid(),
            r.1@ == self@.nonce,
    {
        let bytes = self.nonce.as_bytes();
        let mut data: Vec<u8> = Vec::new();
        let mut i: usize = 0;
        while i < NONCE_LEN
            invariant
                i <= NONCE_LEN,
                bytes@.len() == NONCE_LEN,
                data@ == bytes@.take(i as int),
            decreases NONCE_LEN - i,
        {
            data.push(bytes[i]);
            assert(bytes@.take(i + 1) =~= bytes@.take(i as int).push(bytes@[i as int]));
            i = i + 1;
        }
        assert(bytes@.take(NONCE_LEN as int) =~= bytes@);
        (proximity_service_uuid_text(), data)
    }

    /// The transmit power: the minimum.
    pub fn tx_power(&self) -> (r: i16)
        ensures
            r == MIN_TX_POWER_DBM,
    {
        MIN_TX_POWER_DBM
    }
}

// ---------------------------------------------------------------------------------------
// The radio self-test's command line.

/// The adapter to advertise on and for how many seconds.
pub struct Options {
    pub adapter: String,
    pub seconds: u64,
}

pub struct OptionsView {
    pub adapter: Seq<char>,
    pub seconds: u64,
}

/// The options before any argument: adapter `/org/bluez/hci0`, five seconds.
pub open spec fn default_options() -> OptionsView {
    OptionsView { adapter: "/org/bluez/hci0"@, seconds: 5 }
}

/// Reads the arguments in order onto `options`; the first problem is the answer.
pub open spec fn read_options(rest: Seq<Seq<char>>, options: OptionsView) -> Result<OptionsView, Seq<char>>
    decreases rest.len(),
{
    if rest.len() == 0 {
        Ok(options)
    } else if rest[0] == "--adapter"@ {
        if rest.len() < 2 {
            Err("--adapter needs a D-Bus object path"@)
        } else {
            read_options(rest.skip(2), OptionsView { adapter: rest[1], ..options })
        }
    } else if rest[0] == "--seconds"@ {
        if rest.len() < 2 {
            Err("--seconds needs a number"@)
        } else {
            match parse_unsigned(rest[1], u64::MAX as int) {
                Ok(n) => read_options(rest.skip(2), OptionsView { seconds: n as u64, ..options }),
                Err(_) => Err(rest[1] + " is not a number"@),
            }
        }
    } else {
        Err("unknown argument "@ + rest[0])
    }
}

pub open spec fn options_result(r: Result<Options, String>) -> Result<OptionsView, Seq<char>> {
    match r {
        Ok(o) => Ok(OptionsView { adapter: o.adapter@, seconds: o.seconds }),
        Err(message) => Err(message@),
    }
}

/// Reads the radio self-test's arguments (after the program's name).
pub fn parse_options(args: &Vec<String>) -> (r: Result<Options, String>)
    ensures
        options_result(r) == read_options(args@.map_values(|a: String| a@), default_options()),
{
    let ghost view = args@.map_values(|a: String| a@);
    let mut options = Options { adapter: "/org/bluez/hci0".to_owned(), seconds: 5 };
    let mut i: usize = 0;
    assert(view.skip(0) =~= view);
    while i < args.len()
        invariant
            i <= args@.len(),
            view == args@.map_values(|a: String| a@),
            read_options(view, default_options()) == read_options(
                view.skip(i as int),
                OptionsView { adapter: options.adapter@, seconds: options.seconds },
            ),
        decreases args@.len() - i,
    {
        let arg = &args[i];
        let ghost here = view.skip(i as int);
        let ghost before = OptionsView { adapter: options.adapter@, seconds: options.seconds };
        assert(here[0] == arg@);
        if string_eq(arg, "--adapter") {
            if i + 1 >= args.len() {
                return Err("--adapter needs a D-Bus object path".to_owned());
            }
            options.adapter = args[i + 1].clone();
            assert(here[1] == options.adapter@);
        } else if string_eq(arg, "--seconds") {
            if i + 1 >= args.len() {
                return Err("--seconds needs a number".to_owned());
            }
            let value = &args[i + 1];
            assert(here[1] == value@);
            match parse_unsigned_max(value.as_str(), u64::MAX) {
                Ok(n) => {
                    options.seconds = n;
                },
                Err(_) => {
                    let mut message = value.clone();
                    message.append(" is not a number");
                    return Err(message);
                },
            }
        } else {
            let mut message = "unknown argument ".to_owned();
            message.append(arg.as_str());
            return Err(message);
        }
        assert(here.skip(2) =~= view.skip(i + 2));
        assert(read_options(here, before) == read_options(
            here.skip(2),
            OptionsView { adapter: options.adapter@, seconds: options.seconds },
        ));
        i = i + 2;
    }
    assert(view.skip(i as int) =~= Seq::<Seq<char>>::empty());
    Ok(options)
}

} // verus!
