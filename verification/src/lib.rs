//! Library core of the kpasskey daemon, which lets a phone's fingerprint authorise PAM
//! decisions and WebAuthn requests on a desktop: the signed request, device records,
//! pairing windows, key identity, reply routing, the PAM socket's requests and replies,
//! CTAP2 encoding and CTAPHID framing, the command line, the settings rows and the BLE
//! proximity advertisement. Sockets, files, D-Bus, the uhid device and the radio are
//! driven by the program around it.

pub mod bytes;
pub mod primitives;
pub mod text;
pub mod ctaphid;
pub mod webauthn;
pub mod json;
pub mod link;
pub mod protocol;
pub mod pairing;
pub mod store;
pub mod router;
pub mod daemon;
pub mod selftest;
pub mod fidolink;
pub mod cli;
pub mod proximity;
pub mod manager;
