//! Issuing and checking proofs of a verifiable delay function over class
//! groups. Proved here: the proof framing, the validity of encoded group
//! elements, and that a generated proof is accepted on the verification path
//! (`boundary`). The group arithmetic, and with it the short Wesolowski
//! equation and the prime it uses, are `vdf`'s. The modules `oracle` and
//! `modpow` hold a hash-to-prime oracle over `challenge || pi` and `2^t mod l`
//! as standalone, proved components; the verification path does not use them,
//! since `vdf`'s solver derives its prime from other bytes.
pub mod boundary;
pub mod codec;
pub mod framing;
pub mod modpow;
pub mod oracle;
