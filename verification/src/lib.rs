//! Deemak: a world of lockable objects (levels and chests) arranged in a
//! directory tree, where progressing past one object requires a secret
//! obtained by solving another.
//!
//! The heart of the crate is the lock/solve/unlock protocol: a
//! two-character lock-state code on every object (`codec`), a deterministic
//! keyed transform used as a commitment scheme and a salted one-way hash
//! (`crypto`), a chain builder that wires one level's solution to another
//! object's lock (`devops`), and the two player-facing operations `solve`
//! and `unlock` (`protocol`). Objects live in a modelled world tree
//! (`store`), whose lock permissions gate every operation (`lockperm`).
//!
//! Around the protocol stand the shell's supporting pieces: directory
//! navigation (`nav`), locating the world root and rewriting paths for
//! display (`findroot`), log filtering and collection (`logmsg`), the
//! output buffer (`printbuf`), world-session management (`filemgr`),
//! metadata validation (`validsekai`), and the command layer (`commands`).

pub mod errors;

pub mod codec;

pub mod strkit;

pub mod crypto;

pub mod store;

pub mod lockperm;

pub mod protocol;

pub mod devops;

pub mod nav;

pub mod findroot;

pub mod logmsg;

pub mod printbuf;

pub mod filemgr;

pub mod validsekai;

pub mod auth;

pub mod config;

pub mod server;

pub mod commands;
