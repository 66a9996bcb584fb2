//! A safety net against compromised PKGBUILDs from the AUR.
//!
//! A PKGBUILD and the scriptlets next to it are held against a table of
//! detection rules ([`patterns`]) and against checks of their fields
//! ([`checks`]). What is found is put in order ([`ordering`]) and comes to a
//! trust score and a tier ([`report`], [`scanner`]). The previous version of
//! the PKGBUILD ([`diff`]) and the package's standing in the AUR ([`rpc`]) add
//! to that. [`audit`] and [`hook`] decide what follows from the verdict, and
//! [`ui`] says it. [`verdict_cache`] remembers what the user has accepted.
//!
//! Every function states its result. Beside that stand laws, proof functions
//! named `law_`, that say what a result is over all inputs or how two results
//! relate: those of one module at its end, those that say what the notions of
//! several modules come to in [`text_laws`], [`check_laws`], [`pattern_laws`],
//! [`verdict_laws`], [`reputation_laws`], [`hook_laws`] and [`display_laws`].
//!
//! Texts are sequences of characters. What the crate takes on trust, the
//! regular-expression engine and the digest among it, stands in [`outside`].

pub mod audit;
pub mod check_laws;
pub mod checks;
pub mod diff;
pub mod display_laws;
pub mod hook;
pub mod hook_laws;
pub mod listing;
pub mod numeral;
pub mod ordering;
pub mod outside;
pub mod parent;
pub mod paths;
pub mod pattern_laws;
pub mod patterns;
pub mod report;
pub mod reputation_laws;
pub mod rpc;
pub mod scanner;
pub mod scriptlets;
pub mod text;
pub mod text_laws;
pub mod ui;
pub mod verdict_cache;
pub mod verdict_laws;
pub mod wrap;
