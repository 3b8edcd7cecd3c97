//! Composition of a tenant's web GUI from versioned content packs.
//!
//! The crate resolves an inbound path against the routes declared by a
//! tenant's feature and auth packs (falling back to the layout entry
//! document), decides whether a session is required, and grafts rendered
//! fragments into the served HTML document.

pub mod auth;
pub mod config;
pub mod fragments;
pub mod html;
pub mod packs;
pub mod paths;
pub mod routing;
pub mod sdk;
pub mod secrets;
pub mod session;
pub mod tenant;
pub mod text;
pub mod worker;
