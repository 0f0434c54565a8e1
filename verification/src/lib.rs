//! A honeypot moderation policy for a chat community.
//!
//! Certain channels are designated as decoys: any member who posts in one of
//! them, other than an allow-listed account or the community's owner, is to be
//! banned and publicly called out. This crate holds the decision logic: the
//! policy store built from configuration, the pure per-message decision
//! engine, the enforcement plan and outcome records, and the routing that
//! turns an inbound event into an action. The platform client that delivers
//! events and performs the remote calls lives outside the crate.

pub mod adapter;
pub mod bot;
pub mod decision;
pub mod enforce;

pub use bot::HoneyPotBot;
pub use bot::channels_of_interest;
