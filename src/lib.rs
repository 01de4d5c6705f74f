//! Automation rule evaluation and dispatch engine.
//!
//! Rules pair a trigger with an action. A dispatch pass evaluates every rule of
//! a user against one context snapshot, filters them by activity and cooldown,
//! orders them by priority, and hands each to an action executor in turn.
pub mod context;
pub mod condition;
pub mod trigger;
pub mod rule;
pub mod selection;
pub mod dispatch;
pub mod local_crypto;
pub mod notification;
pub mod cron;
