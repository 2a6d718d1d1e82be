//! Business rules of the Vigo quick-commerce backend: bills, slugs, phone
//! validation, catalog checks, image sniffing, payments, the order state
//! machine, the picker, rider and dispatch decisions, and the bookkeeping of
//! live-update channels.

pub mod pricing;
pub mod text;
pub mod slug;
pub mod auth;
pub mod money;
pub mod catalog;
pub mod media;
pub mod address;
pub mod order;
pub mod cart;
pub mod payments;
pub mod picking;
pub mod walk;
pub mod dispatch;
pub mod rider;
pub mod config;
pub mod records;
pub mod hub;
