//! The record types stored on entity tapes, as plain data.

pub mod attributes;
pub mod feedseasonlist;
pub mod game;
pub mod gammasim;
pub mod globalevents;
pub mod glossarywords;
pub mod idols;
pub mod offseasonrecap;
pub mod offseasonsetup;
pub mod player;
pub mod renovationprogress;
pub mod shopsetup;
pub mod sponsordata;
pub mod stadium;
pub mod stadiumprefabs;
pub mod standings;
