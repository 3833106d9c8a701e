//! The logic of the jcode desktop client: accounts, session workers, transcripts and tabs.
pub mod accounts;
pub mod activity;
pub mod bridge;
pub mod cards;
pub mod chores;
pub mod composer;
pub mod course;
pub mod demo;
pub mod duties;
pub mod errands;
pub mod events;
pub mod harness;
pub mod history;
pub mod json;
pub mod labels;
pub mod ledger;
pub mod mail;
pub mod models;
pub mod order;
pub mod panel;
pub mod recall;
pub mod remote;
pub mod roster;
pub mod rows;
pub mod scroll;
pub mod sessions;
pub mod sight;
pub mod steps;
pub mod surface;
pub mod tabs;
pub mod text;
pub mod todoist;
pub mod todos;
pub mod transcript;
pub mod turns;
pub mod typed;
pub mod view;
pub mod wording;
