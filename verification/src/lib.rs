use vstd::prelude::*;

pub mod consts;
pub mod position;
pub mod map;
pub mod resource_pile;
pub mod tactics_card;
pub mod unit;
pub mod wonder;
pub mod city_pieces;
pub mod city;
pub mod civilization;
pub mod combat;
pub mod combat_listeners;
pub mod combat_roll;
pub mod combat_stats;
pub mod action_card;
pub mod card;
pub mod action_cost;
pub mod custom_actions;
pub mod advance;
pub mod content;
pub mod collect;
pub mod construct;
pub mod army;
pub mod barbarians;
pub mod ai_actions;
pub mod ai_collect;
pub mod ai_missions;
pub mod cache;
pub mod spy;
pub mod ordered;
