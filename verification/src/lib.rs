//! Game rules of a small base-building and card-expedition game:
//! resources, buildings, cards, the exploration map and the campaign state machine.

pub mod card;
pub mod data;
pub mod expedition;
pub mod font;
pub mod frame;
pub mod game;
pub mod icons;
pub mod input;
pub mod labels;
pub mod map;
pub mod random;
pub mod render;
pub mod screens;
pub mod text;
pub mod widgets;
