//! Picking the items of a preset from an open list with the mouse.

pub mod click_attempts;
pub mod click_plan;
pub mod home_activation;
pub mod hover;
pub mod list_map;
pub mod page_navigation;
pub mod page_relation;
pub mod scroll;
pub mod selection;
pub mod target;
