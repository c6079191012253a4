//! Motion links: couple the relative motion of one joint to another by a fixed
//! ratio, optionally sign-reversed, as gears and belts do.

pub mod handle;
pub mod ratio;
pub mod registry;
pub mod link;
pub mod table;
pub mod constraint;
