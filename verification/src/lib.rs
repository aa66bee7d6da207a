//! Finding the manifest link of an episode on the Kodik player, with the parsing and decisions proved in Verus.
pub mod text;
pub mod numbers;
pub mod html;
pub mod external;
pub mod js;
pub mod manifests;
pub mod chapters;
pub mod search;
pub mod flow;
