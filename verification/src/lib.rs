//! Layout translation and schedule evaluation for a Xibo digital signage
//! player, with the logic verified by Verus.

pub mod text;
pub mod xml;
pub mod schedule;
pub mod layout;
