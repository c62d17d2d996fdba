
pub mod champions;
pub mod html;
pub mod language;
pub mod notes;
pub mod patch;
pub mod patches;
pub mod requests;
pub mod text;
