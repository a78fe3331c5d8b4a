//! Integrity and provenance checks for a bundle of CI evidence files described
//! by a signed JSON manifest, and the HTML pieces that present the result.

pub mod badges;
pub mod content;
pub mod front_page;
pub mod frontend;
pub mod json;
pub mod manifest;
pub mod markup;
pub mod proofdown;
pub mod render;
pub mod report;
pub mod schema;
pub mod signature;
pub mod text;
