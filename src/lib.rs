//! Normalisation of student-roster exports into one import format,
//! with a generated passphrase for every person.
pub mod text;
pub mod passphrase;
pub mod record;
pub mod normalize;
pub mod codec;
pub mod pipeline;
pub mod output;
