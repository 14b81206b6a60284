//! Selection of poems from a corpus: at random, by author, by exact key, and
//! one poem per calendar day with a fair share for every author.

pub mod codec;
mod draw;
pub mod errors;
pub mod order;
pub mod poem;
pub mod request_id;
pub mod select;

pub use codec::{decode, encode};
pub use errors::{Error, StoreError};
pub use poem::Poem;
pub use request_id::MakeRequestUuidV7;
pub use select::{pick_by_author, pick_of_the_day, pick_random, select, SelectionRequest};
