//! What the emitted sources import: the codec contracts and their errors.

pub use crate::codec::AsFixMessage;
pub use crate::codec::AsFixMessageField;
pub use crate::codec::FixParseError;
pub use crate::codec::FromFixMessage;
pub use crate::codec::FromFixMessageField;
pub use crate::codec::MessageDest;
