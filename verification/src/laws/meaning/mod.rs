//! What each operation is for, said of the records themselves: who is answered how, what is
//! recorded, what moves, and what stays as it is.
//!
//! The statements speak of the fields of the state, of plain arithmetic, and of the few words of
//! [`readings`].
pub mod challenging;
pub mod enacting;
pub mod expiring;
pub mod founding;
pub mod proposing;
pub mod readings;
pub mod voting;
