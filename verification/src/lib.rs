/// The failure taxonomy and its mapping to HTTP status and body.
pub mod errors;
/// The request handlers: one storage operation each, rendered as JSON.
pub mod handlers;
/// JSON rendering of the entities, with its character-exact specification.
pub mod json;
/// The laws the storage operations obey, stated and proved.
pub mod laws;
/// The two entities and the request and response bodies.
pub mod models;
/// The row-to-entity mapping over the database driver's rows.
pub mod rows;
/// The SQL statements the service issues.
pub mod sql;
/// The persisted state and the semantics of each statement on it.
pub mod store;
