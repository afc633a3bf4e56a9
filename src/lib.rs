// The interface model: raw member descriptions, accepted signatures, violations.
pub mod model;
// The constraint validator, which gathers every violation in one pass.
pub mod validate;
// Plans of the server dispatcher and the client request builders, and diagnostics.
pub mod generate;
// The dispatcher's call-time steps: routing, argument extraction and binding,
// and building client calls.
pub mod dispatch;
// Laws that relate validation, dispatch and client calls.
pub mod laws;
