//! Exchange of a forms-based identity-provider login for temporary cloud
//! credentials: extracting the base64 SAML payload from the login response,
//! parsing the assertion's attributes, selecting the requested federated
//! role, driving the single-retry login flow, and rendering the final
//! credentials as shell export statements.

pub mod scan;
pub mod extract;
pub mod codec;
pub mod roles;
pub mod render;
pub mod flow;
