pub mod apply;
pub mod cli;
pub mod inspect;
pub mod json;
pub mod model;
pub mod profile;
pub mod renew;
pub mod reporter;
pub mod session;
pub mod system;
pub mod text;
