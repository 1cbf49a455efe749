//! The resolvers, one for each kind of backend.

pub mod aws_cfn;
pub mod aws_common;
pub mod aws_secret_manager;
pub mod aws_ssm;
pub mod plaintext;
pub mod pulumi;
pub mod vault;
