pub mod errors;
pub mod text;
pub mod dependency;
pub mod numbers;
pub mod timestamps;
pub mod proposal;
pub mod lifecycle;
pub mod health;
pub mod audit;
pub mod json;
pub mod changeset;
pub mod field_lists;
pub mod operation;
pub mod replay;
pub mod markdown;
pub mod tools;
pub mod evidence;
pub mod repository;
pub mod legacy;
pub mod generate;
pub mod oplog;
pub mod uids;
pub mod stored_args;
