pub mod errors;
pub mod text;
pub mod credentials;
pub mod clock;
pub mod token;
pub mod seqtools;
pub mod authstore;
pub mod domain;
pub mod social;
pub mod feed;
pub mod messaging;
