//! A file-driven form service: form definitions, submission validation,
//! stored answers, admin tokens, UI languages and the request decisions of
//! the web front end.

pub mod text;
pub mod num;
pub mod auth;
pub mod i18n;
pub mod values;
pub mod forms;
pub mod templates;
pub mod handlers;
pub mod watch;
pub mod db;
