//! Charcoal, a command line dictionary: the verified core.
//!
//! Charcoal looks words up in the Youdao dictionary and has them spoken by Google's
//! text-to-speech service, keeping what it fetched in a local cache.
pub mod app;
pub mod lang;
pub mod suggestion;
pub mod text;
pub mod word;

pub use app::cache::{Cache, CacheKey};
pub use app::cli::{Cli, Commands};
pub use app::config::Config;
pub use app::App;
pub use lang::Lang;
pub use suggestion::Suggestion;
pub use word::frontend::SingleEntry;
pub use word::speech::Speech;
pub use word::{Acquire, Answer, ExactQuery, Question};
