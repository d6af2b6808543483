//! The service's settings and the rules they must meet.

use crate::seqs::{first_index, lemma_first_index_is};
use crate::text::same_text;
use vstd::prelude::*;

verus! {

/// Where the service listens.
#[derive(Debug, Clone)]
pub struct ServerConfig {
    pub host: String,
    pub port: u16,
}

/// The embedded store and its journaling.
#[derive(Debug, Clone)]
pub struct DatabaseConfig {
    pub url: String,
    pub max_connections: u32,
    pub wal: bool,
    pub wal_autocheckpoint: i32,
}

/// One writer: how many items make a batch, and how long a smaller batch
/// may wait.
#[derive(Debug, Clone, Copy, PartialEq, Eq, Structural)]
pub struct WriterConfig {
    pub batch_size: usize,
    pub flush_interval_ms: u64,
}

/// Whether bearer tokens are asked for, and how they are verified.
#[derive(Debug, Clone)]
pub struct AuthConfig {
    pub enabled: bool,
    pub secret_path: Option<String>,
    pub algorithm: Option<String>,
}

/// One retention rule: whether it runs, how old a row may get, and when the
/// sweeper fires.
#[derive(Debug, Clone)]
pub struct DataRetentionConfig {
    pub enabled: bool,
    pub period_in_day: u32,
    pub cron: String,
}

/// The prefix index for execution names.
#[derive(Debug, Clone, Copy, PartialEq, Eq, Structural)]
pub struct ExecutionSuggestConfig {
    pub enabled: bool,
    pub min_query_len: usize,
    pub max_query_len: usize,
    pub max_candidates: usize,
}

/// A writer's settings under the name they are configured with.
#[derive(Debug, Clone)]
pub struct NamedWriterConfig {
    pub name: String,
    pub config: WriterConfig,
}

/// A retention rule under the name it is configured with.
#[derive(Debug, Clone)]
pub struct NamedRetentionConfig {
    pub name: String,
    pub config: DataRetentionConfig,
}

/// All settings of the service. Writers and retention rules are kept by name,
/// each name once.
#[derive(Debug, Clone)]
pub struct Config {
    pub server: ServerConfig,
    pub database: DatabaseConfig,
    pub writers: Vec<NamedWriterConfig>,
    pub auth: AuthConfig,
    pub data_retention: Vec<NamedRetentionConfig>,
    pub execution_suggest: ExecutionSuggestConfig,
}

/// Write-ahead journaling is on unless the settings say otherwise.
pub fn default_wal() -> (r: bool)
    ensures
        r,
{
    true
}

/// Pages between two automatic checkpoints of the journal.
pub fn default_wal_autocheckpoint() -> (r: i32)
    ensures
        r == 1000,
{
    1000
}

/// Bearer tokens are not asked for unless the settings say so.
pub fn default_auth_enabled() -> (r: bool)
    ensures
        !r,
{
    false
}

/// A retention rule does not run unless the settings say so.
pub fn default_maintenance_enabled() -> (r: bool)
    ensures
        !r,
{
    false
}

/// Days that a row is kept.
pub fn default_data_retention_days() -> (r: u32)
    ensures
        r == 90,
{
    90
}

/// The sweeper's schedule: Sundays at three in the morning.
pub fn default_maintenance_cron() -> (r: String)
    ensures
        r@ == "0 0 3 * * Sun"@,
{
    "0 0 3 * * Sun".to_owned()
}

/// The message with which settings are refused that ask for bearer tokens
/// without saying how to verify them.
pub open spec fn auth_incomplete_message() -> Seq<char> {
    "Auth is enabled but secret_path and algorithm are required"@
}

/// Whether a writer's settings are kept under `name`.
pub open spec fn writer_named(name: Seq<char>) -> spec_fn(NamedWriterConfig) -> bool {
    |entry: NamedWriterConfig| entry.name@ == name
}

/// Whether a retention rule is kept under `name`.
pub open spec fn retention_named(name: Seq<char>) -> spec_fn(NamedRetentionConfig) -> bool {
    |entry: NamedRetentionConfig| entry.name@ == name
}

/// The index of the first writer named `name`, or the number of writers.
pub open spec fn writer_position(writers: Seq<NamedWriterConfig>, name: Seq<char>) -> int {
    first_index(writers, writer_named(name))
}

/// The index of the first retention rule named `name`, or the number of
/// rules.
pub open spec fn retention_position(rules: Seq<NamedRetentionConfig>, name: Seq<char>) -> int {
    first_index(rules, retention_named(name))
}

impl Config {
    /// Whether the settings are in order: where bearer tokens are asked for,
    /// both the key's path and the algorithm are given.
    pub open spec fn valid(&self) -> bool {
        self.auth.enabled ==> self.auth.secret_path is Some && self.auth.algorithm is Some
    }

    /// Checks the settings after they were read.
    pub fn validate(&self) -> (r: Result<(), String>)
        ensures
            match r {
                Ok(_) => self.valid(),
                Err(e) => !self.valid() && e@ == auth_incomplete_message(),
            },
    {
        if self.auth.enabled && (self.auth.secret_path.is_none() || self.auth.algorithm.is_none()) {
            return Err("Auth is enabled but secret_path and algorithm are required".to_owned());
        }
        Ok(())
    }

    /// The settings of the writer `name`: the first under that name.
    pub fn writer(&self, name: &str) -> (r: Option<WriterConfig>)
        ensures
            match r {
                Some(config) => {
                    &&& 0 <= writer_position(self.writers@, name@) < self.writers@.len()
                    &&& config == self.writers@[writer_position(self.writers@, name@)].config
                },
                None => writer_position(self.writers@, name@) == self.writers@.len(),
            },
    {
        let mut i: usize = 0;
        while i < self.writers.len()
            invariant
                i <= self.writers.len(),
                forall|j: int| 0 <= j < i ==> self.writers@[j].name@ != name@,
            decreases self.writers.len() - i,
        {
            if same_text(self.writers[i].name.as_str(), name) {
                proof {
                    lemma_first_index_is(self.writers@, writer_named(name@), i as int);
                }
                return Some(self.writers[i].config);
            }
            i = i + 1;
        }
        proof {
            lemma_first_index_is(self.writers@, writer_named(name@), i as int);
        }
        None
    }

    /// The retention rule `name`: the first under that name.
    pub fn retention(&self, name: &str) -> (r: Option<&DataRetentionConfig>)
        ensures
            match r {
                Some(config) => {
                    &&& 0 <= retention_position(self.data_retention@, name@)
                        < self.data_retention@.len()
                    &&& *config == self.data_retention@[retention_position(
                        self.data_retention@,
                        name@,
                    )].config
                },
                None => retention_position(self.data_retention@, name@)
                    == self.data_retention@.len(),
            },
    {
        let mut i: usize = 0;
        while i < self.data_retention.len()
            invariant
                i <= self.data_retention.len(),
                forall|j: int| 0 <= j < i ==> self.data_retention@[j].name@ != name@,
            decreases self.data_retention.len() - i,
        {
            if same_text(self.data_retention[i].name.as_str(), name) {
                proof {
                    lemma_first_index_is(self.data_retention@, retention_named(name@), i as int);
                }
                return Some(&self.data_retention[i].config);
            }
            i = i + 1;
        }
        proof {
            lemma_first_index_is(self.data_retention@, retention_named(name@), i as int);
        }
        None
    }
}

} // verus!
