use vstd::prelude::*;

verus! {

/// Size of the memtable write buffer handed to the store, in bytes.
pub const WRITE_BUFFER_SIZE: usize = 4 * 16 * 1024 * 1024;

/// Number of background flush jobs.
pub const BACKGROUND_FLUSHES: i32 = 2;

/// Number of background compaction jobs.
pub const BACKGROUND_COMPACTIONS: i32 = 2;

/// Compaction tuning of the store.
#[derive(Clone, Copy, Debug, PartialEq, Eq, Structural)]
pub struct CompactionConfig {
    pub target_file_size_base: u64,
    pub max_bytes_for_level_multiplier: Option<u32>,
    pub max_background_compactions: Option<i32>,
}

/// Configuration of the chain store.
#[derive(Clone, Copy, Debug, PartialEq, Eq, Structural)]
pub struct Config {
    pub max_open_files: i32,
    pub write_buffer_size: usize,
    pub background_flushes: i32,
    pub background_compactions: i32,
    pub compaction: CompactionConfig,
    /// Whether writes keep the write-ahead log.
    pub wal: bool,
    /// How many column families to create, when the store is partitioned.
    pub category_num: Option<u32>,
}

/// The configuration used when none is given.
pub open spec fn spec_default_config() -> Config {
    Config {
        max_open_files: 512,
        write_buffer_size: WRITE_BUFFER_SIZE,
        background_flushes: BACKGROUND_FLUSHES,
        background_compactions: BACKGROUND_COMPACTIONS,
        compaction: CompactionConfig {
            target_file_size_base: 67108864u64,
            max_bytes_for_level_multiplier: None,
            max_background_compactions: None,
        },
        wal: true,
        category_num: None,
    }
}

impl Config {
    /// The default configuration, with the store partitioned into
    /// `category_num` column families.
    pub fn with_category_num(category_num: Option<u32>) -> (r: Config)
        ensures
            r == (Config { category_num, ..spec_default_config() }),
    {
        Config { category_num, ..Config::default() }
    }
}

impl Default for Config {
    fn default() -> (r: Config)
        ensures
            r == spec_default_config(),
    {
        Config {
            max_open_files: 512,
            write_buffer_size: WRITE_BUFFER_SIZE,
            background_flushes: BACKGROUND_FLUSHES,
            background_compactions: BACKGROUND_COMPACTIONS,
            compaction: CompactionConfig {
                target_file_size_base: 67108864u64,
                max_bytes_for_level_multiplier: None,
                max_background_compactions: None,
            },
            wal: true,
            category_num: None,
        }
    }
}

} // verus!
