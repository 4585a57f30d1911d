//! The configuration of the checkpoint synchronisation.

use vstd::prelude::*;

use crate::models::{address_bytes, IotaAddress};

verus! {

/// The largest number of checkpoints that wait to be processed.
pub const DOWNLOAD_QUEUE_SIZE: usize = 200;

/// The limit on the bytes of the checkpoints that are processed at a time.
pub const CHECKPOINT_PROCESSING_BATCH_DATA_LIMIT: usize = 20000000;

/// The name of the one worker task.
pub const PRIMARY_TASK: &'static str = "primary";

/// The normal form of the URL that `value` spells, if it spells one.
pub uninterp spec fn normalized_url(value: Seq<char>) -> Option<Seq<char>>;

/// Parses a URL and gives its normal form.
///
/// Trusted: `url::Url::parse`, which accepts or refuses a text by its
/// characters alone, and the conversion of the parsed URL to its
/// serialization.
#[verifier::external_body]
fn normalize_url(value: &str) -> (normalized: Option<String>)
    ensures
        match normalized {
            Some(url) => normalized_url(value@) == Some(url@),
            None => normalized_url(value@) is None,
        },
{
    url::Url::parse(value).ok().map(String::from)
}

/// A text that is not a URL.
#[derive(Debug, Clone, Copy, PartialEq, Eq, Structural)]
pub struct InvalidUrl;

/// Validates a text as a URL and gives its normal form.
pub fn parse_url(value: &str) -> (result: Result<String, InvalidUrl>)
    ensures
        match result {
            Ok(url) => normalized_url(value@) == Some(url@),
            Err(_) => normalized_url(value@) is None,
        },
{
    match normalize_url(value) {
        Some(url) => Ok(url),
        None => Err(InvalidUrl),
    }
}

/// What the reader of checkpoints is started with.
#[derive(Debug, Clone, Copy, PartialEq, Eq, Structural)]
pub struct ReaderOptions {
    /// How many checkpoints are fetched ahead of the worker.
    pub batch_size: usize,
    /// The limit on the bytes of the checkpoints that are held at a time.
    pub data_limit: usize,
}

/// The configuration of the indexer.
#[derive(Debug)]
pub struct IndexerConfig {
    /// The remote store that checkpoints are fetched from, a URL in normal form.
    pub remote_store_url: String,
    /// The largest number of checkpoints that wait to be processed.
    pub download_queue_size: usize,
    /// The limit on the bytes of the checkpoints that are processed at a time.
    pub checkpoint_processing_batch_data_limit: usize,
    /// Whether the objects database is emptied before the start.
    pub reset_db: bool,
    /// The originating packages whose outputs are indexed.
    pub package_ids: Vec<IotaAddress>,
}

impl IndexerConfig {
    /// The configuration with the given remote store, a URL in normal form,
    /// the given packages and the default limits.
    pub fn with_defaults(remote_store_url: String, package_ids: Vec<IotaAddress>) -> (config:
        IndexerConfig)
        ensures
            config.remote_store_url@ == remote_store_url@,
            config.download_queue_size == DOWNLOAD_QUEUE_SIZE,
            config.checkpoint_processing_batch_data_limit
                == CHECKPOINT_PROCESSING_BATCH_DATA_LIMIT,
            !config.reset_db,
            address_bytes(config.package_ids@) == address_bytes(package_ids@),
    {
        IndexerConfig {
            remote_store_url,
            download_queue_size: DOWNLOAD_QUEUE_SIZE,
            checkpoint_processing_batch_data_limit: CHECKPOINT_PROCESSING_BATCH_DATA_LIMIT,
            reset_db: false,
            package_ids,
        }
    }

    /// The configuration with the given remote store and packages and the
    /// default limits. Refused when the remote store is not a URL.
    pub fn new(remote_store_url: &str, package_ids: Vec<IotaAddress>) -> (result: Result<
        IndexerConfig,
        InvalidUrl,
    >)
        ensures
            match result {
                Ok(config) => {
                    &&& normalized_url(remote_store_url@) == Some(config.remote_store_url@)
                    &&& config.download_queue_size == DOWNLOAD_QUEUE_SIZE
                    &&& config.checkpoint_processing_batch_data_limit
                        == CHECKPOINT_PROCESSING_BATCH_DATA_LIMIT
                    &&& !config.reset_db
                    &&& address_bytes(config.package_ids@) == address_bytes(package_ids@)
                },
                Err(_) => normalized_url(remote_store_url@) is None,
            },
    {
        match parse_url(remote_store_url) {
            Ok(url) => Ok(Self::with_defaults(url, package_ids)),
            Err(e) => Err(e),
        }
    }

    /// The options of the reader: the download queue size is its batch
    /// size, the batch data limit its data limit.
    pub fn reader_options(&self) -> (options: ReaderOptions)
        ensures
            options.batch_size == self.download_queue_size,
            options.data_limit == self.checkpoint_processing_batch_data_limit,
    {
        ReaderOptions {
            batch_size: self.download_queue_size,
            data_limit: self.checkpoint_processing_batch_data_limit,
        }
    }
}

} // verus!
