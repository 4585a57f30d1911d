use stardust_indexer::db::{ConnectionPoolConfig, Name};
use stardust_indexer::metrics::Metrics;
use stardust_indexer::models::IotaAddress;
use stardust_indexer::rest::config::RestApiConfig;
use stardust_indexer::rest::error::{ApiError, ErrorResponse};
use stardust_indexer::sync::config::{parse_url, IndexerConfig, InvalidUrl};
use stardust_indexer::text::InvalidAddress;

#[test]
fn socket_addr_joins_address_and_port() {
    let config = RestApiConfig::default();
    assert_eq!(config.bind_address, "0.0.0.0");
    assert_eq!(config.bind_port, 3000);
    assert_eq!(config.socket_addr(), "0.0.0.0:3000");
    let config = RestApiConfig { bind_address: "127.0.0.1".to_string(), bind_port: 0 };
    assert_eq!(config.socket_addr(), "127.0.0.1:0");
    let config = RestApiConfig { bind_address: "localhost".to_string(), bind_port: 65535 };
    assert_eq!(config.socket_addr(), "localhost:65535");
}

#[test]
fn errors_map_to_status_and_body() {
    assert_eq!(
        ApiError::BadRequest("no such page".to_string()).into_response(),
        (
            400,
            ErrorResponse {
                error_code: "400".to_string(),
                error_message: "bad request: no such page".to_string()
            }
        )
    );
    assert_eq!(
        ApiError::ServiceUnavailable("pool exhausted".to_string()).into_response(),
        (
            503,
            ErrorResponse {
                error_code: "503".to_string(),
                error_message: "service unavailable: pool exhausted".to_string()
            }
        )
    );
    assert_eq!(
        ApiError::InternalServerError.into_response(),
        (
            500,
            ErrorResponse {
                error_code: "500".to_string(),
                error_message: "internal server error".to_string()
            }
        )
    );
    assert_eq!(
        ApiError::Forbidden.into_response(),
        (
            403,
            ErrorResponse { error_code: "403".to_string(), error_message: "forbidden".to_string() }
        )
    );
    assert_eq!(ApiError::Forbidden.status_code(), 403);
    assert_eq!(ApiError::Forbidden.message(), "forbidden");
}

#[test]
fn address_text_round_trips() {
    let mut bytes = [0u8; 32];
    for (i, byte) in bytes.iter_mut().enumerate() {
        *byte = (i as u8) * 9 + 3;
    }
    let address = IotaAddress::from_array(bytes);
    let text = address.to_hex();
    assert_eq!(
        text,
        "0x030c151e273039424b545d666f78818a939ca5aeb7c0c9d2dbe4edf6ff08111a"
    );
    assert_eq!(IotaAddress::from_hex(&text), Ok(address.clone()));
    assert_eq!(IotaAddress::from_hex(&text[2..]), Ok(address.clone()));
    assert_eq!(IotaAddress::from_hex(&text.to_uppercase().replace("0X", "0x")), Ok(address));
    let short = IotaAddress::from_hex("0x00112233445566778899aabbccddeeff00112233").unwrap();
    assert_eq!(short.to_sql().len(), 20);
    assert_eq!(short.to_hex(), "0x00112233445566778899aabbccddeeff00112233");
}

#[test]
fn malformed_address_text_is_refused() {
    for text in [
        "",
        "0x",
        "0x12",
        "0x0g112233445566778899aabbccddeeff00112233",
        "0x00112233445566778899aabbccddeeff0011223",
        "0x00112233445566778899aabbccddeeff001122334",
        "00112233445566778899aabbccddeeff0011223\u{e9}",
        "0X00112233445566778899aabbccddeeff00112233",
        " 0x00112233445566778899aabbccddeeff00112233",
    ] {
        assert_eq!(IotaAddress::from_hex(text), Err(InvalidAddress), "{}", text);
    }
}

#[test]
fn pragmas_follow_the_configuration() {
    let mut config = ConnectionPoolConfig::default();
    assert_eq!(config.pool_size, 20);
    assert_eq!(config.connection_timeout_secs, 30);
    assert!(!config.enable_wal);
    assert_eq!(
        config.on_acquire(),
        vec!["PRAGMA foreign_keys = ON;".to_string(), "PRAGMA busy_timeout = 30000;".to_string()]
    );
    config.set_pool_size(5);
    config.set_connection_timeout(7);
    config.enable_wal = true;
    assert_eq!(config.pool_size, 5);
    assert_eq!(
        config.on_acquire(),
        vec![
            "PRAGMA foreign_keys = ON;".to_string(),
            "PRAGMA busy_timeout = 7000;".to_string(),
            "PRAGMA journal_mode = WAL; PRAGMA synchronous = NORMAL;".to_string(),
        ]
    );
    config.set_connection_timeout(u64::MAX);
    assert_eq!(config.on_acquire()[1], "PRAGMA busy_timeout = 18446744073709551615000;");
    config.set_connection_timeout(0);
    assert_eq!(config.on_acquire()[1], "PRAGMA busy_timeout = 0;");
}

#[test]
fn each_database_has_its_url_variable() {
    assert_eq!(Name::Objects.url_env_var(), "OBJECTS_DB_URL");
    assert_eq!(Name::ProgressStore.url_env_var(), "PROGRESS_STORE_DB_URL");
}

#[test]
fn remote_store_must_be_a_url() {
    assert_eq!(
        parse_url("https://checkpoints.mainnet.iota.io"),
        Ok("https://checkpoints.mainnet.iota.io/".to_string())
    );
    assert_eq!(parse_url("HTTP://Example.COM:80/a b"), Ok("http://example.com/a%20b".to_string()));
    assert_eq!(parse_url("not a url"), Err(InvalidUrl));
    assert_eq!(parse_url(""), Err(InvalidUrl));
    let package = IotaAddress::from_array([7; 32]);
    let config =
        IndexerConfig::new("https://checkpoints.mainnet.iota.io", vec![package.clone()]).unwrap();
    assert_eq!(config.remote_store_url, "https://checkpoints.mainnet.iota.io/");
    assert_eq!(config.download_queue_size, 200);
    assert_eq!(config.checkpoint_processing_batch_data_limit, 20_000_000);
    assert!(!config.reset_db);
    assert_eq!(config.package_ids, vec![package.clone()]);
    let options = config.reader_options();
    assert_eq!(options.batch_size, 200);
    assert_eq!(options.data_limit, 20_000_000);
    assert!(IndexerConfig::new("checkpoints", vec![package.clone()]).is_err());
    let plain = IndexerConfig::with_defaults("file:///checkpoints".to_string(), vec![package]);
    assert_eq!(plain.remote_store_url, "file:///checkpoints");
    assert_eq!(plain.reader_options(), config.reader_options());
}

#[test]
fn metrics_test_metrics() {
    let mut metrics = Metrics::new();
    metrics.set_last_checkpoint_checked(42);
    metrics.set_last_checkpoint_indexed(42);
    metrics.inc_indexed_basic_outputs();
    metrics.inc_indexed_nft_outputs();
    assert_eq!(metrics.last_checkpoint_checked, 42);
    assert_eq!(metrics.last_checkpoint_indexed, 42);
    assert_eq!(metrics.indexed_basic_outputs_count, 1);
    assert_eq!(metrics.indexed_nft_outputs_count, 1);
}

#[test]
fn gauges_and_counters_stop_at_their_largest_value() {
    let mut metrics = Metrics::new();
    metrics.set_last_checkpoint_indexed(u64::MAX);
    assert_eq!(metrics.last_checkpoint_indexed, i64::MAX);
    metrics.set_last_checkpoint_checked(i64::MAX as u64);
    assert_eq!(metrics.last_checkpoint_checked, i64::MAX);
    metrics.indexed_basic_outputs_count = u64::MAX;
    metrics.inc_indexed_basic_outputs();
    assert_eq!(metrics.indexed_basic_outputs_count, u64::MAX);
}

#[test]
fn refusals_carry_their_reason() {
    assert_eq!(ApiError::fallback(), ApiError::Forbidden);
    assert_eq!(ApiError::fallback().into_response().0, 403);
    assert_eq!(
        ApiError::bad_path("invalid digit"),
        ApiError::BadRequest("invalid digit".to_string())
    );
    assert_eq!(
        ApiError::no_connection("timed out").message(),
        "service unavailable: failed to get connection: timed out"
    );
    assert_eq!(
        ApiError::corrupt_row(stardust_indexer::models::CodecError::Corrupt)
            .into_response()
            .1
            .error_message,
        "internal server error"
    );
}
