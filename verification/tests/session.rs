use snow_duck::cache::StatementCache;
use snow_duck::errors::ReportedError;
use snow_duck::errors::prepare_failure;
use snow_duck::session::{
    execute_outcome, setup_failure, validate_credentials, Connection, ProvidedValue, SetupStage,
};

fn text(s: &str) -> ProvidedValue {
    ProvidedValue::Text(s.to_string())
}

#[test]
fn identical_statement_text_compiles_once() {
    // Two successive fetches of byte-identical SQL reuse the compiled
    // statement: the instrumentation count stays at one.
    let mut cache = StatementCache::new();
    let sql = "SELECT * FROM t WHERE id = 1".to_string();
    let (slot1, fresh1) = cache.fetch(&sql);
    let (slot2, fresh2) = cache.fetch(&sql);
    assert!(fresh1);
    assert!(!fresh2);
    assert_eq!(slot1, slot2);
    assert_eq!(cache.compilations(), 1);
}

#[test]
fn different_embedded_literals_are_distinct_entries() {
    let mut cache = StatementCache::new();
    let (slot1, _) = cache.fetch(&"SELECT 1".to_string());
    let (slot2, fresh2) = cache.fetch(&"SELECT 2".to_string());
    assert!(fresh2);
    assert_ne!(slot1, slot2);
    assert_eq!(cache.compilations(), 2);
}

#[test]
fn open_builds_setup_plan_from_credentials() {
    let (connection, plan) = Connection::open(
        text("eu-central-1"),
        text("AKID"),
        text("sekrit"),
        true,
    )
    .unwrap();
    assert_eq!(plan.install_sql, "INSTALL aws; INSTALL httpfs;");
    assert_eq!(
        plan.secret_sql,
        "CREATE SECRET aws_bucket_secrets (TYPE S3, KEY_ID 'AKID', SECRET 'sekrit', REGION 'eu-central-1')"
    );
    assert!(connection.indifferent_access);
    assert!(!connection.iterating);
}

#[test]
fn open_reports_first_missing_option() {
    let err = Connection::open(
        ProvidedValue::Missing,
        text("AKID"),
        text("sekrit"),
        false,
    )
    .unwrap_err();
    assert_eq!(err, ReportedError::MissingOption { key: "s3_region".to_string() });
    assert_eq!(err.message(), "\"s3_region\" key required to instantiate duckdb");
}

#[test]
fn open_reports_non_string_option() {
    let err = Connection::open(
        text("eu-central-1"),
        text("AKID"),
        ProvidedValue::NonString,
        false,
    )
    .unwrap_err();
    assert_eq!(
        err,
        ReportedError::NonStringOption { key: "s3_secret_access_key".to_string() }
    );
    assert_eq!(err.message(), "Value provided as \"s3_secret_access_key\" was not string");
}

#[test]
fn validate_credentials_checks_options_in_order() {
    let err = validate_credentials(
        ProvidedValue::Missing,
        ProvidedValue::Missing,
        ProvidedValue::Missing,
    )
    .unwrap_err();
    assert_eq!(err, ReportedError::MissingOption { key: "s3_region".to_string() });
    let err = validate_credentials(
        text("r"),
        ProvidedValue::NonString,
        ProvidedValue::Missing,
    )
    .unwrap_err();
    assert_eq!(err, ReportedError::NonStringOption { key: "s3_access_key_id".to_string() });
}

#[test]
fn second_live_iteration_fails_fast() {
    let (mut connection, _plan) =
        Connection::open(text("r"), text("k"), text("s"), false).unwrap();
    let sql = "SELECT 1".to_string();
    let first = connection.start_query(&sql);
    assert!(first.is_ok());
    let second = connection.start_query(&sql);
    assert_eq!(
        second,
        Err(ReportedError::QueryExecution {
            cause: "Another row iteration is still active".to_string(),
        })
    );
    connection.finish_query();
    let third = connection.start_query(&sql);
    assert_eq!(third, Ok((0, false)));
}

#[test]
fn connection_cache_reuses_statements_across_queries() {
    let (mut connection, _plan) =
        Connection::open(text("r"), text("k"), text("s"), false).unwrap();
    let sql = "SELECT * FROM widgets".to_string();
    let (slot1, fresh1) = connection.start_query(&sql).unwrap();
    connection.finish_query();
    let (slot2, fresh2) = connection.start_query(&sql).unwrap();
    connection.finish_query();
    assert!(fresh1);
    assert!(!fresh2);
    assert_eq!(slot1, slot2);
    assert_eq!(connection.cache.compilations(), 1);
}

#[test]
fn setup_failures_translate_per_stage() {
    assert_eq!(
        setup_failure(SetupStage::OpenEngine, "no memory".to_string()).message(),
        "Could not open database: no memory"
    );
    assert_eq!(
        setup_failure(SetupStage::InstallExtensions, "offline".to_string()).message(),
        "Could not install extensions: offline"
    );
    assert_eq!(
        setup_failure(SetupStage::RegisterSecret, "denied".to_string()).message(),
        "Could not create secrets manager: denied"
    );
}

#[test]
fn engine_outcomes_translate_to_reported_errors() {
    assert_eq!(execute_outcome(Ok(3)), Ok(3));
    assert_eq!(
        execute_outcome(Err("syntax error".to_string())),
        Err(ReportedError::QueryExecution { cause: "syntax error".to_string() })
    );
    let err = prepare_failure("bad statement".to_string());
    assert_eq!(err, ReportedError::StatementPrepare { cause: "bad statement".to_string() });
    assert_eq!(err.message(), "bad statement");
}
