use feedrv3::schemas::schema_dir;
use feedrv3::server::auth::{bearer_token, generate_token, hash_password, hash_token, verify_password};
use feedrv3::server::config::{
    validate_schema_name, validate_toml, AppConfig, AppMode, AuthConfig, ConfigError, DatabaseConfig,
    DevConfig, HttpConfig, LoggingConfig, PostgresConfig, SeedConfig, ServerConfig, SqlDialect,
    SqliteConfig,
};
use feedrv3::server::db::{
    create_schema_statement, delete_statement, is_missing_table_error, postgres_url, quote_ident,
    search_path_statement, sqlite_url, truncate_statement,
};
use feedrv3::server::errors::{is_unique_violation, map_db_error, status_code_to_string, DbErrorInfo, ServerError};
use feedrv3::server::flows::{login_user, password_change, password_change_hash, require_affected, require_row, token_response, token_user};
use feedrv3::server::models::{EntryListQuery, EntrySummary, SearchQuery};
use feedrv3::server::queries::{entry_list_query, entry_search_query, QueryPart};
use feedrv3::server::requests::{
    credentials, entry_page, fetcher_schema_or_default, page_limit, page_offset, parse_read_filter,
    require_item_ids, require_trimmed, search_pattern, ReadFilter,
};

fn s(x: &str) -> String {
    x.to_string()
}

fn invalid(e: ConfigError) -> String {
    match e {
        ConfigError::Invalid(m) => m,
        other => panic!("unexpected error {:?}", other),
    }
}

fn server_config(dialect: &str, sqlite_path: &str) -> ServerConfig {
    ServerConfig {
        app: AppConfig { mode: AppMode::Dev, timezone: None },
        http: HttpConfig { host: s("127.0.0.1"), port: 8080 },
        database: DatabaseConfig { dialect: s(dialect) },
        sqlite: SqliteConfig { path: s(sqlite_path) },
        postgres: None,
        logging: LoggingConfig { level: None },
        auth: AuthConfig { token_ttl_seconds: 3600 },
        dev: DevConfig { reset_on_start: false },
        seed: SeedConfig { username: s("admin"), password: s("admin") },
    }
}

fn db_error(database: bool, code: Option<&str>, text: &str) -> DbErrorInfo {
    DbErrorInfo { database, code: code.map(s), text: s(text) }
}

#[test]
fn status_codes() {
    assert_eq!(status_code_to_string(400), "bad_request");
    assert_eq!(status_code_to_string(401), "unauthorized");
    assert_eq!(status_code_to_string(409), "conflict");
    assert_eq!(status_code_to_string(500), "internal_error");
    assert_eq!(status_code_to_string(418), "I'm a teapot");
    assert_eq!(status_code_to_string(299), "error");
    let e = ServerError::new(404, "missing");
    assert_eq!(e.status(), 404);
    assert_eq!(e.code(), "not_found");
    assert_eq!(e.message(), "missing");
}

#[test]
fn database_errors() {
    assert!(is_unique_violation(&db_error(true, Some("23505"), "dup")));
    assert!(is_unique_violation(&db_error(true, Some("2067"), "dup")));
    assert!(!is_unique_violation(&db_error(false, Some("23505"), "dup")));
    let e = map_db_error(db_error(true, Some("23505"), "dup"), "user exists");
    assert_eq!((e.status(), e.message()), (409, s("user exists")));
    let e = map_db_error(db_error(true, Some("42P01"), "no table"), "user exists");
    assert_eq!((e.status(), e.message(), e.code()), (500, s("no table"), s("internal_error")));
    assert!(is_missing_table_error(&db_error(true, Some("42P01"), "x")));
    assert!(!is_missing_table_error(&db_error(true, None, "x")));
}

#[test]
fn bearer_tokens() {
    assert_eq!(bearer_token(Some("Bearer abc ")).unwrap(), "abc");
    let e = bearer_token(None).unwrap_err();
    assert_eq!((e.status(), e.message()), (401, s("missing bearer token")));
    assert!(bearer_token(Some("Basic abc")).is_err());
    assert!(bearer_token(Some("Bearer    ")).is_err());
    assert!(bearer_token(Some("bearer abc")).is_err());
}

#[test]
fn token_hash_and_generation() {
    assert_eq!(hash_token("abc"), "ba7816bf8f01cfea414140de5dae2223b00361a396177a9cb410ff61f20015ad");
    let a = generate_token();
    let b = generate_token();
    assert_eq!(a.len(), 64);
    assert!(a.chars().all(|c| c.is_ascii_hexdigit() && !c.is_ascii_uppercase()));
    assert_ne!(a, b);
}

#[test]
fn passwords_hash_and_verify() {
    let h = hash_password("secret").unwrap();
    assert!(verify_password(&h, "secret").is_ok());
    assert!(verify_password(&h, "wrong").unwrap_err().starts_with("password verify error: "));
    assert!(verify_password("not-a-hash", "x").unwrap_err().starts_with("password hash parse error: "));
}

#[test]
fn schema_names() {
    assert_eq!(validate_schema_name(" fetcher_1 ").unwrap(), "fetcher_1");
    assert_eq!(invalid(validate_schema_name("  ").unwrap_err()), "postgres schema cannot be empty");
    assert_eq!(
        invalid(validate_schema_name("a-b").unwrap_err()),
        "invalid postgres schema 'a-b': only alphanumeric and '_' allowed"
    );
}

#[test]
fn dialect_and_sqlite_path() {
    assert_eq!(server_config(" SQLite ", "").dialect().unwrap(), SqlDialect::Sqlite);
    assert_eq!(server_config("postgres", "").dialect().unwrap(), SqlDialect::Postgres);
    assert_eq!(invalid(server_config("MySQL", "").dialect().unwrap_err()), "invalid database.dialect 'mysql'");
    assert_eq!(server_config("sqlite", "  ").sqlite_path("/srv"), "/srv/server.sqlite");
    assert_eq!(server_config("sqlite", " data.db ").sqlite_path("/srv"), "/srv/data.db");
    assert_eq!(ConfigError::Invalid(s("x")).message(), "config invalid: x");
}

#[test]
fn sql_text() {
    assert_eq!(quote_ident("a\"b"), "\"a\"\"b\"");
    assert_eq!(quote_ident("plain"), "\"plain\"");
    assert_eq!(sqlite_url("/srv/x.db"), "sqlite:///srv/x.db");
    assert_eq!(delete_statement("users"), "DELETE FROM users");
    assert_eq!(create_schema_statement("app"), "CREATE SCHEMA IF NOT EXISTS \"app\"");
    assert_eq!(search_path_statement("app"), "SET search_path TO \"app\"");
    assert_eq!(
        truncate_statement("app"),
        "TRUNCATE TABLE \"app\".\"user_tokens\", \"app\".\"user_password_resets\", \"app\".\"favorites\", \
\"app\".\"entry_states\", \"app\".\"folder_feeds\", \"app\".\"folders\", \"app\".\"subscriptions\", \
\"app\".\"users\" RESTART IDENTITY CASCADE"
    );
    let pg = PostgresConfig {
        host: s("db"),
        port: 5432,
        database: s("rss"),
        user: s("u"),
        password: s("p"),
        ssl_mode: s("disable"),
        schema: s("app"),
        fetcher_schema: s("fetcher"),
    };
    assert_eq!(postgres_url(&pg), "postgres://u:p@db:5432/rss?sslmode=disable");
}

#[test]
fn request_checks() {
    assert_eq!(require_trimmed(" n ", "name required").unwrap(), "n");
    let e = require_trimmed("  ", "name required").unwrap_err();
    assert_eq!((e.status(), e.message()), (400, s("name required")));
    assert_eq!(credentials(" u ", " p ").unwrap(), (s("u"), s("p")));
    assert_eq!(credentials("u", " ").unwrap_err().message(), "username and password required");
    assert_eq!(page_limit(None), 50);
    assert_eq!(page_limit(Some(500)), 200);
    assert_eq!(page_limit(Some(10)), 10);
    assert_eq!(page_offset(None), 0);
    assert_eq!(page_offset(Some(7)), 7);
    assert_eq!(parse_read_filter(None).unwrap(), None);
    assert_eq!(parse_read_filter(Some("unread")).unwrap(), Some(ReadFilter::Unread));
    assert_eq!(parse_read_filter(Some("READ")).unwrap_err().message(), "invalid read filter: READ");
    assert_eq!(search_pattern("x y"), "%x y%");
    assert_eq!(require_item_ids(&Vec::new()).unwrap_err().message(), "item_ids required");
    assert!(require_item_ids(&vec![1]).is_ok());
    assert_eq!(fetcher_schema_or_default(None), "fetcher");
    assert_eq!(fetcher_schema_or_default(Some("f2")), "f2");
}

fn entry(id: i64) -> EntrySummary {
    EntrySummary { id, feed_id: s("f"), title: None, link: None, published_at_ms: None, is_read: false }
}

#[test]
fn entry_pages() {
    let p = entry_page(vec![entry(3), entry(9), entry(4)], 10);
    assert_eq!(p.next_cursor, Some(9));
    assert_eq!(p.next_offset, Some(13));
    assert_eq!(p.items.len(), 3);
    assert_eq!(p.since, None);
    let p = entry_page(Vec::new(), 10);
    assert_eq!((p.next_cursor, p.next_offset), (None, None));
}

#[test]
fn toml_against_schema() {
    let schema = "{\"type\":\"object\",\"required\":[\"a\"]}";
    assert!(validate_toml(schema, "a = 1", "f.toml").is_ok());
    assert!(invalid(validate_toml(schema, "b = 1", "f.toml").unwrap_err()).starts_with("schema validation failed for f.toml: "));
    assert!(invalid(validate_toml("{", "a = 1", "f.toml").unwrap_err()).starts_with("schema parse error: "));
    assert!(invalid(validate_toml(schema, "a = ", "f.toml").unwrap_err()).starts_with("f.toml: "));
}

#[test]
fn schema_directories() {
    assert_eq!(schema_dir("/repo", "server"), "/repo/schemas/server");
}

fn sql(x: &str) -> QueryPart {
    QueryPart::Sql(s(x))
}

const PG_HEAD: &str = "SELECT fi.id, fi.feed_id, fi.title, fi.link, CAST(EXTRACT(EPOCH FROM fi.published_at) * 1000 AS BIGINT) AS published_at_ms, (es.read_at IS NOT NULL) AS is_read FROM \"fetcher\".feed_items fi LEFT JOIN entry_states es ON es.item_id = fi.id AND es.user_id = ";
const LITE_HEAD: &str = "SELECT fi.id, fi.feed_id, fi.title, fi.link, fi.published_at_ms, (es.read_at IS NOT NULL) AS is_read FROM feed_items fi LEFT JOIN entry_states es ON es.item_id = fi.id AND es.user_id = ";

#[test]
fn entry_listing_queries() {
    let plain = EntryListQuery { read: None, limit: None, offset: None, feed_id: None, since: None };
    let parts = entry_list_query(SqlDialect::Sqlite, None, 7, &plain).unwrap();
    assert_eq!(
        parts,
        vec![
            sql(LITE_HEAD),
            QueryPart::Int(7),
            sql(" WHERE 1=1"),
            sql(" ORDER BY fi.id DESC LIMIT "),
            QueryPart::Int(50),
            sql(" OFFSET "),
            QueryPart::Int(0),
        ]
    );

    let filtered = EntryListQuery {
        read: Some(s("unread")),
        limit: Some(500),
        offset: Some(20),
        feed_id: Some(s("hn")),
        since: Some(99),
    };
    let parts = entry_list_query(SqlDialect::Postgres, None, 3, &filtered).unwrap();
    assert_eq!(
        parts,
        vec![
            sql(PG_HEAD),
            QueryPart::Int(3),
            sql(" WHERE 1=1"),
            sql(" AND es.read_at IS NULL"),
            sql(" AND fi.feed_id = "),
            QueryPart::Text(s("hn")),
            sql(" AND fi.id > "),
            QueryPart::Int(99),
            sql(" ORDER BY fi.id DESC LIMIT "),
            QueryPart::Int(200),
            sql(" OFFSET "),
            QueryPart::Int(20),
        ]
    );

    let custom = entry_list_query(SqlDialect::Postgres, Some("my\"schema"), 1, &plain).unwrap();
    match &custom[0] {
        QueryPart::Sql(head) => assert!(head.contains("FROM \"my\"\"schema\".feed_items fi")),
        other => panic!("unexpected part {:?}", other),
    }

    let bad = EntryListQuery { read: Some(s("maybe")), limit: None, offset: None, feed_id: None, since: None };
    let e = entry_list_query(SqlDialect::Sqlite, None, 1, &bad).unwrap_err();
    assert_eq!(e.status(), 400);
    assert_eq!(e.message(), "invalid read filter: maybe");
}

#[test]
fn entry_search_queries() {
    let q = SearchQuery { q: s("  rust  "), read: Some(s("read")), limit: Some(10), offset: None, feed_id: None };
    let parts = entry_search_query(SqlDialect::Sqlite, None, 5, &q).unwrap();
    assert_eq!(
        parts,
        vec![
            sql(LITE_HEAD),
            QueryPart::Int(5),
            sql(" WHERE ("),
            sql("lower(fi.title) LIKE lower("),
            QueryPart::Text(s("%rust%")),
            sql(") OR lower(fi.summary) LIKE lower("),
            QueryPart::Text(s("%rust%")),
            sql(") OR lower(fi.description) LIKE lower("),
            QueryPart::Text(s("%rust%")),
            sql(")"),
            sql(" AND es.read_at IS NOT NULL"),
            sql(" ORDER BY fi.id DESC LIMIT "),
            QueryPart::Int(10),
            sql(" OFFSET "),
            QueryPart::Int(0),
        ]
    );

    let q = SearchQuery { q: s("x"), read: None, limit: None, offset: Some(4), feed_id: Some(s("f1")) };
    let parts = entry_search_query(SqlDialect::Postgres, Some("fetcher"), 2, &q).unwrap();
    assert_eq!(parts[0], sql(PG_HEAD));
    assert_eq!(parts[3], sql("fi.title ILIKE "));
    assert_eq!(parts[4], QueryPart::Text(s("%x%")));
    assert_eq!(parts[10], sql(" AND fi.feed_id = "));
    assert_eq!(parts[11], QueryPart::Text(s("f1")));
    assert_eq!(parts[parts.len() - 1], QueryPart::Int(4));

    let empty = SearchQuery { q: s("   "), read: Some(s("bogus")), limit: None, offset: None, feed_id: None };
    let e = entry_search_query(SqlDialect::Sqlite, None, 1, &empty).unwrap_err();
    assert_eq!(e.status(), 400);
    assert_eq!(e.message(), "q required");

    let bad = SearchQuery { q: s("ok"), read: Some(s("bogus")), limit: None, offset: None, feed_id: None };
    let e = entry_search_query(SqlDialect::Sqlite, None, 1, &bad).unwrap_err();
    assert_eq!(e.message(), "invalid read filter: bogus");
}

#[test]
fn account_decisions() {
    let hash = hash_password("secret").unwrap();
    assert_eq!(login_user(Some((42, hash.clone())), "secret").unwrap(), 42);
    let e = login_user(Some((42, hash.clone())), "wrong").unwrap_err();
    assert_eq!((e.status(), e.message()), (401, s("invalid credentials")));
    let e = login_user(None, "secret").unwrap_err();
    assert_eq!((e.status(), e.message()), (401, s("invalid credentials")));

    assert_eq!(password_change(&hash, " secret ", " next ").unwrap(), "next");
    let e = password_change(&hash, "nope", "next").unwrap_err();
    assert_eq!(e.status(), 401);
    let e = password_change(&hash, "secret", "   ").unwrap_err();
    assert_eq!((e.status(), e.message()), (400, s("current_password and new_password required")));

    let new_hash = password_change_hash(&hash, " secret ", " fresh ").unwrap();
    assert!(verify_password(&new_hash, "fresh").is_ok());
    assert!(verify_password(&new_hash, "secret").is_err());
    assert_eq!(password_change_hash(&hash, "nope", "fresh").unwrap_err().status(), 401);
    assert_eq!(password_change_hash(&hash, "", "fresh").unwrap_err().status(), 400);
    assert_eq!(quote_ident("\"\""), "\"\"\"\"\"\"");
    assert_ne!(quote_ident("a\"b"), quote_ident("a\"\"b"));

    assert_eq!(require_row(Some(5), "user not found").unwrap(), 5);
    let e = require_row::<i64>(None, "user not found").unwrap_err();
    assert_eq!((e.status(), e.message()), (404, s("user not found")));
    assert!(require_affected(1, "token not found").is_ok());
    let e = require_affected(0, "token not found").unwrap_err();
    assert_eq!((e.status(), e.code(), e.message()), (404, s("not_found"), s("token not found")));

    assert_eq!(token_user(Some(9)).unwrap(), 9);
    let e = token_user(None).unwrap_err();
    assert_eq!((e.status(), e.code(), e.message()), (401, s("unauthorized"), s("invalid token")));

    let t = token_response(s("abc"), 3600);
    assert_eq!((t.token, t.token_type, t.expires_in), (s("abc"), s("bearer"), 3600));
}
