use hello_actix::models::choose_uuid;
use hello_actix::models::timestamp::Timestamp;
use hello_actix::models::trace_sql_files::{NewTraceSqlFiles, TraceSqlFilesField};
use hello_actix::models::trace_sqls::{NewTraceSqls, TraceSqlsField};
use hello_actix::models::TraceError;
use hello_actix::services::trace::{prepare_batch, RequestNewTraceSql, RequestNewTraceSqlFile};
use hello_actix::services::users::new_users;

fn file(name: &str, line: u32, class: &str, created_at: &str) -> RequestNewTraceSqlFile {
    RequestNewTraceSqlFile {
        app_uuid: None,
        sql_uuid: None,
        trace_file: name.to_string(),
        trace_line: line,
        trace_class: class.to_string(),
        created_at: created_at.to_string(),
    }
}

fn sql(run_ms: u32, created_at: &str, files: Vec<RequestNewTraceSqlFile>) -> RequestNewTraceSql {
    RequestNewTraceSql {
        app_uuid: None,
        sql_uuid: None,
        db_host: "localhost".to_string(),
        run_host: "localhost".to_string(),
        run_ms,
        run_mode: "api".to_string(),
        request_uri: "/api/v1/user/info".to_string(),
        referer: "".to_string(),
        trace_sql_md5: "12345678901234567890123456789021".to_string(),
        trace_sql: "select * from users".to_string(),
        trace_sql_binds: "".to_string(),
        created_at: created_at.to_string(),
        trace_files: files,
    }
}

fn is_uuid_text(s: &str) -> bool {
    s.len() == 32 && s.chars().all(|c| c.is_ascii_digit() || ('a'..='f').contains(&c))
}

#[test]
fn foo() {
    let data = vec![
        sql(
            100,
            "2021-10-08T12:00:00.100",
            vec![
                file("/code/deli.com/1.php", 100, "DemoController", "2021-10-08T12:00:00.100"),
                file("/code/deli.com/11.php", 103, "Demo2Controller", "2021-10-08T12:00:00.100"),
            ],
        ),
        sql(
            103,
            "2021-10-08T12:00:00.300",
            vec![file("/code/deli.com/2.php", 20, "TestController", "2021-10-08T12:00:00.100")],
        ),
    ];
    let res = prepare_batch(&data).expect("保存失败");
    assert_eq!(res.trace_sqls.len(), 2);
    assert_eq!(res.trace_sql_files.len(), 3);
    assert_eq!(res.app_uuids.len(), 1);
    assert_eq!(res.sql_uuids.len(), 2);
    let app = &res.app_uuids[0];
    assert!(is_uuid_text(app));
    for row in res.trace_sqls.iter() {
        assert_eq!(&row.app_uuid, app);
        assert!(is_uuid_text(&row.sql_uuid));
    }
    assert_eq!(res.sql_uuids[0], res.trace_sqls[0].sql_uuid);
    assert_eq!(res.sql_uuids[1], res.trace_sqls[1].sql_uuid);
    assert_ne!(res.sql_uuids[0], res.sql_uuids[1]);
    assert_eq!(res.trace_sqls[1].run_ms, 103);
    assert_eq!(res.trace_sqls[1].created_at.nanosecond, 300_000_000);
    let files = &res.trace_sql_files;
    assert_eq!(files[0].trace_file, "/code/deli.com/1.php");
    assert_eq!(files[1].trace_line, 103);
    assert_eq!(files[2].trace_class, "TestController");
    assert_eq!(files[0].sql_uuid, res.trace_sqls[0].sql_uuid);
    assert_eq!(files[1].sql_uuid, res.trace_sqls[0].sql_uuid);
    assert_eq!(files[2].sql_uuid, res.trace_sqls[1].sql_uuid);
    for f in files.iter() {
        assert_eq!(&f.app_uuid, app);
    }
}

#[test]
fn first_app_uuid_is_imposed_on_the_whole_batch() {
    let mut a = sql(1, "2021-10-08T12:00:00", vec![]);
    a.app_uuid = Some("app-one".to_string());
    a.sql_uuid = Some("sql-one".to_string());
    let mut b = sql(2, "2021-10-08T12:00:01", vec![file("f.php", 1, "C", "2021-10-08T12:00:01")]);
    b.app_uuid = Some("app-two".to_string());
    b.sql_uuid = Some("sql-two".to_string());
    let mut c = sql(3, "2021-10-08T12:00:02", vec![]);
    c.sql_uuid = Some("sql-one".to_string());
    let res = prepare_batch(&vec![a, b, c]).unwrap();
    let apps: Vec<&str> = res.trace_sqls.iter().map(|r| r.app_uuid.as_str()).collect();
    assert_eq!(apps, vec!["app-one", "app-one", "app-one"]);
    let sqls: Vec<&str> = res.trace_sqls.iter().map(|r| r.sql_uuid.as_str()).collect();
    assert_eq!(sqls, vec!["sql-one", "sql-two", "sql-one"]);
    assert_eq!(res.app_uuids, vec!["app-one".to_string()]);
    assert_eq!(res.sql_uuids, vec!["sql-one".to_string(), "sql-two".to_string()]);
    assert_eq!(res.trace_sql_files.len(), 1);
    assert_eq!(res.trace_sql_files[0].app_uuid, "app-one");
    assert_eq!(res.trace_sql_files[0].sql_uuid, "sql-two");
}

#[test]
fn file_uuids_follow_their_statement() {
    let mut f = file("f.php", 7, "C", "2021-01-01T00:00:00");
    f.app_uuid = Some("own-app".to_string());
    f.sql_uuid = Some("own-sql".to_string());
    let mut a = sql(1, "2021-01-01T00:00:00", vec![f]);
    a.app_uuid = Some("A".to_string());
    a.sql_uuid = Some("S".to_string());
    let res = prepare_batch(&vec![a]).unwrap();
    assert_eq!(res.trace_sql_files[0].app_uuid, "A");
    assert_eq!(res.trace_sql_files[0].sql_uuid, "S");
}

#[test]
fn empty_batch_prepares_nothing() {
    let res = prepare_batch(&vec![]).unwrap();
    assert!(res.trace_sqls.is_empty());
    assert!(res.trace_sql_files.is_empty());
    assert!(res.app_uuids.is_empty());
    assert!(res.sql_uuids.is_empty());
}

#[test]
fn bad_created_at_fails_the_batch() {
    let a = sql(1, "2021-10-08T12:00:00", vec![]);
    let b = sql(2, "yesterday", vec![]);
    assert_eq!(prepare_batch(&vec![a, b]).err(), Some(TraceError::InvalidCreatedAt));
    let c = sql(3, "2021-10-08T12:00:00", vec![file("f", 1, "C", "2021-13-01T00:00:00")]);
    assert_eq!(prepare_batch(&vec![c]).err(), Some(TraceError::InvalidCreatedAt));
}

#[test]
fn timestamp_parse_reads_chrono_format() {
    let t = Timestamp::parse("2021-10-08T12:34:56.100").unwrap();
    assert_eq!(
        t,
        Timestamp { year: 2021, month: 10, day: 8, hour: 12, minute: 34, second: 56, nanosecond: 100_000_000 }
    );
    assert_eq!(Timestamp::parse("2021-10-08T12:00:00").unwrap().nanosecond, 0);
    assert_eq!(Timestamp::parse("2021-10-08 12:00:00"), None);
    assert_eq!(Timestamp::parse("2021-02-30T12:00:00"), None);
    assert_eq!(Timestamp::parse(""), None);
}

#[test]
fn trace_sql_from_json_keeps_given_uuids() {
    let mut r = sql(5, "2021-10-08T12:00:00", vec![]);
    r.app_uuid = Some("mine".to_string());
    r.sql_uuid = Some("my-sql".to_string());
    let t = NewTraceSqls::from_json(&r, &None).unwrap();
    assert_eq!(t.app_uuid, "mine");
    assert_eq!(t.sql_uuid, "my-sql");
    let t = NewTraceSqls::from_json(&r, &Some("imposed".to_string())).unwrap();
    assert_eq!(t.app_uuid, "imposed");
    assert_eq!(t.sql_uuid, "my-sql");
    assert_eq!(t.run_ms, 5);
    assert_eq!(t.db_host, "localhost");
}

#[test]
fn trace_sql_from_json_generates_missing_uuids() {
    let r = sql(5, "2021-10-08T12:00:00", vec![]);
    let t = NewTraceSqls::from_json(&r, &None).unwrap();
    assert!(is_uuid_text(&t.app_uuid));
    assert!(is_uuid_text(&t.sql_uuid));
    assert_ne!(t.app_uuid, t.sql_uuid);
    assert_eq!(t.validate(), Ok(()));
}

#[test]
fn trace_sql_file_from_json_prefers_given_uuids() {
    let mut f = file("a.php", 3, "K", "2021-10-08T12:00:00");
    f.sql_uuid = Some("own".to_string());
    let t = NewTraceSqlFiles::from_json(&f, &Some("app".to_string()), &None).unwrap();
    assert_eq!(t.app_uuid, "app");
    assert_eq!(t.sql_uuid, "own");
    let t = NewTraceSqlFiles::from_json(&f, &None, &Some("sql".to_string())).unwrap();
    assert!(is_uuid_text(&t.app_uuid));
    assert_eq!(t.sql_uuid, "sql");
    let bad = file("a.php", 3, "K", "2021-10-08");
    assert_eq!(NewTraceSqlFiles::from_json(&bad, &None, &None).err(), Some(TraceError::InvalidCreatedAt));
}

#[test]
fn choose_uuid_order_of_preference() {
    let fresh = || "fresh".to_string();
    assert_eq!(choose_uuid(&Some("p".to_string()), &Some("o".to_string()), fresh()), "p");
    assert_eq!(choose_uuid(&None, &Some("o".to_string()), fresh()), "o");
    assert_eq!(choose_uuid(&None, &None, fresh()), "fresh");
}

#[test]
fn from_parts_copies_the_report() {
    let r = sql(9, "x", vec![]);
    let ts = Timestamp { year: 2020, month: 1, day: 2, hour: 3, minute: 4, second: 5, nanosecond: 6 };
    let t = NewTraceSqls::from_parts(&r, "a".to_string(), "s".to_string(), ts);
    assert_eq!(t.created_at, ts);
    assert_eq!(t.trace_sql, "select * from users");
    assert_eq!(t.request_uri, "/api/v1/user/info");
    let f = file("p.php", 11, "Cls", "x");
    let u = NewTraceSqlFiles::from_parts(&f, "a".to_string(), "s".to_string(), ts);
    assert_eq!(u.trace_line, 11);
    assert_eq!(u.app_uuid, "a");
}

#[test]
fn validate_lists_columns_breaking_limits() {
    let r = sql(1, "2021-10-08T12:00:00", vec![]);
    let mut t = NewTraceSqls::from_json(&r, &Some("short".to_string())).unwrap();
    t.run_mode = "x".repeat(17);
    t.trace_sql_md5 = "é".repeat(32);
    assert_eq!(t.validate(), Err(vec![TraceSqlsField::AppUuid, TraceSqlsField::RunMode]));
    t.db_host = "h".repeat(33);
    assert_eq!(
        t.validate(),
        Err(vec![TraceSqlsField::AppUuid, TraceSqlsField::DbHost, TraceSqlsField::RunMode])
    );
    let f = file(&"f".repeat(129), 1, "C", "2021-10-08T12:00:00");
    let u = NewTraceSqlFiles::from_json(&f, &None, &None).unwrap();
    assert_eq!(u.validate(), Err(vec![TraceSqlFilesField::TraceFile]));
    let g = file("f", 1, &"c".repeat(128), "2021-10-08T12:00:00");
    assert_eq!(NewTraceSqlFiles::from_json(&g, &None, &None).unwrap().validate(), Ok(()));
}

#[test]
fn new_users_one_per_name() {
    let users = new_users(&vec!["first".to_string(), "second".to_string()]);
    assert_eq!(users.len(), 2);
    assert_eq!(users[0].name, "first");
    assert_eq!(users[1].name, "second");
    assert!(new_users(&vec![]).is_empty());
}
