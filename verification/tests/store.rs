use exoplanet_query::api::{conclude, prepare, QueryError};
use exoplanet_query::filter::ValidationError;
use exoplanet_query::model::data::{Data, PlanetData};
use exoplanet_query::model::input::{Input, Page, PageKind};
use exoplanet_query::sqlite::to_builder;
use sqlx::sqlite::SqliteRow;
use sqlx::{Connection, Row, SqliteConnection};

const SCHEMA: &str = "CREATE TABLE exoplanet_data (
    id INTEGER PRIMARY KEY,
    pl_name TEXT NOT NULL,
    hostname TEXT NOT NULL,
    pl_letter TEXT NOT NULL,
    sy_snum TEXT NOT NULL,
    sy_pnum TEXT NOT NULL,
    sy_mnum TEXT NOT NULL,
    cb_flag INTEGER NOT NULL,
    default_flag BOOLEAN NOT NULL,
    discoverymethod TEXT,
    disc_year TEXT NOT NULL,
    disc_refname TEXT NOT NULL,
    disc_pubdate TEXT NOT NULL,
    disc_refhref TEXT NOT NULL,
    caltech_href TEXT NOT NULL,
    disc_telescope TEXT NOT NULL,
    pl_orbper TEXT,
    pl_orbpererr1 TEXT,
    pl_orbpererr2 TEXT,
    pl_rade TEXT,
    pl_radeerr1 TEXT,
    pl_radeerr2 TEXT,
    pl_bmasse TEXT,
    pl_bmasseerr1 TEXT,
    pl_bmasseerr2 TEXT,
    pl_bmassprov TEXT,
    releasedate TEXT NOT NULL,
    st_spectype TEXT,
    disc_facility TEXT NOT NULL
)";

const INSERT: &str = "INSERT INTO exoplanet_data (
    id, pl_name, hostname, pl_letter, sy_snum, sy_pnum, sy_mnum, cb_flag, default_flag,
    discoverymethod, disc_year, disc_refname, disc_pubdate, disc_refhref, caltech_href,
    disc_telescope, releasedate, disc_facility
) VALUES (?, ?, ?, 'b', '1', ?, '0', 0, ?, ?, ?, 'ref', '2014-05', 'href', 'caltech', 'scope', '2014-05-14', 'site')";

fn record(row: &SqliteRow) -> PlanetData {
    PlanetData {
        pl_name: row.get("pl_name"),
        hostname: row.get("hostname"),
        pl_letter: row.get("pl_letter"),
        sy_snum: row.get("sy_snum"),
        sy_pnum: row.get("sy_pnum"),
        sy_mnum: row.get("sy_mnum"),
        cb_flag: row.get("cb_flag"),
        default_flag: row.get("default_flag"),
        discovery_method: row.get("discovery_method"),
        disc_year: row.get("disc_year"),
        disc_refname: row.get("disc_refname"),
        disc_pubdate: row.get("disc_pubdate"),
        disc_refhref: row.get("disc_refhref"),
        caltech_href: row.get("caltech_href"),
        disc_telescope: row.get("disc_telescope"),
        pl_orbper: row.get("pl_orbper"),
        pl_orbpererr1: row.get("pl_orbpererr1"),
        pl_orbpererr2: row.get("pl_orbpererr2"),
        pl_rade: row.get("pl_rade"),
        pl_radeerr1: row.get("pl_radeerr1"),
        pl_radeerr2: row.get("pl_radeerr2"),
        pl_bmasse: row.get("pl_bmasse"),
        pl_bmasseerr1: row.get("pl_bmasseerr1"),
        pl_bmasseerr2: row.get("pl_bmasseerr2"),
        pl_bmassprov: row.get("pl_bmassprov"),
        release_date: row.get("release_date"),
        st_spectype: row.get("st_spectype"),
        disc_facility: row.get("disc_facility"),
        id: row.get("id"),
    }
}

/// A store of 250 current records, identifiers 1 to 250, and ten superseded
/// ones, 251 to 260. Record `i` belongs to host `i % 5`, was found by
/// transit where `i` is even, and in the year `2000 + i % 20`.
async fn open_store() -> SqliteConnection {
    let mut conn = SqliteConnection::connect("sqlite::memory:").await.unwrap();
    sqlx::query(SCHEMA).execute(&mut conn).await.unwrap();
    for id in 1..=260i64 {
        let method = if id % 2 == 0 { Some("Transit") } else { None };
        sqlx::query(INSERT)
            .bind(id)
            .bind(format!("planet {id}"))
            .bind(format!("host {}", id % 5))
            .bind((id % 7).to_string())
            .bind(id <= 250)
            .bind(method)
            .bind((2000 + id % 20).to_string())
            .execute(&mut conn)
            .await
            .unwrap();
    }
    conn
}

async fn find(
    conn: &mut SqliteConnection,
    query: Vec<Input>,
    anchor_id: i64,
    kind: PageKind,
) -> Result<Option<Data>, QueryError<sqlx::Error>> {
    let compiled = prepare(query, anchor_id, kind).map_err(QueryError::Validation)?;
    let mut built = to_builder(&compiled);
    let fetched = built.builder.build().fetch_all(conn).await;
    conclude(fetched.map(|rows| rows.iter().map(record).collect()), kind)
}

async fn count_rows(conn: &mut SqliteConnection) -> i64 {
    sqlx::query("SELECT COUNT(*) FROM exoplanet_data").fetch_one(conn).await.unwrap().get(0)
}

fn run<F: std::future::Future>(future: F) -> F::Output {
    tokio::runtime::Builder::new_current_thread().enable_all().build().unwrap().block_on(future)
}

fn clause(field: &str, op: &str, value: &str) -> Input {
    Input { field: field.to_string(), comparison_op: op.to_string(), value: value.to_string() }
}

fn page_ids(page: &Data) -> Vec<i64> {
    page.planet_data.iter().map(|row| row.id).collect()
}

#[test]
fn pagination_round_trip() {
    run(async {
        let mut conn = open_store().await;
        let first = find(&mut conn, vec![], 0, PageKind::Next).await.unwrap().unwrap();
        assert_eq!(page_ids(&first), (1..=100).collect::<Vec<i64>>());
        assert_eq!((first.first_id, first.last_id), (1, 100));

        let second = find(&mut conn, vec![], first.last_id, PageKind::Next).await.unwrap().unwrap();
        assert_eq!(page_ids(&second), (101..=200).collect::<Vec<i64>>());
        assert_eq!((second.first_id, second.last_id), (101, 200));

        let back = find(&mut conn, vec![], second.first_id, PageKind::Prev).await.unwrap().unwrap();
        assert_eq!(page_ids(&back), (1..=100).collect::<Vec<i64>>());
        assert_eq!((back.first_id, back.last_id), (1, 100));
        assert_eq!(back, first);
    });
}

#[test]
fn last_page_is_short_and_nothing_follows_it() {
    run(async {
        let mut conn = open_store().await;
        let last = find(&mut conn, vec![], 200, PageKind::Next).await.unwrap().unwrap();
        assert_eq!(page_ids(&last), (201..=250).collect::<Vec<i64>>());
        assert_eq!((last.first_id, last.last_id), (201, 250));
        assert_eq!(find(&mut conn, vec![], 250, PageKind::Next).await.unwrap(), None);
    });
}

#[test]
fn nothing_precedes_the_first_page() {
    run(async {
        let mut conn = open_store().await;
        assert_eq!(find(&mut conn, vec![], 1, PageKind::Prev).await.unwrap(), None);
        assert_eq!(find(&mut conn, vec![], 0, PageKind::Prev).await.unwrap(), None);
    });
}

#[test]
fn prev_fetches_the_rows_nearest_below_the_anchor() {
    run(async {
        let mut conn = open_store().await;
        let page = find(&mut conn, vec![], 231, PageKind::Prev).await.unwrap().unwrap();
        assert_eq!(page_ids(&page), (131..=230).collect::<Vec<i64>>());
        assert_eq!((page.first_id, page.last_id), (131, 230));
        let short = find(&mut conn, vec![], 31, PageKind::Prev).await.unwrap().unwrap();
        assert_eq!(page_ids(&short), (1..=30).collect::<Vec<i64>>());
        assert_eq!((short.first_id, short.last_id), (1, 30));
    });
}

#[test]
fn negative_anchor_asks_for_the_first_page() {
    run(async {
        let mut conn = open_store().await;
        let first = find(&mut conn, vec![], 0, PageKind::Next).await.unwrap();
        assert_eq!(find(&mut conn, vec![], -1, PageKind::Next).await.unwrap(), first);
        assert_eq!(find(&mut conn, vec![], i64::MIN, PageKind::Next).await.unwrap(), first);
    });
}

#[test]
fn clauses_narrow_the_page() {
    run(async {
        let mut conn = open_store().await;
        let page = find(
            &mut conn,
            vec![clause("hostname", "=", "host 3"), clause("discovery_method", "=", "Transit")],
            0,
            PageKind::Next,
        )
        .await
        .unwrap()
        .unwrap();
        let expected: Vec<i64> = (1..=250).filter(|id| id % 5 == 3 && id % 2 == 0).collect();
        assert_eq!(page_ids(&page), expected);
        assert_eq!((page.first_id, page.last_id), (8, 248));
        assert!(page.planet_data.iter().all(|row| row.hostname == "host 3"));
        assert!(page.planet_data.iter().all(|row| row.discovery_method.as_deref() == Some("Transit")));
    });
}

#[test]
fn each_operator_compares_as_it_reads() {
    run(async {
        let mut conn = open_store().await;
        let cases: [(&str, fn(i64) -> bool); 6] = [
            ("=", |y| y == 2010),
            ("!=", |y| y != 2010),
            ("<", |y| y < 2010),
            (">", |y| y > 2010),
            ("<=", |y| y <= 2010),
            (">=", |y| y >= 2010),
        ];
        for (op, keeps) in cases {
            let page = find(&mut conn, vec![clause("disc_year", op, "2010")], 0, PageKind::Next)
                .await
                .unwrap()
                .unwrap();
            let expected: Vec<i64> = (1..=250).filter(|id| keeps(2000 + id % 20)).take(100).collect();
            assert_eq!(page_ids(&page), expected);
        }
    });
}

#[test]
fn filtered_paging_goes_there_and_back() {
    run(async {
        let mut conn = open_store().await;
        let rows = || vec![clause("disc_year", ">=", "2005")];
        let all: Vec<i64> = (1..=250).filter(|id| id % 20 >= 5).collect();
        let first = find(&mut conn, rows(), 0, PageKind::Next).await.unwrap().unwrap();
        assert_eq!(page_ids(&first), all[..100].to_vec());
        let second = find(&mut conn, rows(), first.last_id, PageKind::Next).await.unwrap().unwrap();
        assert_eq!(page_ids(&second), all[100..].to_vec());
        let back = find(&mut conn, rows(), second.first_id, PageKind::Prev).await.unwrap().unwrap();
        assert_eq!(back, first);
    });
}

#[test]
fn clause_matching_nothing_gives_no_page() {
    run(async {
        let mut conn = open_store().await;
        let found = find(&mut conn, vec![clause("pl_name", "=", "no such planet")], 0, PageKind::Next).await;
        assert_eq!(found.unwrap(), None);
    });
}

#[test]
fn literal_with_query_text_is_only_a_literal() {
    run(async {
        let mut conn = open_store().await;
        for value in [
            "x'; DROP TABLE exoplanet_data; --",
            "planet 1' OR '1'='1",
            "\" OR 1=1 --",
            "? AND id > 0",
            "planet 1; DELETE FROM exoplanet_data",
        ] {
            let found = find(&mut conn, vec![clause("pl_name", "=", value)], 0, PageKind::Next).await;
            assert_eq!(found.unwrap(), None);
            assert_eq!(count_rows(&mut conn).await, 260);
        }
        let page = find(&mut conn, vec![clause("pl_name", "!=", "' OR ''='")], 0, PageKind::Next)
            .await
            .unwrap()
            .unwrap();
        assert_eq!(page_ids(&page), (1..=100).collect::<Vec<i64>>());
    });
}

#[test]
fn literal_with_quotes_finds_the_row_that_holds_it() {
    run(async {
        let mut conn = open_store().await;
        sqlx::query("UPDATE exoplanet_data SET pl_name = ? WHERE id = 17")
            .bind("O'Brien's; \"world\" -- ?")
            .execute(&mut conn)
            .await
            .unwrap();
        let page = find(&mut conn, vec![clause("pl_name", "=", "O'Brien's; \"world\" -- ?")], 0, PageKind::Next)
            .await
            .unwrap()
            .unwrap();
        assert_eq!(page_ids(&page), vec![17]);
        assert_eq!(page.planet_data[0].pl_name, "O'Brien's; \"world\" -- ?");
    });
}

#[test]
fn clauses_cannot_reach_past_the_base_predicate() {
    run(async {
        let mut conn = open_store().await;
        let page = find(&mut conn, vec![], 250, PageKind::Next).await.unwrap();
        assert_eq!(page, None);
        let page = find(&mut conn, vec![clause("pl_name", "=", "planet 255")], 0, PageKind::Next).await.unwrap();
        assert_eq!(page, None);
        let page = find(&mut conn, vec![], 261, PageKind::Prev).await.unwrap().unwrap();
        assert_eq!(page_ids(&page), (151..=250).collect::<Vec<i64>>());
    });
}

#[test]
fn rejected_request_never_reaches_the_store() {
    run(async {
        let mut conn = open_store().await;
        sqlx::query("DROP TABLE exoplanet_data").execute(&mut conn).await.unwrap();
        let found = find(&mut conn, vec![clause("id; --", "=", "1")], 0, PageKind::Next).await;
        assert!(matches!(found, Err(QueryError::Validation(ValidationError::UnknownField(name))) if name == "id; --"));
        let found = find(&mut conn, vec![clause("pl_name", "LIKE", "%")], 0, PageKind::Next).await;
        assert!(matches!(found, Err(QueryError::Validation(ValidationError::UnknownOperator(op))) if op == "LIKE"));
    });
}

#[test]
fn store_failure_is_an_error_and_not_an_empty_page() {
    run(async {
        let mut conn = open_store().await;
        sqlx::query("DROP TABLE exoplanet_data").execute(&mut conn).await.unwrap();
        let found = find(&mut conn, vec![], 0, PageKind::Next).await;
        assert!(matches!(found, Err(QueryError::Execution(sqlx::Error::Database(_)))));
    });
}

#[test]
fn same_request_gives_the_same_page() {
    run(async {
        let mut conn = open_store().await;
        for kind in [PageKind::Next, PageKind::Prev] {
            let rows = || vec![clause("sy_pnum", "<", "4"), clause("hostname", "!=", "host 0")];
            let once = find(&mut conn, rows(), 120, kind).await.unwrap();
            let again = find(&mut conn, rows(), 120, kind).await.unwrap();
            assert!(once.is_some());
            assert_eq!(once, again);
        }
    });
}

#[test]
fn directive_walks_the_store_page_by_page() {
    run(async {
        let mut conn = open_store().await;
        let mut at = Page::first();
        let mut seen = Vec::new();
        loop {
            let step = at.toward(PageKind::Next);
            let found = find(&mut conn, vec![], step.anchor_id(), step.kind).await;
            let rows = at.receive(Some(found)).unwrap();
            if rows.is_empty() {
                break;
            }
            seen.push((rows.len(), at.first_id, at.last_id));
        }
        assert_eq!(seen, vec![(100, Some(1), 100), (100, Some(101), 200), (50, Some(201), 250)]);
        assert_eq!((at.first_id, at.last_id), (Some(201), 250));

        let step = at.toward(PageKind::Prev);
        assert_eq!(step.anchor_id(), 201);
        let found = find(&mut conn, vec![], step.anchor_id(), step.kind).await;
        let rows = at.receive(Some(found)).unwrap();
        assert_eq!(rows.len(), 100);
        assert_eq!((at.first_id, at.last_id), (Some(101), 200));
    });
}

#[test]
fn store_failure_is_received_as_a_failure_and_moves_nothing() {
    run(async {
        let mut conn = open_store().await;
        let mut at = Page::first();
        let found = find(&mut conn, vec![], at.anchor_id(), at.kind).await;
        assert_eq!(at.receive(Some(found)).unwrap().len(), 100);
        assert_eq!((at.first_id, at.last_id), (Some(1), 100));

        sqlx::query("DROP TABLE exoplanet_data").execute(&mut conn).await.unwrap();
        let step = at.toward(PageKind::Next);
        let found = find(&mut conn, vec![], step.anchor_id(), step.kind).await;
        let shown = at.receive(Some(found));
        assert!(matches!(shown, Err(QueryError::Execution(sqlx::Error::Database(_)))));
        assert_eq!((at.first_id, at.last_id), (Some(1), 100));
    });
}

#[test]
fn request_past_the_end_is_received_as_no_rows_and_moves_nothing() {
    run(async {
        let mut conn = open_store().await;
        let mut at = Page { kind: PageKind::Next, last_id: 250, first_id: Some(201) };
        let found = find(&mut conn, vec![], at.anchor_id(), at.kind).await;
        let shown = at.receive(Some(found));
        assert!(matches!(&shown, Ok(rows) if rows.is_empty()));
        assert_eq!((at.first_id, at.last_id), (Some(201), 250));
    });
}
