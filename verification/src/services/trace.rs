//! Batches of SQL traces as clients report them, and their preparation for
//! storage.
use vstd::prelude::*;
use crate::models::{opt_view, uuid_resolved, TraceError};
use crate::models::timestamp::Timestamp;
use crate::models::trace_sql_files::NewTraceSqlFiles;
use crate::models::trace_sqls::NewTraceSqls;

verus! {

/// One place in the code that led to a traced SQL statement, as reported.
pub struct RequestNewTraceSqlFile {
    pub app_uuid: Option<String>,
    pub sql_uuid: Option<String>,
    pub trace_file: String,
    pub trace_line: u32,
    pub trace_class: String,
    pub created_at: String,
}

/// One traced SQL statement, as reported, with the code places that led to
/// it.
pub struct RequestNewTraceSql {
    pub app_uuid: Option<String>,
    pub sql_uuid: Option<String>,
    pub db_host: String,
    pub run_host: String,
    pub run_ms: u32,
    pub run_mode: String,
    pub request_uri: String,
    pub referer: String,
    pub trace_sql_md5: String,
    pub trace_sql: String,
    pub trace_sql_binds: String,
    pub created_at: String,
    pub trace_files: Vec<RequestNewTraceSqlFile>,
}


/// What a batch of reported traces becomes: the rows to insert into
/// `trace_sqls` and `trace_sql_files`, and the distinct app and sql uuids
/// that the rows carry, in order of first appearance.
pub struct PreparedBatch {
    pub trace_sqls: Vec<NewTraceSqls>,
    pub trace_sql_files: Vec<NewTraceSqlFiles>,
    pub app_uuids: Vec<String>,
    pub sql_uuids: Vec<String>,
}

/// The texts of a sequence of strings.
pub open spec fn texts(v: Seq<String>) -> Seq<Seq<char>> {
    v.map_values(|s: String| s@)
}

/// The app uuids of a sequence of rows.
pub open spec fn app_uuid_texts(rows: Seq<NewTraceSqls>) -> Seq<Seq<char>> {
    rows.map_values(|r: NewTraceSqls| r.app_uuid@)
}

/// The sql uuids of a sequence of rows.
pub open spec fn sql_uuid_texts(rows: Seq<NewTraceSqls>) -> Seq<Seq<char>> {
    rows.map_values(|r: NewTraceSqls| r.sql_uuid@)
}

/// The elements of `s` in order of first appearance, each once.
pub open spec fn dedup(s: Seq<Seq<char>>) -> Seq<Seq<char>>
    decreases s.len(),
{
    if s.len() == 0 {
        Seq::empty()
    } else {
        let d = dedup(s.drop_last());
        if d.contains(s.last()) {
            d
        } else {
            d.push(s.last())
        }
    }
}

/// How many code places the first `i` reported statements carry, that is,
/// where the rows of statement `i` start in `trace_sql_files`.
pub open spec fn files_before(reqs: Seq<RequestNewTraceSql>, i: int) -> nat
    decreases i,
{
    if i <= 0 {
        0
    } else {
        files_before(reqs, i - 1) + reqs[i - 1].trace_files@.len()
    }
}

/// The creation times of a reported statement and of all its code places
/// are dates and times.
pub open spec fn created_at_ok(r: RequestNewTraceSql) -> bool {
    &&& Timestamp::parsed(r.created_at@) is Some
    &&& forall|j: int|
        0 <= j < r.trace_files@.len() ==> Timestamp::parsed(#[trigger] r.trace_files@[j].created_at@) is Some
}

/// `t` is the row of the reported statement `req`, uuids aside.
pub open spec fn sql_row_of(t: NewTraceSqls, req: RequestNewTraceSql) -> bool {
    &&& t.copies(req)
    &&& Some(t.created_at) == Timestamp::parsed(req.created_at@)
}

/// `f` is the row of the reported code place `req` under the statement
/// row `parent`, whose uuids it carries.
pub open spec fn file_row_of(f: NewTraceSqlFiles, req: RequestNewTraceSqlFile, parent: NewTraceSqls) -> bool {
    &&& f.copies(req)
    &&& Some(f.created_at) == Timestamp::parsed(req.created_at@)
    &&& f.app_uuid@ == parent.app_uuid@
    &&& f.sql_uuid@ == parent.sql_uuid@
}

/// `b` is a preparation of the batch `reqs`: one statement row per report,
/// all carrying the first statement's app uuid (its own, else a random
/// one), each its own sql uuid (else a random one); one file row per code
/// place, statement by statement, carrying its statement's uuids; and the
/// distinct uuids used.
pub open spec fn batch_prepared(reqs: Seq<RequestNewTraceSql>, b: PreparedBatch) -> bool {
    let rows = b.trace_sqls@;
    let files = b.trace_sql_files@;
    &&& rows.len() == reqs.len()
    &&& forall|i: int| 0 <= i < reqs.len() ==> sql_row_of(#[trigger] rows[i], reqs[i])
    &&& forall|i: int| 0 <= i < reqs.len() ==> (#[trigger] rows[i]).app_uuid@ == rows[0].app_uuid@
    &&& reqs.len() > 0 ==> uuid_resolved(None, opt_view(reqs[0].app_uuid), rows[0].app_uuid@)
    &&& forall|i: int|
        0 <= i < reqs.len() ==> uuid_resolved(None, opt_view(reqs[i].sql_uuid), (#[trigger] rows[i]).sql_uuid@)
    &&& files.len() == files_before(reqs, reqs.len() as int)
    &&& forall|i: int, j: int|
        0 <= i < reqs.len() && 0 <= j < reqs[i].trace_files@.len() ==> file_row_of(
            files[files_before(reqs, i) + j],
            #[trigger] reqs[i].trace_files@[j],
            rows[i],
        )
    &&& texts(b.app_uuids@) == dedup(app_uuid_texts(rows))
    &&& texts(b.sql_uuids@) == dedup(sql_uuid_texts(rows))
    &&& generated_sql_uuids_unique(reqs, rows)
}

/// A statement row whose sql uuid was generated (its report had none)
/// shares that sql uuid with no other row.
pub open spec fn generated_sql_uuids_unique(reqs: Seq<RequestNewTraceSql>, rows: Seq<NewTraceSqls>) -> bool {
    forall|a: int, b: int|
        0 <= a < reqs.len() && 0 <= b < reqs.len() && a != b && reqs[a].sql_uuid is None
            ==> (#[trigger] rows[a]).sql_uuid@ != (#[trigger] rows[b]).sql_uuid@
}

/// The sql uuids that the statements of `reqs` report.
fn reported_sql_uuids(reqs: &Vec<RequestNewTraceSql>) -> (r: Vec<String>)
    ensures
        forall|k: int|
            0 <= k < reqs@.len() ==> ((#[trigger] reqs@[k]).sql_uuid matches Some(x) ==> texts(r@).contains(x@)),
{
    let n = reqs.len();
    let mut r: Vec<String> = Vec::new();
    let mut i: usize = 0;
    while i < n
        invariant
            n == reqs@.len(),
            i <= n,
            forall|k: int|
                0 <= k < i ==> ((#[trigger] reqs@[k]).sql_uuid matches Some(x) ==> texts(r@).contains(x@)),
        decreases n - i,
    {
        match &reqs[i].sql_uuid {
            Some(x) => {
                let ghost before = texts(r@);
                r.push(x.clone());
                proof {
                    assert(texts(r@) =~= before.push(x@));
                    assert(texts(r@)[before.len() as int] == x@);
                    assert forall|k: int|
                        0 <= k < i + 1 implies ((#[trigger] reqs@[k]).sql_uuid matches Some(y) ==> texts(r@).contains(y@)) by {
                        if k < i {
                            if let Some(y) = reqs@[k].sql_uuid {
                                let m = choose|m: int| 0 <= m < before.len() && before[m] == y@;
                                assert(texts(r@)[m] == y@);
                            }
                        }
                    }
                }
            },
            None => {},
        }
        i = i + 1;
    }
    r
}

/// In a prepared batch, a statement that reports no sql uuid gets one that
/// no other statement row carries: not a reported one, and not one
/// generated for another statement.
pub proof fn lemma_generated_sql_uuids_distinct(reqs: Seq<RequestNewTraceSql>, b: PreparedBatch)
    requires
        batch_prepared(reqs, b),
    ensures
        forall|i: int, k: int|
            0 <= i < reqs.len() && 0 <= k < reqs.len() && i != k && reqs[i].sql_uuid is None
                ==> (#[trigger] b.trace_sqls@[i]).sql_uuid@ != (#[trigger] b.trace_sqls@[k]).sql_uuid@,
        forall|i: int, k: int|
            0 <= i < reqs.len() && 0 <= k < reqs.len() && reqs[i].sql_uuid is None
                && (#[trigger] reqs[k]).sql_uuid is Some ==> (#[trigger] b.trace_sqls@[i]).sql_uuid@
                != reqs[k].sql_uuid->0@,
{
    assert forall|i: int, k: int|
        0 <= i < reqs.len() && 0 <= k < reqs.len() && reqs[i].sql_uuid is None
            && (#[trigger] reqs[k]).sql_uuid is Some implies (#[trigger] b.trace_sqls@[i]).sql_uuid@
            != reqs[k].sql_uuid->0@ by {
        if i != k {
            assert(b.trace_sqls@[i].sql_uuid@ != b.trace_sqls@[k].sql_uuid@);
        }
    }
}

/// Adding the row `t` of statement `i` keeps the generated sql uuids unique,
/// where `t`'s generated sql uuid avoids `taken_old`, which holds the
/// reported sql uuids and those of the rows before.
proof fn lemma_fresh_row_unique(
    reqs: Seq<RequestNewTraceSql>,
    i: int,
    rows_old: Seq<NewTraceSqls>,
    t: NewTraceSqls,
    taken_old: Seq<Seq<char>>,
    taken_new: Seq<Seq<char>>,
)
    requires
        0 <= i < reqs.len(),
        rows_old.len() == i,
        taken_new == taken_old.push(t.sql_uuid@),
        uuid_resolved(None, opt_view(reqs[i].sql_uuid), t.sql_uuid@),
        reqs[i].sql_uuid is None ==> !taken_old.contains(t.sql_uuid@),
        forall|k: int|
            0 <= k < reqs.len() ==> ((#[trigger] reqs[k]).sql_uuid matches Some(x) ==> taken_old.contains(x@)),
        forall|k: int| 0 <= k < i ==> taken_old.contains((#[trigger] rows_old[k]).sql_uuid@),
        forall|a: int, k: int|
            0 <= a < i && 0 <= k < reqs.len() && reqs[a].sql_uuid is None && (#[trigger] reqs[k]).sql_uuid is Some
                ==> (#[trigger] rows_old[a]).sql_uuid@ != reqs[k].sql_uuid->0@,
        generated_sql_uuids_unique(reqs.take(i), rows_old),
    ensures
        forall|k: int|
            0 <= k < reqs.len() ==> ((#[trigger] reqs[k]).sql_uuid matches Some(x) ==> taken_new.contains(x@)),
        forall|k: int| 0 <= k < i + 1 ==> taken_new.contains((#[trigger] rows_old.push(t)[k]).sql_uuid@),
        forall|a: int, k: int|
            0 <= a < i + 1 && 0 <= k < reqs.len() && reqs[a].sql_uuid is None && (#[trigger] reqs[k]).sql_uuid is Some
                ==> (#[trigger] rows_old.push(t)[a]).sql_uuid@ != reqs[k].sql_uuid->0@,
        generated_sql_uuids_unique(reqs.take(i + 1), rows_old.push(t)),
{
    let rows = rows_old.push(t);
    assert(taken_new[taken_old.len() as int] == t.sql_uuid@);
    assert forall|y: Seq<char>| taken_old.contains(y) implies taken_new.contains(y) by {
        let m = choose|m: int| 0 <= m < taken_old.len() && taken_old[m] == y;
        assert(taken_new[m] == y);
    }
    assert forall|k: int|
        0 <= k < reqs.len() implies ((#[trigger] reqs[k]).sql_uuid matches Some(x) ==> taken_new.contains(x@)) by {
        if let Some(x) = reqs[k].sql_uuid {
            assert(taken_old.contains(x@));
        }
    }
    assert forall|k: int| 0 <= k < i + 1 implies taken_new.contains((#[trigger] rows[k]).sql_uuid@) by {
        if k < i {
            assert(rows[k] == rows_old[k]);
            assert(taken_old.contains(rows_old[k].sql_uuid@));
        }
    }
    assert forall|a: int, k: int|
        0 <= a < i + 1 && 0 <= k < reqs.len() && reqs[a].sql_uuid is None && (#[trigger] reqs[k]).sql_uuid is Some
            implies (#[trigger] rows[a]).sql_uuid@ != reqs[k].sql_uuid->0@ by {
        if a < i {
            assert(rows[a] == rows_old[a]);
        } else {
            assert(taken_old.contains(reqs[k].sql_uuid->0@));
        }
    }
    let q = reqs.take(i + 1);
    assert forall|a: int, b: int|
        0 <= a < q.len() && 0 <= b < q.len() && a != b && q[a].sql_uuid is None
            implies (#[trigger] rows[a]).sql_uuid@ != (#[trigger] rows[b]).sql_uuid@ by {
        assert(q[a] == reqs[a]);
        assert(q[b] == reqs[b]);
        if a < i && b < i {
            assert(reqs.take(i)[a] == reqs[a]);
            assert(reqs.take(i)[b] == reqs[b]);
            assert(rows[a] == rows_old[a] && rows[b] == rows_old[b]);
        } else if a == i {
            assert(rows[b] == rows_old[b]);
            assert(taken_old.contains(rows_old[b].sql_uuid@));
        } else {
            assert(b == i);
            assert(rows[a] == rows_old[a]);
            if reqs[i].sql_uuid is Some {
                assert(rows_old[a].sql_uuid@ != reqs[i].sql_uuid->0@);
            } else {
                assert(taken_old.contains(rows_old[a].sql_uuid@));
            }
        }
    }
}

/// Appends `s` to `v` unless `v` already holds that text.
fn push_distinct(v: &mut Vec<String>, s: String)
    ensures
        texts(final(v)@) == if texts(old(v)@).contains(s@) {
            texts(old(v)@)
        } else {
            texts(old(v)@).push(s@)
        },
{
    let n = v.len();
    let mut i: usize = 0;
    while i < n
        invariant
            n == v@.len(),
            i <= n,
            forall|k: int| 0 <= k < i ==> texts(v@)[k] != s@,
        decreases n - i,
    {
        if v[i] == s {
            assert(texts(v@)[i as int] == s@);
            return;
        }
        i = i + 1;
    }
    let ghost before = texts(v@);
    assert(!before.contains(s@));
    v.push(s);
    assert(texts(v@) =~= before.push(s@));
}


proof fn lemma_files_before_mono(reqs: Seq<RequestNewTraceSql>, a: int, b: int)
    requires
        0 <= a <= b,
    ensures
        files_before(reqs, a) <= files_before(reqs, b),
    decreases b - a,
{
    if a < b {
        lemma_files_before_mono(reqs, a, b - 1);
    }
}

/// The rows of the reported code places `files` of the statement row
/// `parent`, appended to `out`; on a creation time that is not a date and
/// time it stops with an error.
fn append_file_rows(files: &Vec<RequestNewTraceSqlFile>, parent: &NewTraceSqls, out: &mut Vec<NewTraceSqlFiles>) -> (r: Result<(), TraceError>)
    ensures
        r is Ok <==> forall|j: int|
            0 <= j < files@.len() ==> Timestamp::parsed(#[trigger] files@[j].created_at@) is Some,
        r matches Err(e) ==> e == TraceError::InvalidCreatedAt,
        r is Ok ==> {
            &&& final(out)@.len() == old(out)@.len() + files@.len()
            &&& forall|k: int| 0 <= k < old(out)@.len() ==> final(out)@[k] == old(out)@[k]
            &&& forall|j: int|
                0 <= j < files@.len() ==> file_row_of(
                    final(out)@[old(out)@.len() + j],
                    #[trigger] files@[j],
                    *parent,
                )
        },
{
    let app_uuid = Some(parent.app_uuid.clone());
    let sql_uuid = Some(parent.sql_uuid.clone());
    let m = files.len();
    let ghost start = out@;
    let mut j: usize = 0;
    while j < m
        invariant
            m == files@.len(),
            j <= m,
            opt_view(app_uuid) == Some(parent.app_uuid@),
            opt_view(sql_uuid) == Some(parent.sql_uuid@),
            out@.len() == start.len() + j,
            forall|k: int| 0 <= k < start.len() ==> out@[k] == start[k],
            forall|jj: int|
                0 <= jj < j ==> Timestamp::parsed(#[trigger] files@[jj].created_at@) is Some,
            forall|jj: int|
                0 <= jj < j ==> file_row_of(out@[start.len() + jj], #[trigger] files@[jj], *parent),
        decreases m - j,
    {
        let f = match NewTraceSqlFiles::from_json(&files[j], &app_uuid, &sql_uuid) {
            Ok(f) => f,
            Err(e) => {
                return Err(e);
            },
        };
        out.push(f);
        j = j + 1;
    }
    Ok(())
}

/// Turns a batch of reported traces into rows. Every statement row carries
/// the app uuid of the first statement (the reported one, else a new random
/// one) and its own sql uuid (the reported one, else a new random one);
/// every code place row carries the uuids of its statement. Fails where a
/// reported creation time is not a date and time.
pub fn prepare_batch(reqs: &Vec<RequestNewTraceSql>) -> (r: Result<PreparedBatch, TraceError>)
    ensures
        r is Ok <==> forall|i: int| 0 <= i < reqs@.len() ==> created_at_ok(#[trigger] reqs@[i]),
        r matches Err(e) ==> e == TraceError::InvalidCreatedAt,
        r matches Ok(b) ==> batch_prepared(reqs@, b),
{
    let n = reqs.len();
    let mut trace_sqls: Vec<NewTraceSqls> = Vec::new();
    let mut trace_sql_files: Vec<NewTraceSqlFiles> = Vec::new();
    let mut app_uuids: Vec<String> = Vec::new();
    let mut sql_uuids: Vec<String> = Vec::new();
    let mut app_uuid: Option<String> = None;
    let mut taken: Vec<String> = reported_sql_uuids(reqs);
    let mut i: usize = 0;
    assert(texts(app_uuids@) =~= dedup(app_uuid_texts(trace_sqls@)));
    assert(texts(sql_uuids@) =~= dedup(sql_uuid_texts(trace_sqls@)));
    while i < n
        invariant
            n == reqs@.len(),
            i <= n,
            trace_sqls@.len() == i,
            forall|k: int| 0 <= k < i ==> created_at_ok(#[trigger] reqs@[k]),
            forall|k: int| 0 <= k < i ==> sql_row_of(#[trigger] trace_sqls@[k], reqs@[k]),
            forall|k: int|
                0 <= k < i ==> (#[trigger] trace_sqls@[k]).app_uuid@ == trace_sqls@[0].app_uuid@,
            i == 0 ==> app_uuid is None,
            i > 0 ==> opt_view(app_uuid) == Some(trace_sqls@[0].app_uuid@),
            i > 0 ==> uuid_resolved(None, opt_view(reqs@[0].app_uuid), trace_sqls@[0].app_uuid@),
            forall|k: int|
                0 <= k < i ==> uuid_resolved(
                    None,
                    opt_view(reqs@[k].sql_uuid),
                    (#[trigger] trace_sqls@[k]).sql_uuid@,
                ),
            trace_sql_files@.len() == files_before(reqs@, i as int),
            forall|k: int, j: int|
                0 <= k < i && 0 <= j < reqs@[k].trace_files@.len() ==> file_row_of(
                    trace_sql_files@[files_before(reqs@, k) + j],
                    #[trigger] reqs@[k].trace_files@[j],
                    trace_sqls@[k],
                ),
            texts(app_uuids@) == dedup(app_uuid_texts(trace_sqls@)),
            texts(sql_uuids@) == dedup(sql_uuid_texts(trace_sqls@)),
            forall|k: int|
                0 <= k < n ==> ((#[trigger] reqs@[k]).sql_uuid matches Some(x) ==> texts(taken@).contains(x@)),
            forall|k: int| 0 <= k < i ==> texts(taken@).contains((#[trigger] trace_sqls@[k]).sql_uuid@),
            forall|a: int, k: int|
                0 <= a < i && 0 <= k < n && reqs@[a].sql_uuid is None && (#[trigger] reqs@[k]).sql_uuid is Some
                    ==> (#[trigger] trace_sqls@[a]).sql_uuid@ != reqs@[k].sql_uuid->0@,
            generated_sql_uuids_unique(reqs@.take(i as int), trace_sqls@),
        decreases n - i,
    {
        let req = &reqs[i];
        let trace_sql = match NewTraceSqls::from_json_avoiding(req, &app_uuid, &taken) {
            Ok(t) => t,
            Err(e) => {
                assert(!created_at_ok(reqs@[i as int]));
                return Err(e);
            },
        };
        app_uuid = Some(trace_sql.app_uuid.clone());
        push_distinct(&mut app_uuids, trace_sql.app_uuid.clone());
        push_distinct(&mut sql_uuids, trace_sql.sql_uuid.clone());
        let ghost files_old = trace_sql_files@;
        match append_file_rows(&req.trace_files, &trace_sql, &mut trace_sql_files) {
            Ok(()) => {},
            Err(e) => {
                assert(!created_at_ok(reqs@[i as int]));
                return Err(e);
            },
        }
        let ghost rows_old = trace_sqls@;
        let ghost taken_old = texts(taken@);
        let ghost t = trace_sql;
        taken.push(trace_sql.sql_uuid.clone());
        trace_sqls.push(trace_sql);
        proof {
            assert(texts(taken@) =~= taken_old.push(t.sql_uuid@));
            lemma_fresh_row_unique(reqs@, i as int, rows_old, t, taken_old, texts(taken@));
            let rows = trace_sqls@;
            assert(rows.drop_last() =~= rows_old);
            assert(app_uuid_texts(rows).drop_last() =~= app_uuid_texts(rows_old));
            assert(sql_uuid_texts(rows).drop_last() =~= sql_uuid_texts(rows_old));
            assert(forall|k: int| 0 <= k < i ==> rows[k] == rows_old[k]);
            assert(created_at_ok(reqs@[i as int]));
            assert forall|k: int, j: int|
                0 <= k < i + 1 && 0 <= j < reqs@[k].trace_files@.len() implies file_row_of(
                trace_sql_files@[files_before(reqs@, k) + j],
                #[trigger] reqs@[k].trace_files@[j],
                trace_sqls@[k],
            ) by {
                if k < i {
                    lemma_files_before_mono(reqs@, k + 1, i as int);
                    assert(trace_sql_files@[files_before(reqs@, k) + j] == files_old[files_before(reqs@, k) + j]);
                    assert(rows[k] == rows_old[k]);
                }
            }
        }
        i = i + 1;
    }
    assert(reqs@.take(n as int) =~= reqs@);
    Ok(PreparedBatch { trace_sqls, trace_sql_files, app_uuids, sql_uuids })
}


/// `s` holds no element twice.
pub open spec fn no_duplicates(s: Seq<Seq<char>>) -> bool {
    forall|a: int, b: int| 0 <= a < b < s.len() ==> s[a] != s[b]
}

/// `dedup` keeps every element once: it holds no element twice, and it
/// holds exactly the elements of its argument.
pub proof fn lemma_dedup(s: Seq<Seq<char>>)
    ensures
        no_duplicates(dedup(s)),
        forall|x: Seq<char>| dedup(s).contains(x) <==> s.contains(x),
    decreases s.len(),
{
    if s.len() > 0 {
        let p = s.drop_last();
        lemma_dedup(p);
        let d = dedup(p);
        let l = s.last();
        assert forall|x: Seq<char>| dedup(s).contains(x) <==> s.contains(x) by {
            if dedup(s).contains(x) {
                if d.contains(x) {
                    assert(p.contains(x));
                    let k = choose|k: int| 0 <= k < p.len() && p[k] == x;
                    assert(s[k] == x);
                } else {
                    assert(x == l);
                    assert(s[s.len() - 1] == x);
                }
            }
            if s.contains(x) {
                let k = choose|k: int| 0 <= k < s.len() && s[k] == x;
                if k < s.len() - 1 {
                    assert(p[k] == x);
                    assert(p.contains(x));
                    assert(d.contains(x));
                    let m = choose|m: int| 0 <= m < d.len() && d[m] == x;
                    if !d.contains(l) {
                        assert(d.push(l)[m] == x);
                    }
                } else {
                    if !d.contains(l) {
                        assert(d.push(l)[d.len() as int] == l);
                    }
                }
            }
        }
    }
}

/// The distinct uuids that a prepared batch reports are, each once, the
/// uuids that its statement rows carry.
pub proof fn lemma_batch_uuids_reported(reqs: Seq<RequestNewTraceSql>, b: PreparedBatch)
    requires
        batch_prepared(reqs, b),
    ensures
        no_duplicates(texts(b.app_uuids@)),
        no_duplicates(texts(b.sql_uuids@)),
        forall|x: Seq<char>|
            texts(b.app_uuids@).contains(x) <==> exists|i: int|
                0 <= i < b.trace_sqls@.len() && (#[trigger] b.trace_sqls@[i]).app_uuid@ == x,
        forall|x: Seq<char>|
            texts(b.sql_uuids@).contains(x) <==> exists|i: int|
                0 <= i < b.trace_sqls@.len() && (#[trigger] b.trace_sqls@[i]).sql_uuid@ == x,
{
    let rows = b.trace_sqls@;
    lemma_dedup(app_uuid_texts(rows));
    lemma_dedup(sql_uuid_texts(rows));
    assert forall|x: Seq<char>|
        texts(b.app_uuids@).contains(x) <==> exists|i: int|
            0 <= i < rows.len() && (#[trigger] rows[i]).app_uuid@ == x by {
        if app_uuid_texts(rows).contains(x) {
            let k = choose|k: int| 0 <= k < rows.len() && app_uuid_texts(rows)[k] == x;
            assert(rows[k].app_uuid@ == x);
        }
        if exists|i: int| 0 <= i < rows.len() && (#[trigger] rows[i]).app_uuid@ == x {
            let k = choose|k: int| 0 <= k < rows.len() && rows[k].app_uuid@ == x;
            assert(app_uuid_texts(rows)[k] == x);
        }
    }
    assert forall|x: Seq<char>|
        texts(b.sql_uuids@).contains(x) <==> exists|i: int|
            0 <= i < rows.len() && (#[trigger] rows[i]).sql_uuid@ == x by {
        if sql_uuid_texts(rows).contains(x) {
            let k = choose|k: int| 0 <= k < rows.len() && sql_uuid_texts(rows)[k] == x;
            assert(rows[k].sql_uuid@ == x);
        }
        if exists|i: int| 0 <= i < rows.len() && (#[trigger] rows[i]).sql_uuid@ == x {
            let k = choose|k: int| 0 <= k < rows.len() && rows[k].sql_uuid@ == x;
            assert(sql_uuid_texts(rows)[k] == x);
        }
    }
}

/// A non-empty batch reports exactly one app uuid: the one that all its
/// rows carry.
pub proof fn lemma_batch_one_app_uuid(reqs: Seq<RequestNewTraceSql>, b: PreparedBatch)
    requires
        batch_prepared(reqs, b),
        reqs.len() > 0,
    ensures
        texts(b.app_uuids@) == seq![b.trace_sqls@[0].app_uuid@],
        forall|j: int| 0 <= j < b.trace_sql_files@.len() ==> (#[trigger] b.trace_sql_files@[j]).app_uuid@ == b.trace_sqls@[0].app_uuid@,
{
    let rows = b.trace_sqls@;
    let x = rows[0].app_uuid@;
    lemma_batch_uuids_reported(reqs, b);
    let t = texts(b.app_uuids@);
    assert(rows[0].app_uuid@ == x);
    assert(t.contains(x));
    assert forall|k: int| 0 <= k < t.len() implies t[k] == x by {
        assert(t.contains(t[k]));
        let i = choose|i: int| 0 <= i < rows.len() && (#[trigger] rows[i]).app_uuid@ == t[k];
        assert(rows[i].app_uuid@ == x);
    }
    if t.len() > 1 {
        assert(t[0] == t[1]);
    }
    assert(t =~= seq![x]);
    assert forall|j: int| 0 <= j < b.trace_sql_files@.len() implies (#[trigger] b.trace_sql_files@[j]).app_uuid@ == x by {
        let (i, jj) = lemma_file_row_parent(reqs, b, j);
        assert(rows[i].app_uuid@ == x);
    }
}

/// Every file row of a prepared batch belongs to some statement: it is the
/// row of that statement's `jj`-th code place.
pub proof fn lemma_file_row_parent(reqs: Seq<RequestNewTraceSql>, b: PreparedBatch, j: int) -> (ij: (int, int))
    requires
        batch_prepared(reqs, b),
        0 <= j < b.trace_sql_files@.len(),
    ensures
        0 <= ij.0 < reqs.len(),
        0 <= ij.1 < reqs[ij.0].trace_files@.len(),
        j == files_before(reqs, ij.0) + ij.1,
        file_row_of(b.trace_sql_files@[j], reqs[ij.0].trace_files@[ij.1], b.trace_sqls@[ij.0]),
{
    let i = find_statement(reqs, j, reqs.len() as int);
    let jj = j - files_before(reqs, i);
    (i, jj)
}

proof fn find_statement(reqs: Seq<RequestNewTraceSql>, j: int, n: int) -> (i: int)
    requires
        0 <= n <= reqs.len(),
        0 <= j < files_before(reqs, n),
    ensures
        0 <= i < n,
        files_before(reqs, i) <= j < files_before(reqs, i + 1),
    decreases n,
{
    if j >= files_before(reqs, n - 1) {
        n - 1
    } else {
        find_statement(reqs, j, n - 1)
    }
}

/// The sql uuids that the first `n` statements of `reqs` report, in order.
pub open spec fn reported_sql_texts(reqs: Seq<RequestNewTraceSql>, n: int) -> Seq<Seq<char>>
    decreases n,
{
    if n <= 0 {
        Seq::empty()
    } else {
        let before = reported_sql_texts(reqs, n - 1);
        match reqs[n - 1].sql_uuid {
            Some(x) => before.push(x@),
            None => before,
        }
    }
}

/// How many of the first `n` statements of `reqs` report no sql uuid.
pub open spec fn unreported_sql_count(reqs: Seq<RequestNewTraceSql>, n: int) -> nat
    decreases n,
{
    if n <= 0 {
        0
    } else {
        unreported_sql_count(reqs, n - 1) + if reqs[n - 1].sql_uuid is None { 1nat } else { 0nat }
    }
}

/// A prepared batch reports one sql uuid for each distinct sql uuid that
/// its statements report, and one more for each statement that reports
/// none.
pub proof fn lemma_batch_sql_uuid_count(reqs: Seq<RequestNewTraceSql>, b: PreparedBatch)
    requires
        batch_prepared(reqs, b),
    ensures
        b.sql_uuids@.len() == dedup(reported_sql_texts(reqs, reqs.len() as int)).len()
            + unreported_sql_count(reqs, reqs.len() as int),
{
    let rows = b.trace_sqls@;
    lemma_sql_uuid_count_prefix(reqs, rows, reqs.len() as int);
    assert(sql_uuid_texts(rows).take(reqs.len() as int) =~= sql_uuid_texts(rows));
    assert(texts(b.sql_uuids@).len() == b.sql_uuids@.len());
}

/// A text is among the sql uuids that the first `n` statements report
/// exactly when one of them reports it.
proof fn lemma_reported_contains(reqs: Seq<RequestNewTraceSql>, n: int)
    requires
        0 <= n <= reqs.len(),
    ensures
        forall|v: Seq<char>|
            reported_sql_texts(reqs, n).contains(v) <==> exists|k: int|
                0 <= k < n && (#[trigger] reqs[k]).sql_uuid is Some && reqs[k].sql_uuid->0@ == v,
    decreases n,
{
    if n > 0 {
        lemma_reported_contains(reqs, n - 1);
        let before = reported_sql_texts(reqs, n - 1);
        let now = reported_sql_texts(reqs, n);
        assert forall|v: Seq<char>|
            now.contains(v) <==> exists|k: int|
                0 <= k < n && (#[trigger] reqs[k]).sql_uuid is Some && reqs[k].sql_uuid->0@ == v by {
            match reqs[n - 1].sql_uuid {
                Some(x) => {
                    assert(now == before.push(x@));
                    if now.contains(v) {
                        let m = choose|m: int| 0 <= m < now.len() && now[m] == v;
                        if m < before.len() {
                            assert(before[m] == v);
                            assert(before.contains(v));
                        } else {
                            assert(reqs[n - 1].sql_uuid->0@ == v);
                        }
                    }
                    if exists|k: int|
                        0 <= k < n && (#[trigger] reqs[k]).sql_uuid is Some && reqs[k].sql_uuid->0@ == v {
                        let k = choose|k: int|
                            0 <= k < n && (#[trigger] reqs[k]).sql_uuid is Some && reqs[k].sql_uuid->0@ == v;
                        if k < n - 1 {
                            assert(before.contains(v));
                            let m = choose|m: int| 0 <= m < before.len() && before[m] == v;
                            assert(now[m] == v);
                        } else {
                            assert(now[before.len() as int] == v);
                        }
                    }
                },
                None => {
                    assert(now == before);
                    if exists|k: int|
                        0 <= k < n && (#[trigger] reqs[k]).sql_uuid is Some && reqs[k].sql_uuid->0@ == v {
                        let k = choose|k: int|
                            0 <= k < n && (#[trigger] reqs[k]).sql_uuid is Some && reqs[k].sql_uuid->0@ == v;
                        assert(k < n - 1);
                    }
                },
            }
        }
    }
}

/// The count of `lemma_batch_sql_uuid_count`, over the first `n` rows.
proof fn lemma_sql_uuid_count_prefix(reqs: Seq<RequestNewTraceSql>, rows: Seq<NewTraceSqls>, n: int)
    requires
        rows.len() == reqs.len(),
        0 <= n <= reqs.len(),
        forall|i: int|
            0 <= i < reqs.len() ==> uuid_resolved(None, opt_view(reqs[i].sql_uuid), (#[trigger] rows[i]).sql_uuid@),
        generated_sql_uuids_unique(reqs, rows),
    ensures
        dedup(sql_uuid_texts(rows).take(n)).len() == dedup(reported_sql_texts(reqs, n)).len()
            + unreported_sql_count(reqs, n),
    decreases n,
{
    if n > 0 {
        lemma_sql_uuid_count_prefix(reqs, rows, n - 1);
        let all = sql_uuid_texts(rows);
        let s = all.take(n);
        let sp = all.take(n - 1);
        assert(s.drop_last() =~= sp);
        assert(s.last() == rows[n - 1].sql_uuid@);
        lemma_dedup(sp);
        let rp = reported_sql_texts(reqs, n - 1);
        lemma_dedup(rp);
        lemma_reported_contains(reqs, n - 1);
        let v = rows[n - 1].sql_uuid@;
        assert(uuid_resolved(None, opt_view(reqs[n - 1].sql_uuid), rows[n - 1].sql_uuid@));
        match reqs[n - 1].sql_uuid {
            None => {
                assert(!sp.contains(v)) by {
                    if sp.contains(v) {
                        let k = choose|k: int| 0 <= k < sp.len() && sp[k] == v;
                        assert(sp[k] == rows[k].sql_uuid@);
                        assert(rows[n - 1].sql_uuid@ != rows[k].sql_uuid@);
                    }
                }
                assert(!dedup(sp).contains(v));
                assert(dedup(s) == dedup(sp).push(v));
                assert(reported_sql_texts(reqs, n) == rp);
            },
            Some(x) => {
                assert(v == x@);
                assert(reported_sql_texts(reqs, n) == rp.push(x@));
                assert(sp.contains(v) <==> rp.contains(v)) by {
                    if sp.contains(v) {
                        let k = choose|k: int| 0 <= k < sp.len() && sp[k] == v;
                        assert(sp[k] == rows[k].sql_uuid@);
                        assert(uuid_resolved(None, opt_view(reqs[k].sql_uuid), rows[k].sql_uuid@));
                        if reqs[k].sql_uuid is None {
                            assert(rows[k].sql_uuid@ != rows[n - 1].sql_uuid@);
                        } else {
                            assert(reqs[k].sql_uuid->0@ == v);
                        }
                    }
                    if rp.contains(v) {
                        let k = choose|k: int|
                            0 <= k < n - 1 && (#[trigger] reqs[k]).sql_uuid is Some && reqs[k].sql_uuid->0@ == v;
                        assert(uuid_resolved(None, opt_view(reqs[k].sql_uuid), rows[k].sql_uuid@));
                        assert(sp[k] == v);
                    }
                }
                assert(rp.push(x@).drop_last() =~= rp);
                assert(rp.push(x@).last() == v);
                if rp.contains(v) {
                    assert(dedup(s) == dedup(sp));
                    assert(dedup(rp.push(x@)) == dedup(rp));
                } else {
                    assert(dedup(s) == dedup(sp).push(v));
                    assert(dedup(rp.push(x@)) == dedup(rp).push(v));
                }
            },
        }
    } else {
        assert(sql_uuid_texts(rows).take(n) =~= Seq::<Seq<char>>::empty());
    }
}

} // verus!
