//! Rows of the `trace_sqls` table.
use vstd::prelude::*;
use crate::models::{opt_view, resolve_uuid_pair, uuid_resolved};
use crate::services::trace::texts;
use crate::models::timestamp::Timestamp;
use crate::models::TraceError;
use crate::services::trace::RequestNewTraceSql;

verus! {

/// A column of `trace_sqls` whose length is limited.
#[derive(Debug, Clone, Copy, PartialEq, Eq, Structural)]
pub enum TraceSqlsField {
    AppUuid,
    SqlUuid,
    DbHost,
    RunHost,
    RunMode,
    RequestUri,
    Referer,
    TraceSqlMd5,
    TraceSql,
    TraceSqlBinds,
}

/// `[f]` where `bad`, else nothing.
pub open spec fn field_if(bad: bool, f: TraceSqlsField) -> Seq<TraceSqlsField> {
    if bad {
        seq![f]
    } else {
        Seq::empty()
    }
}

/// Appends `f` to `bad` where `is_bad`.
fn note_field(bad: &mut Vec<TraceSqlsField>, is_bad: bool, f: TraceSqlsField)
    ensures
        final(bad)@ == old(bad)@ + field_if(is_bad, f),
{
    if is_bad {
        bad.push(f);
    }
    assert(final(bad)@ =~= old(bad)@ + field_if(is_bad, f));
}

/// A stored row of `trace_sqls`.
pub struct TraceSqls {
    pub id: u64,
    pub app_uuid: String,
    pub sql_uuid: String,
    pub db_host: String,
    pub run_host: String,
    pub run_ms: u32,
    pub run_mode: String,
    pub request_uri: String,
    pub referer: String,
    pub trace_sql_md5: String,
    pub trace_sql: String,
    pub trace_sql_binds: String,
    pub created_at: Timestamp,
}

/// A row of `trace_sqls` to insert.
pub struct NewTraceSqls {
    pub app_uuid: String,
    pub sql_uuid: String,
    pub db_host: String,
    pub run_host: String,
    pub run_ms: u32,
    pub run_mode: String,
    pub request_uri: String,
    pub referer: String,
    pub trace_sql_md5: String,
    pub trace_sql: String,
    pub trace_sql_binds: String,
    pub created_at: Timestamp,
}

impl NewTraceSqls {
    /// The row's reported fields are those of `req`.
    pub open spec fn copies(self, req: RequestNewTraceSql) -> bool {
        &&& self.db_host@ == req.db_host@
        &&& self.run_host@ == req.run_host@
        &&& self.run_ms == req.run_ms
        &&& self.run_mode@ == req.run_mode@
        &&& self.request_uri@ == req.request_uri@
        &&& self.referer@ == req.referer@
        &&& self.trace_sql_md5@ == req.trace_sql_md5@
        &&& self.trace_sql@ == req.trace_sql@
        &&& self.trace_sql_binds@ == req.trace_sql_binds@
    }

    /// The columns whose length, counted in characters, breaks its limit:
    /// the uuids and the md5 must have 32 characters; the hosts at most 32,
    /// the run mode 16, the request uri and referer 256, the statement
    /// 65535 and its bindings 512. In column order.
    pub open spec fn invalid_fields(self) -> Seq<TraceSqlsField> {
        field_if(self.app_uuid@.len() != 32, TraceSqlsField::AppUuid)
            + field_if(self.sql_uuid@.len() != 32, TraceSqlsField::SqlUuid)
            + field_if(self.db_host@.len() > 32, TraceSqlsField::DbHost)
            + field_if(self.run_host@.len() > 32, TraceSqlsField::RunHost)
            + field_if(self.run_mode@.len() > 16, TraceSqlsField::RunMode)
            + field_if(self.request_uri@.len() > 256, TraceSqlsField::RequestUri)
            + field_if(self.referer@.len() > 256, TraceSqlsField::Referer)
            + field_if(self.trace_sql_md5@.len() != 32, TraceSqlsField::TraceSqlMd5)
            + field_if(self.trace_sql@.len() > 65535, TraceSqlsField::TraceSql)
            + field_if(self.trace_sql_binds@.len() > 512, TraceSqlsField::TraceSqlBinds)
    }

    /// A column is listed as invalid exactly when its length breaks the
    /// column's limit: the uuids and the md5 must have exactly 32 characters,
    /// the hosts at most 32, the run mode at most 16, the request uri and the
    /// referer at most 256, the statement at most 65535 and its bindings at
    /// most 512; a row with no column listed keeps every limit.
    pub proof fn lemma_invalid_fields_listed(self)
        ensures
            self.invalid_fields().contains(TraceSqlsField::AppUuid) <==> self.app_uuid@.len() != 32,
            self.invalid_fields().contains(TraceSqlsField::SqlUuid) <==> self.sql_uuid@.len() != 32,
            self.invalid_fields().contains(TraceSqlsField::DbHost) <==> self.db_host@.len() > 32,
            self.invalid_fields().contains(TraceSqlsField::RunHost) <==> self.run_host@.len() > 32,
            self.invalid_fields().contains(TraceSqlsField::RunMode) <==> self.run_mode@.len() > 16,
            self.invalid_fields().contains(TraceSqlsField::RequestUri) <==> self.request_uri@.len() > 256,
            self.invalid_fields().contains(TraceSqlsField::Referer) <==> self.referer@.len() > 256,
            self.invalid_fields().contains(TraceSqlsField::TraceSqlMd5) <==> self.trace_sql_md5@.len() != 32,
            self.invalid_fields().contains(TraceSqlsField::TraceSql) <==> self.trace_sql@.len() > 65535,
            self.invalid_fields().contains(TraceSqlsField::TraceSqlBinds) <==> self.trace_sql_binds@.len() > 512,
            self.invalid_fields().len() == 0 <==> {
                &&& self.app_uuid@.len() == 32
                &&& self.sql_uuid@.len() == 32
                &&& self.db_host@.len() <= 32
                &&& self.run_host@.len() <= 32
                &&& self.run_mode@.len() <= 16
                &&& self.request_uri@.len() <= 256
                &&& self.referer@.len() <= 256
                &&& self.trace_sql_md5@.len() == 32
                &&& self.trace_sql@.len() <= 65535
                &&& self.trace_sql_binds@.len() <= 512
            },
    {
        broadcast use vstd::seq_lib::lemma_seq_concat_contains_all_elements;
        assert forall|b: bool, f: TraceSqlsField, g: TraceSqlsField|
            #[trigger] field_if(b, f).contains(g) <==> (b && f == g) by {
            if b && f == g {
                assert(field_if(b, f)[0] == g);
            }
        }
    }

    /// The columns of the row that break their length limits, in column order.
    fn invalid_field_list(&self) -> (bad: Vec<TraceSqlsField>)
        ensures
            bad@ == self.invalid_fields(),
    {
        let mut bad: Vec<TraceSqlsField> = Vec::new();
        note_field(&mut bad, self.app_uuid.as_str().unicode_len() != 32, TraceSqlsField::AppUuid);
        note_field(&mut bad, self.sql_uuid.as_str().unicode_len() != 32, TraceSqlsField::SqlUuid);
        note_field(&mut bad, self.db_host.as_str().unicode_len() > 32, TraceSqlsField::DbHost);
        note_field(&mut bad, self.run_host.as_str().unicode_len() > 32, TraceSqlsField::RunHost);
        note_field(&mut bad, self.run_mode.as_str().unicode_len() > 16, TraceSqlsField::RunMode);
        note_field(&mut bad, self.request_uri.as_str().unicode_len() > 256, TraceSqlsField::RequestUri);
        note_field(&mut bad, self.referer.as_str().unicode_len() > 256, TraceSqlsField::Referer);
        note_field(&mut bad, self.trace_sql_md5.as_str().unicode_len() != 32, TraceSqlsField::TraceSqlMd5);
        note_field(&mut bad, self.trace_sql.as_str().unicode_len() > 65535, TraceSqlsField::TraceSql);
        note_field(&mut bad, self.trace_sql_binds.as_str().unicode_len() > 512, TraceSqlsField::TraceSqlBinds);
        assert(bad@ =~= self.invalid_fields());
        bad
    }

    /// Checks the length limits of the row's columns; on failure, lists the
    /// columns that break them.
    pub fn validate(&self) -> (r: Result<(), Vec<TraceSqlsField>>)
        ensures
            r is Ok <==> self.invalid_fields().len() == 0,
            r matches Err(fields) ==> fields@ == self.invalid_fields(),
            r is Ok <==> {
                &&& self.app_uuid@.len() == 32
                &&& self.sql_uuid@.len() == 32
                &&& self.db_host@.len() <= 32
                &&& self.run_host@.len() <= 32
                &&& self.run_mode@.len() <= 16
                &&& self.request_uri@.len() <= 256
                &&& self.referer@.len() <= 256
                &&& self.trace_sql_md5@.len() == 32
                &&& self.trace_sql@.len() <= 65535
                &&& self.trace_sql_binds@.len() <= 512
            },
            r matches Err(fields) ==> {
                &&& fields@.contains(TraceSqlsField::AppUuid) <==> self.app_uuid@.len() != 32
                &&& fields@.contains(TraceSqlsField::SqlUuid) <==> self.sql_uuid@.len() != 32
                &&& fields@.contains(TraceSqlsField::DbHost) <==> self.db_host@.len() > 32
                &&& fields@.contains(TraceSqlsField::RunHost) <==> self.run_host@.len() > 32
                &&& fields@.contains(TraceSqlsField::RunMode) <==> self.run_mode@.len() > 16
                &&& fields@.contains(TraceSqlsField::RequestUri) <==> self.request_uri@.len() > 256
                &&& fields@.contains(TraceSqlsField::Referer) <==> self.referer@.len() > 256
                &&& fields@.contains(TraceSqlsField::TraceSqlMd5) <==> self.trace_sql_md5@.len() != 32
                &&& fields@.contains(TraceSqlsField::TraceSql) <==> self.trace_sql@.len() > 65535
                &&& fields@.contains(TraceSqlsField::TraceSqlBinds) <==> self.trace_sql_binds@.len() > 512
            },
    {
        let bad = self.invalid_field_list();
        proof {
            self.lemma_invalid_fields_listed();
        }
        if bad.len() == 0 {
            Ok(())
        } else {
            Err(bad)
        }
    }

    /// The row for `req` with the given uuids and creation time.
    pub fn from_parts(req: &RequestNewTraceSql, app_uuid: String, sql_uuid: String, created_at: Timestamp) -> (r: NewTraceSqls)
        ensures
            r.copies(*req),
            r.app_uuid@ == app_uuid@,
            r.sql_uuid@ == sql_uuid@,
            r.created_at == created_at,
    {
        NewTraceSqls {
            app_uuid,
            sql_uuid,
            db_host: req.db_host.clone(),
            run_host: req.run_host.clone(),
            run_ms: req.run_ms,
            run_mode: req.run_mode.clone(),
            request_uri: req.request_uri.clone(),
            referer: req.referer.clone(),
            trace_sql_md5: req.trace_sql_md5.clone(),
            trace_sql: req.trace_sql.clone(),
            trace_sql_binds: req.trace_sql_binds.clone(),
            created_at,
        }
    }

    /// The row for a reported statement. Its app uuid is `app_uuid` where
    /// given, else the reported one, else a new random one; its sql uuid is
    /// the reported one, else a new random one. Fails where the reported
    /// creation time is not a date and time.
    pub fn from_json(req: &RequestNewTraceSql, app_uuid: &Option<String>) -> (r: Result<NewTraceSqls, TraceError>)
        ensures
            r is Err <==> Timestamp::parsed(req.created_at@) is None,
            r matches Err(e) ==> e == TraceError::InvalidCreatedAt,
            r matches Ok(t) ==> {
                &&& t.copies(*req)
                &&& Some(t.created_at) == Timestamp::parsed(req.created_at@)
                &&& uuid_resolved(opt_view(*app_uuid), opt_view(req.app_uuid), t.app_uuid@)
                &&& uuid_resolved(None, opt_view(req.sql_uuid), t.sql_uuid@)
                &&& (app_uuid is None && req.app_uuid is None) || req.sql_uuid is None ==> t.app_uuid@
                    != t.sql_uuid@
            },
    {
        let taken: Vec<String> = Vec::new();
        NewTraceSqls::from_json_avoiding(req, app_uuid, &taken)
    }

    /// As `from_json`, where every uuid that is generated is also none of
    /// the texts of `taken`.
    pub fn from_json_avoiding(req: &RequestNewTraceSql, app_uuid: &Option<String>, taken: &Vec<String>) -> (r: Result<NewTraceSqls, TraceError>)
        ensures
            r is Err <==> Timestamp::parsed(req.created_at@) is None,
            r matches Err(e) ==> e == TraceError::InvalidCreatedAt,
            r matches Ok(t) ==> {
                &&& t.copies(*req)
                &&& Some(t.created_at) == Timestamp::parsed(req.created_at@)
                &&& uuid_resolved(opt_view(*app_uuid), opt_view(req.app_uuid), t.app_uuid@)
                &&& uuid_resolved(None, opt_view(req.sql_uuid), t.sql_uuid@)
                &&& app_uuid is None && req.app_uuid is None ==> !texts(taken@).contains(t.app_uuid@)
                    && t.app_uuid@ != t.sql_uuid@
                &&& req.sql_uuid is None ==> !texts(taken@).contains(t.sql_uuid@) && t.sql_uuid@
                    != t.app_uuid@
            },
    {
        let no_preset: Option<String> = None;
        let (app, sql) = resolve_uuid_pair(app_uuid, &req.app_uuid, &no_preset, &req.sql_uuid, taken);
        match Timestamp::parse(req.created_at.as_str()) {
            Some(ts) => Ok(NewTraceSqls::from_parts(req, app, sql, ts)),
            None => Err(TraceError::InvalidCreatedAt),
        }
    }
}

} // verus!
