//! Rows of the `trace_sql_files` table.
use vstd::prelude::*;
use crate::models::{opt_view, resolve_uuid_pair, uuid_resolved};
use crate::models::timestamp::Timestamp;
use crate::models::TraceError;
use crate::services::trace::RequestNewTraceSqlFile;

verus! {

/// A column of `trace_sql_files` whose length is limited.
#[derive(Debug, Clone, Copy, PartialEq, Eq, Structural)]
pub enum TraceSqlFilesField {
    AppUuid,
    SqlUuid,
    TraceFile,
    TraceClass,
}

/// `[f]` where `bad`, else nothing.
pub open spec fn file_field_if(bad: bool, f: TraceSqlFilesField) -> Seq<TraceSqlFilesField> {
    if bad {
        seq![f]
    } else {
        Seq::empty()
    }
}

/// Appends `f` to `bad` where `is_bad`.
fn note_file_field(bad: &mut Vec<TraceSqlFilesField>, is_bad: bool, f: TraceSqlFilesField)
    ensures
        final(bad)@ == old(bad)@ + file_field_if(is_bad, f),
{
    if is_bad {
        bad.push(f);
    }
    assert(final(bad)@ =~= old(bad)@ + file_field_if(is_bad, f));
}

/// A stored row of `trace_sql_files`.
pub struct TraceSqlFiles {
    pub id: u64,
    pub app_uuid: String,
    pub sql_uuid: String,
    pub trace_file: String,
    pub trace_line: u32,
    pub trace_class: String,
    pub created_at: Timestamp,
}

/// A row of `trace_sql_files` to insert.
pub struct NewTraceSqlFiles {
    pub app_uuid: String,
    pub sql_uuid: String,
    pub trace_file: String,
    pub trace_line: u32,
    pub trace_class: String,
    pub created_at: Timestamp,
}

impl NewTraceSqlFiles {
    /// The row's reported fields are those of `req`.
    pub open spec fn copies(self, req: RequestNewTraceSqlFile) -> bool {
        &&& self.trace_file@ == req.trace_file@
        &&& self.trace_line == req.trace_line
        &&& self.trace_class@ == req.trace_class@
    }

    /// The columns whose length, counted in characters, breaks its limit:
    /// the uuids must have 32 characters, the file and class at most 128.
    /// In column order.
    pub open spec fn invalid_fields(self) -> Seq<TraceSqlFilesField> {
        file_field_if(self.app_uuid@.len() != 32, TraceSqlFilesField::AppUuid)
            + file_field_if(self.sql_uuid@.len() != 32, TraceSqlFilesField::SqlUuid)
            + file_field_if(self.trace_file@.len() > 128, TraceSqlFilesField::TraceFile)
            + file_field_if(self.trace_class@.len() > 128, TraceSqlFilesField::TraceClass)
    }

    /// A column is listed as invalid exactly when its length breaks the
    /// column's limit: the uuids must have exactly 32 characters, the file
    /// and the class at most 128; a row with no column listed keeps every
    /// limit.
    pub proof fn lemma_invalid_fields_listed(self)
        ensures
            self.invalid_fields().contains(TraceSqlFilesField::AppUuid) <==> self.app_uuid@.len() != 32,
            self.invalid_fields().contains(TraceSqlFilesField::SqlUuid) <==> self.sql_uuid@.len() != 32,
            self.invalid_fields().contains(TraceSqlFilesField::TraceFile) <==> self.trace_file@.len() > 128,
            self.invalid_fields().contains(TraceSqlFilesField::TraceClass) <==> self.trace_class@.len() > 128,
            self.invalid_fields().len() == 0 <==> {
                &&& self.app_uuid@.len() == 32
                &&& self.sql_uuid@.len() == 32
                &&& self.trace_file@.len() <= 128
                &&& self.trace_class@.len() <= 128
            },
    {
        broadcast use vstd::seq_lib::lemma_seq_concat_contains_all_elements;
        assert forall|b: bool, f: TraceSqlFilesField, g: TraceSqlFilesField|
            #[trigger] file_field_if(b, f).contains(g) <==> (b && f == g) by {
            if b && f == g {
                assert(file_field_if(b, f)[0] == g);
            }
        }
    }

    /// Checks the length limits of the row's columns; on failure, lists the
    /// columns that break them.
    pub fn validate(&self) -> (r: Result<(), Vec<TraceSqlFilesField>>)
        ensures
            r is Ok <==> self.invalid_fields().len() == 0,
            r matches Err(fields) ==> fields@ == self.invalid_fields(),
            r is Ok <==> {
                &&& self.app_uuid@.len() == 32
                &&& self.sql_uuid@.len() == 32
                &&& self.trace_file@.len() <= 128
                &&& self.trace_class@.len() <= 128
            },
            r matches Err(fields) ==> {
                &&& fields@.contains(TraceSqlFilesField::AppUuid) <==> self.app_uuid@.len() != 32
                &&& fields@.contains(TraceSqlFilesField::SqlUuid) <==> self.sql_uuid@.len() != 32
                &&& fields@.contains(TraceSqlFilesField::TraceFile) <==> self.trace_file@.len() > 128
                &&& fields@.contains(TraceSqlFilesField::TraceClass) <==> self.trace_class@.len() > 128
            },
    {
        let mut bad: Vec<TraceSqlFilesField> = Vec::new();
        note_file_field(&mut bad, self.app_uuid.as_str().unicode_len() != 32, TraceSqlFilesField::AppUuid);
        note_file_field(&mut bad, self.sql_uuid.as_str().unicode_len() != 32, TraceSqlFilesField::SqlUuid);
        note_file_field(&mut bad, self.trace_file.as_str().unicode_len() > 128, TraceSqlFilesField::TraceFile);
        note_file_field(&mut bad, self.trace_class.as_str().unicode_len() > 128, TraceSqlFilesField::TraceClass);
        assert(bad@ =~= self.invalid_fields());
        proof {
            self.lemma_invalid_fields_listed();
        }
        if bad.len() == 0 {
            Ok(())
        } else {
            Err(bad)
        }
    }

    /// The row for `req` with the given uuids and creation time.
    pub fn from_parts(req: &RequestNewTraceSqlFile, app_uuid: String, sql_uuid: String, created_at: Timestamp) -> (r: NewTraceSqlFiles)
        ensures
            r.copies(*req),
            r.app_uuid@ == app_uuid@,
            r.sql_uuid@ == sql_uuid@,
            r.created_at == created_at,
    {
        NewTraceSqlFiles {
            app_uuid,
            sql_uuid,
            trace_file: req.trace_file.clone(),
            trace_line: req.trace_line,
            trace_class: req.trace_class.clone(),
            created_at,
        }
    }

    /// The row for a reported code place. Each of its uuids is the given
    /// one where given, else the reported one, else a new random one.
    /// Fails where the reported creation time is not a date and time.
    pub fn from_json(req: &RequestNewTraceSqlFile, app_uuid: &Option<String>, sql_uuid: &Option<String>) -> (r: Result<NewTraceSqlFiles, TraceError>)
        ensures
            r is Err <==> Timestamp::parsed(req.created_at@) is None,
            r matches Err(e) ==> e == TraceError::InvalidCreatedAt,
            r matches Ok(t) ==> {
                &&& t.copies(*req)
                &&& Some(t.created_at) == Timestamp::parsed(req.created_at@)
                &&& uuid_resolved(opt_view(*app_uuid), opt_view(req.app_uuid), t.app_uuid@)
                &&& uuid_resolved(opt_view(*sql_uuid), opt_view(req.sql_uuid), t.sql_uuid@)
                &&& (app_uuid is None && req.app_uuid is None) || (sql_uuid is None && req.sql_uuid is None)
                    ==> t.app_uuid@ != t.sql_uuid@
            },
    {
        let taken: Vec<String> = Vec::new();
        let (app, sql) = resolve_uuid_pair(app_uuid, &req.app_uuid, sql_uuid, &req.sql_uuid, &taken);
        match Timestamp::parse(req.created_at.as_str()) {
            Some(ts) => Ok(NewTraceSqlFiles::from_parts(req, app, sql, ts)),
            None => Err(TraceError::InvalidCreatedAt),
        }
    }
}

} // verus!
