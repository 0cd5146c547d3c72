pub mod timestamp;
pub mod trace_sql_code;
pub mod trace_sql_files;
pub mod trace_sqls;
pub mod users;

pub use crate::models::users::User;

use vstd::prelude::*;
use crate::{fresh_uuid, gen_uuid, is_v4_uuid_text, with_text};
use crate::services::trace::texts;

verus! {

/// Why a reported trace cannot become a row.
#[derive(Clone, Copy, Debug, PartialEq, Eq, Structural)]
pub enum TraceError {
    /// A reported `created_at` is not a date and time.
    InvalidCreatedAt,
}

/// The text of an optional string.
pub open spec fn opt_view(o: Option<String>) -> Option<Seq<char>> {
    match o {
        Some(s) => Some(s@),
        None => None,
    }
}

/// The uuid a trace row gets: the one imposed by its batch if any, else
/// the one the request carries, else `fresh`.
pub open spec fn chosen_uuid(preset: Option<Seq<char>>, own: Option<Seq<char>>, fresh: Seq<char>) -> Seq<char> {
    match preset {
        Some(p) => p,
        None => match own {
            Some(o) => o,
            None => fresh,
        },
    }
}

/// `r` is a uuid that `resolve_uuid` may give: the imposed one if any,
/// else the request's own, else a fresh random one.
pub open spec fn uuid_resolved(preset: Option<Seq<char>>, own: Option<Seq<char>>, r: Seq<char>) -> bool {
    match preset {
        Some(p) => r == p,
        None => match own {
            Some(o) => r == o,
            None => is_v4_uuid_text(r),
        },
    }
}

/// The uuid a trace row gets, with `fresh` standing for a newly generated
/// one.
pub fn choose_uuid(preset: &Option<String>, own: &Option<String>, fresh: String) -> (r: String)
    ensures
        r@ == chosen_uuid(opt_view(*preset), opt_view(*own), fresh@),
{
    match preset {
        Some(p) => p.clone(),
        None => match own {
            Some(o) => o.clone(),
            None => fresh,
        },
    }
}

/// The uuid a trace row gets; a new random one is generated only where
/// neither an imposed nor an own uuid is given.
pub fn resolve_uuid(preset: &Option<String>, own: &Option<String>) -> (r: String)
    ensures
        uuid_resolved(opt_view(*preset), opt_view(*own), r@),
{
    if preset.is_none() && own.is_none() {
        choose_uuid(preset, own, gen_uuid())
    } else {
        choose_uuid(preset, own, String::new())
    }
}


/// A sequence with `x` pushed holds `x` and everything it held before.
proof fn lemma_pushed_texts(v: Seq<Seq<char>>, x: Seq<char>, w: Seq<Seq<char>>)
    requires
        w == v.push(x),
    ensures
        w.contains(x),
        forall|y: Seq<char>| v.contains(y) ==> w.contains(y),
{
    assert(w[v.len() as int] == x);
    assert forall|y: Seq<char>| v.contains(y) implies w.contains(y) by {
        let k = choose|k: int| 0 <= k < v.len() && v[k] == y;
        assert(w[k] == y);
    }
}

/// The app and sql uuids of a row, each the imposed one if any, else the
/// reported one, else a new random one. A uuid that is generated is none of
/// the texts of `taken`, and differs from the row's other uuid.
pub fn resolve_uuid_pair(
    app_preset: &Option<String>,
    app_own: &Option<String>,
    sql_preset: &Option<String>,
    sql_own: &Option<String>,
    taken: &Vec<String>,
) -> (r: (String, String))
    ensures
        uuid_resolved(opt_view(*app_preset), opt_view(*app_own), r.0@),
        uuid_resolved(opt_view(*sql_preset), opt_view(*sql_own), r.1@),
        app_preset is None && app_own is None ==> !texts(taken@).contains(r.0@) && r.0@ != r.1@,
        sql_preset is None && sql_own is None ==> !texts(taken@).contains(r.1@) && r.1@ != r.0@,
{
    let app_fresh = app_preset.is_none() && app_own.is_none();
    let sql_fresh = sql_preset.is_none() && sql_own.is_none();
    let sql_known: Option<String> = if sql_fresh {
        None
    } else {
        Some(choose_uuid(sql_preset, sql_own, String::new()))
    };
    let app = if app_fresh {
        match &sql_known {
            Some(sql) => {
                let avoid = with_text(taken, sql.clone());
                let a = fresh_uuid(&avoid);
                proof {
                    lemma_pushed_texts(texts(taken@), sql@, texts(avoid@));
                }
                a
            },
            None => fresh_uuid(taken),
        }
    } else {
        choose_uuid(app_preset, app_own, String::new())
    };
    let sql = match sql_known {
        Some(sql) => sql,
        None => {
            let avoid = with_text(taken, app.clone());
            let s = fresh_uuid(&avoid);
            proof {
                lemma_pushed_texts(texts(taken@), app@, texts(avoid@));
            }
            s
        },
    };
    (app, sql)
}

} // verus!
