//! Where the file cache for the last station list and per-station dashboard
//! payloads lives: the configured directory, the file names and the paths
//! within it, and what a failed read means. Reading and writing the files
//! happens outside this crate.

use vstd::prelude::*;
use vstd::string::StringExecFns;

use crate::client::{id_char, is_id_char};
use crate::error::{CoreError, CoreResult, ErrorView};
use crate::client::valid_station_id;
use crate::text::{chars_of, has_prefix, push_char};

verus! {

/// The file that holds the cached station list.
pub const STATIONS_FILE: &'static str = "stations.json";

/// `id` with every character that is not an ASCII letter, digit, `-` or `_`
/// replaced by `_`.
pub open spec fn sanitized(id: Seq<char>) -> Seq<char> {
    Seq::new(id.len(), |i: int| if is_id_char(id[i]) { id[i] } else { '_' })
}

/// The cache file of one station's dashboard payload.
pub open spec fn station_file(id: Seq<char>) -> Seq<char> {
    "station_"@ + sanitized(id) + ".json"@
}

/// `name` within directory `dir`, as `Path::join` forms it with `/` as the
/// separator: an absolute `name` stands alone, and a separator is put
/// between a non-empty `dir` and `name` unless `dir` already ends with one.
pub open spec fn joined(dir: Seq<char>, name: Seq<char>) -> Seq<char> {
    if name.len() > 0 && name[0] == '/' {
        name
    } else if dir.len() > 0 && dir.last() != '/' {
        dir + "/"@ + name
    } else {
        dir + name
    }
}

/// The path of cache file `name`, or the cache error for an unconfigured directory.
pub open spec fn path_outcome(dir: Option<Seq<char>>, name: Seq<char>) -> Result<Seq<char>, ErrorView> {
    match dir {
        Some(d) => Ok(joined(d, name)),
        None => Err(ErrorView::Cache("cache directory not configured"@)),
    }
}

/// The error for a cache file that could not be read: not found where the
/// file does not exist, else a cache error that carries the cause.
pub open spec fn read_error(name: Seq<char>, missing: bool, cause: Seq<char>) -> ErrorView {
    if missing {
        ErrorView::NotFound("no cached "@ + name)
    } else {
        ErrorView::Cache("failed to read "@ + name + ": "@ + cause)
    }
}

/// Replaces every character of `id` that could not stand in a file name
/// (anything but ASCII letters, digits, `-` and `_`) by `_`.
pub fn sanitize_id(id: &str) -> (r: String)
    ensures
        r@ == sanitized(id@),
{
    let cs = chars_of(id);
    let mut out = String::new();
    for i in 0..cs.len()
        invariant
            cs@ == id@,
            out@ == sanitized(id@).take(i as int),
    {
        let c = cs[i];
        let kept = if id_char(c) {
            c
        } else {
            '_'
        };
        push_char(&mut out, kept);
        assert(out@ =~= sanitized(id@).take(i + 1));
    }
    assert(sanitized(id@).take(cs.len() as int) =~= sanitized(id@));
    out
}

/// The name of the cache file that holds a station's dashboard payload.
pub fn station_file_name(station_id: &str) -> (r: String)
    ensures
        r@ == station_file(station_id@),
{
    String::from_str("station_").concat(sanitize_id(station_id).as_str()).concat(".json")
}

/// The file cache: its directory, once configured.
pub struct Cache {
    dir: Option<String>,
}

impl Cache {
    /// The configured directory.
    pub closed spec fn spec_dir(&self) -> Option<Seq<char>> {
        match self.dir {
            Some(d) => Some(d@),
            None => None,
        }
    }

    /// Sets the cache directory.
    pub fn set_dir(&mut self, dir: String)
        ensures
            final(self).spec_dir() == Some(dir@),
    {
        self.dir = Some(dir);
    }

    /// The path of cache file `name` within the configured directory.
    pub fn path_for(&self, name: &str) -> (r: CoreResult<String>)
        ensures
            match r {
                Ok(p) => path_outcome(self.spec_dir(), name@) == Ok::<Seq<char>, ErrorView>(p@),
                Err(e) => path_outcome(self.spec_dir(), name@) == Err::<Seq<char>, ErrorView>(e@),
            },
    {
        match &self.dir {
            None => Err(CoreError::Cache(String::from_str("cache directory not configured"))),
            Some(d) => {
                let nv = chars_of(name);
                if nv.len() > 0 && nv[0] == '/' {
                    return Ok(String::from_str(name));
                }
                let dv = chars_of(d.as_str());
                if dv.len() > 0 && dv[dv.len() - 1] != '/' {
                    Ok(d.clone().concat("/").concat(name))
                } else {
                    Ok(d.clone().concat(name))
                }
            },
        }
    }

    /// The error for cache file `name` that could not be read: `missing`
    /// tells whether the file does not exist, `cause` describes the failure.
    pub fn read_failure(name: &str, missing: bool, cause: &str) -> (r: CoreError)
        ensures
            r@ == read_error(name@, missing, cause@),
    {
        if missing {
            CoreError::NotFound(String::from_str("no cached ").concat(name))
        } else {
            CoreError::Cache(
                String::from_str("failed to read ").concat(name).concat(": ").concat(cause),
            )
        }
    }
}

impl Default for Cache {
    /// A cache whose directory is not configured yet.
    fn default() -> (r: Cache)
        ensures
            r.spec_dir() is None,
    {
        Cache { dir: None }
    }
}

/// A sanitized id is as long as the id and holds only ASCII letters,
/// digits, `-` and `_`.
pub proof fn law_sanitized_is_file_safe(id: Seq<char>)
    ensures
        sanitized(id).len() == id.len(),
        forall|i: int| 0 <= i < id.len() ==> is_id_char(#[trigger] sanitized(id)[i]),
{
    assert(is_id_char('_'));
}

/// Sanitizing twice is sanitizing once.
pub proof fn law_sanitize_idempotent(id: Seq<char>)
    ensures
        sanitized(sanitized(id)) == sanitized(id),
{
    law_sanitized_is_file_safe(id);
    assert(sanitized(sanitized(id)) =~= sanitized(id));
}

/// A valid station id is its own sanitized form, so distinct valid ids
/// have distinct cache files.
pub proof fn law_sanitize_keeps_valid_ids(id: Seq<char>)
    requires
        valid_station_id(id),
    ensures
        sanitized(id) == id,
{
    assert(sanitized(id) =~= id);
}

/// A station's cache file stays within the cache directory, whatever the
/// id: the path starts with the directory and holds no further separator
/// after it.
pub proof fn law_station_file_stays_in_dir(dir: Seq<char>, id: Seq<char>)
    requires
        dir.len() > 0,
    ensures
        has_prefix(joined(dir, station_file(id)), dir),
        forall|i: int|
            dir.len() < i < joined(dir, station_file(id)).len() ==> #[trigger] joined(
                dir,
                station_file(id),
            )[i] != '/',
{
    reveal_strlit("station_");
    reveal_strlit(".json");
    reveal_strlit("/");
    let name = station_file(id);
    law_sanitized_is_file_safe(id);
    assert forall|k: int| 0 <= k < name.len() implies #[trigger] name[k] != '/' by {
        if 8 <= k < 8 + id.len() {
            assert(name[k] == sanitized(id)[k - 8]);
            assert(is_id_char(sanitized(id)[k - 8]));
        }
    }
    assert(name[0] == 's');
    let p = joined(dir, name);
    assert(p.take(dir.len() as int) =~= dir);
    assert forall|i: int| dir.len() < i < p.len() implies #[trigger] p[i] != '/' by {
        if dir.last() != '/' {
            assert(p[i] == name[i - dir.len() - 1]);
        } else {
            assert(p[i] == name[i - dir.len()]);
        }
    }
}

} // verus!
