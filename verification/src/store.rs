//! The plan store: a flat directory where each plan is `{id}.html` plus a
//! `{id}.json` sidecar holding its metadata. The file I/O itself is done by
//! the caller; this module decides what is read, written and removed, and
//! what the answers are.

use vstd::prelude::*;
use vstd::string::*;
use crate::id::{hex_lower_char, is_hex_lower, is_id_shaped, is_valid_id, new_id};
use crate::text::owned;

verus! {

/// Metadata of a stored plan, as kept in its sidecar file.
#[derive(Clone, Debug)]
pub struct Meta {
    pub id: String,
    /// Unix seconds at which the plan was stored.
    pub created_at: u64,
    /// Unix seconds from which on the plan is gone.
    pub expires_at: u64,
    /// Size of the plan document in bytes.
    pub size: u64,
}

/// `a + b`, or `u64::MAX` where the sum does not fit.
pub open spec fn saturating_sum(a: u64, b: u64) -> u64 {
    if a + b > u64::MAX {
        u64::MAX
    } else {
        (a + b) as u64
    }
}

/// Whether a plan that expires at `expires_at` is gone at time `now`.
pub open spec fn expired_at(expires_at: u64, now: u64) -> bool {
    now >= expires_at
}

impl Meta {
    /// Whether the plan is gone at time `now` (unix seconds).
    pub fn is_expired(&self, now: u64) -> (r: bool)
        ensures
            r == expired_at(self.expires_at, now),
    {
        now >= self.expires_at
    }
}

/// The metadata of a plan with ID `id` stored at `now` for `ttl_secs`
/// seconds, whose document is `size` bytes long. The expiry saturates at
/// `u64::MAX` instead of wrapping.
pub fn plan_meta(id: String, now: u64, ttl_secs: u64, size: u64) -> (meta: Meta)
    ensures
        meta.id@ == id@,
        meta.created_at == now,
        meta.expires_at == saturating_sum(now, ttl_secs),
        meta.size == size,
{
    Meta { id, created_at: now, expires_at: now.saturating_add(ttl_secs), size }
}

/// The metadata of an upload of `html` under the ID `id` with a lifetime of
/// `ttl_secs`, from what the clock read: `None` exactly when it read a time
/// before the unix epoch (`clock` is `None`), else the plan stored at that
/// second.
pub fn upload_meta(id: String, clock: Option<u64>, html: &[u8], ttl_secs: u64) -> (r: Option<Meta>)
    ensures
        match clock {
            None => r is None,
            Some(now) => r matches Some(meta) && {
                &&& meta.id@ == id@
                &&& meta.created_at == now
                &&& meta.expires_at == saturating_sum(now, ttl_secs)
                &&& meta.size == html@.len()
            },
        },
{
    match clock {
        Some(now) => Some(plan_meta(id, now, ttl_secs, html.len() as u64)),
        None => None,
    }
}

/// A plan stored at `now` with a lifetime of at least one second is live at
/// `now` (unless `now` is already the last representable second), and it
/// stays live exactly until `now + ttl_secs`.
pub proof fn law_fresh_plan_is_live(id: String, now: u64, ttl_secs: u64, size: u64, later: u64)
    requires
        ttl_secs >= 1,
        now < u64::MAX,
    ensures
        !expired_at(saturating_sum(now, ttl_secs), now),
        now <= later ==> (expired_at(saturating_sum(now, ttl_secs), later) <==> (later >= now + ttl_secs
            || later == u64::MAX)),
{
}

/// Once a plan has expired it stays expired: expiry never reverts as time
/// moves on.
pub proof fn law_expiry_is_permanent(expires_at: u64, now: u64, later: u64)
    requires
        expired_at(expires_at, now),
        now <= later,
    ensures
        expired_at(expires_at, later),
{
}

/// The system clock's time points, carried through opaquely.
#[verifier::external_type_specification]
#[verifier::external_body]
pub struct ExSystemTime(std::time::SystemTime);

/// Reads the system clock.
///
/// Calls `std::time::SystemTime::now`. Nothing is claimed about the time it
/// returns.
#[verifier::external_body]
fn clock_now() -> (t: std::time::SystemTime) {
    std::time::SystemTime::now()
}

/// Whole seconds from the unix epoch to `t`, or `None` when `t` lies before
/// the epoch.
///
/// Calls `SystemTime::duration_since(UNIX_EPOCH)` and keeps the whole
/// seconds of the duration. Nothing is claimed about the value, since
/// `SystemTime` is opaque here.
#[verifier::external_body]
fn seconds_since_epoch(t: &std::time::SystemTime) -> (r: Option<u64>) {
    match t.duration_since(std::time::UNIX_EPOCH) {
        Ok(d) => Some(d.as_secs()),
        Err(_) => None,
    }
}

/// The current time in unix seconds, or `None` when the system clock reads
/// a time before the unix epoch.
pub fn unix_now() -> (r: Option<u64>) {
    seconds_since_epoch(&clock_now())
}

/// Whether `id` is a plan ID: exactly 32 lower-case hex characters. It is
/// the only shape the store will touch on disk, which rules out path
/// traversal.
pub fn valid_id(id: &str) -> (r: bool)
    ensures
        r == is_valid_id(id@),
{
    is_id_shaped(id)
}

/// The file-name suffix of a plan document.
pub open spec fn html_ext() -> Seq<char> {
    seq!['.', 'h', 't', 'm', 'l']
}

/// The file-name suffix of a plan's metadata sidecar.
pub open spec fn json_ext() -> Seq<char> {
    seq!['.', 'j', 's', 'o', 'n']
}

/// The path of `name` inside the directory `dir`: `name` itself for an
/// empty directory, otherwise the two joined by one `/` separator (none is
/// added when `dir` already ends with one).
pub open spec fn join_path(dir: Seq<char>, name: Seq<char>) -> Seq<char> {
    if dir.len() == 0 {
        name
    } else if dir.last() == '/' {
        dir + name
    } else {
        dir + seq!['/'] + name
    }
}

/// A joined path is the file name placed directly inside the directory:
/// the directory, then exactly one `/` (the directory's own trailing one
/// when it has it), then the name; an empty directory leaves the name as it
/// is. So a plan's files sit in the directory that the sweep lists.
pub proof fn law_join_places_name_in_directory(dir: Seq<char>, name: Seq<char>)
    ensures
        dir.len() > 0 && dir.last() != '/' ==> {
            let p = join_path(dir, name);
            &&& p.len() == dir.len() + 1 + name.len()
            &&& dir.is_prefix_of(p)
            &&& p[dir.len() as int] == '/'
            &&& name.is_suffix_of(p)
        },
        dir.len() > 0 && dir.last() == '/' ==> {
            let p = join_path(dir, name);
            &&& p.len() == dir.len() + name.len()
            &&& dir.is_prefix_of(p)
            &&& name.is_suffix_of(p)
        },
        dir.len() == 0 ==> join_path(dir, name) == name,
{
    let p = join_path(dir, name);
    if dir.len() > 0 {
        assert(p.subrange(0, dir.len() as int) =~= dir);
        assert(p.subrange(p.len() - name.len(), p.len() as int) =~= name);
    }
}

/// Joins a file name onto a directory path.
pub fn join(dir: &str, name: &str) -> (r: String)
    ensures
        r@ == join_path(dir@, name@),
{
    let n = dir.unicode_len();
    let mut r = owned(dir);
    if n > 0 && dir.get_char(n - 1) != '/' {
        r.append("/");
        proof { reveal_strlit("/"); }
    }
    r.append(name);
    r
}

/// The file names of plan `id`'s document and sidecar, or `None` when `id`
/// is not a plan ID: then nothing is touched on disk and the plan counts as
/// absent.
pub fn plan_files(id: &str) -> (r: Option<(String, String)>)
    ensures
        match r {
            Some((document, sidecar)) => {
                &&& is_valid_id(id@)
                &&& document@ == id@ + html_ext()
                &&& sidecar@ == id@ + json_ext()
            },
            None => !is_valid_id(id@),
        },
{
    if !valid_id(id) {
        return None;
    }
    let mut document = owned(id);
    document.append(".html");
    let mut sidecar = owned(id);
    sidecar.append(".json");
    proof {
        reveal_strlit(".html");
        reveal_strlit(".json");
    }
    Some((document, sidecar))
}

/// What a lookup of a plan's sidecar finds.
#[derive(Debug)]
pub enum Lookup {
    /// No readable sidecar: the plan does not exist (or was never complete).
    Absent,
    /// The plan exists but its time is up; its files are to be removed.
    Expired,
    /// The plan is live.
    Live(Meta),
}

/// Decides a lookup from the parsed sidecar (`None` when it is missing or
/// does not parse), whether the plan's document is present and readable,
/// and the current time. A plan exists only if both files are there; a
/// plan whose time is up is expired whatever is left of it.
pub fn classify(sidecar: Option<Meta>, document_present: bool, now: u64) -> (r: Lookup)
    ensures
        match sidecar {
            None => r is Absent,
            Some(meta) => if expired_at(meta.expires_at, now) {
                r is Expired
            } else if document_present {
                r == Lookup::Live(meta)
            } else {
                r is Absent
            },
        },
{
    match sidecar {
        None => Lookup::Absent,
        Some(meta) => if meta.is_expired(now) {
            Lookup::Expired
        } else if document_present {
            Lookup::Live(meta)
        } else {
            Lookup::Absent
        },
    }
}

impl Lookup {
    /// Whether the lookup found a live plan: this is what a deletion reports
    /// as "existed", so an expired plan that was not yet swept counts as
    /// gone.
    pub fn is_live(&self) -> (r: bool)
        ensures
            r == self is Live,
    {
        match self {
            Lookup::Live(_) => true,
            _ => false,
        }
    }
}

/// Whether a sweep removes a plan, given its parsed sidecar (`None` when the
/// sidecar does not parse: such a sidecar is reclaimed rather than kept
/// forever).
pub fn sweep_reclaims(sidecar: &Option<Meta>, now: u64) -> (r: bool)
    ensures
        r == match sidecar {
            None => true,
            Some(meta) => expired_at(meta.expires_at, now),
        },
{
    match sidecar {
        None => true,
        Some(meta) => meta.is_expired(now),
    }
}

/// One entry of a sweep: from the count of plans removed so far and the
/// entry's parsed sidecar, the new count and whether the plan's files are
/// to be removed. The count grows by one exactly for each reclaimed plan.
pub fn sweep_step(removed: usize, sidecar: &Option<Meta>, now: u64) -> (r: (usize, bool))
    requires
        removed < usize::MAX,
    ensures
        r.1 == match sidecar {
            None => true,
            Some(meta) => expired_at(meta.expires_at, now),
        },
        r.0 == if r.1 {
            removed + 1
        } else {
            removed as int
        },
{
    let reclaim = sweep_reclaims(sidecar, now);
    if reclaim {
        (removed + 1, true)
    } else {
        (removed, false)
    }
}

/// The plan ID whose sidecar a directory entry named `name` is: `name` is
/// the ID followed by `.json`. Anything else in the directory is ignored.
pub open spec fn sidecar_id(name: Seq<char>) -> Option<Seq<char>> {
    if name.len() == 37 && name.subrange(32, 37) == json_ext() && is_valid_id(name.subrange(0, 32)) {
        Some(name.subrange(0, 32))
    } else {
        None
    }
}

/// The plan whose sidecar the directory entry `name` is, if it is one.
pub fn sweep_candidate(name: &str) -> (r: Option<String>)
    ensures
        match r {
            Some(id) => sidecar_id(name@) == Some(id@),
            None => sidecar_id(name@) is None,
        },
{
    let n = name.unicode_len();
    if n != 37 {
        return None;
    }
    if !(name.get_char(32) == '.' && name.get_char(33) == 'j' && name.get_char(34) == 's'
        && name.get_char(35) == 'o' && name.get_char(36) == 'n') {
        assert(name@.subrange(32, 37) != json_ext()) by {
            if name@.subrange(32, 37) == json_ext() {
                assert(name@[32] == name@.subrange(32, 37)[0]);
                assert(name@[33] == name@.subrange(32, 37)[1]);
                assert(name@[34] == name@.subrange(32, 37)[2]);
                assert(name@[35] == name@.subrange(32, 37)[3]);
                assert(name@[36] == name@.subrange(32, 37)[4]);
            }
        }
        return None;
    }
    assert(name@.subrange(32, 37) =~= json_ext());
    let stem = name.substring_char(0, 32);
    if !is_id_shaped(stem) {
        return None;
    }
    Some(owned(stem))
}

/// Flat-directory storage: each plan is `{id}.html` plus a `{id}.json`
/// sidecar holding its expiry. A plan only exists if both files are present
/// and readable.
pub struct Store {
    dir: String,
}

impl Store {
    /// The directory that holds the plan files.
    pub closed spec fn directory(&self) -> Seq<char> {
        self.dir@
    }

    /// A store over the directory `dir`.
    pub fn new(dir: String) -> (s: Store)
        ensures
            s.directory() == dir@,
    {
        Store { dir }
    }

    /// The directory that holds the plan files.
    pub fn dir(&self) -> (r: &str)
        ensures
            r@ == self.directory(),
    {
        self.dir.as_str()
    }

    /// Where the document of plan `id` is stored.
    pub fn html_path(&self, id: &str) -> (r: String)
        ensures
            r@ == join_path(self.directory(), id@ + html_ext()),
    {
        let mut name = owned(id);
        name.append(".html");
        proof { reveal_strlit(".html"); }
        join(self.dir.as_str(), name.as_str())
    }

    /// Where the metadata sidecar of plan `id` is stored.
    pub fn meta_path(&self, id: &str) -> (r: String)
        ensures
            r@ == join_path(self.directory(), id@ + json_ext()),
    {
        let mut name = owned(id);
        name.append(".json");
        proof { reveal_strlit(".json"); }
        join(self.dir.as_str(), name.as_str())
    }

    /// The sidecar that a lookup or a deletion of `id` consults, or `None`
    /// when `id` is not a plan ID: then nothing is touched on disk and the
    /// plan counts as absent.
    pub fn sidecar_for(&self, id: &str) -> (r: Option<String>)
        ensures
            match r {
                Some(path) => is_valid_id(id@) && path@ == join_path(self.directory(), id@ + json_ext()),
                None => !is_valid_id(id@),
            },
    {
        if valid_id(id) {
            Some(self.meta_path(id))
        } else {
            None
        }
    }

    /// The metadata of a new upload of `html` with a lifetime of `ttl_secs`:
    /// a fresh random ID, stored now. `None` when the system clock reads a
    /// time before the unix epoch. What is built from the clock's reading is
    /// [`upload_meta`]; the reading itself is not known here.
    pub fn prepare_put(&self, html: &[u8], ttl_secs: u64) -> (r: Option<Meta>)
        ensures
            match r {
                Some(meta) => {
                    &&& is_valid_id(meta.id@)
                    &&& meta.expires_at == saturating_sum(meta.created_at, ttl_secs)
                    &&& meta.size == html@.len()
                },
                None => true,
            },
    {
        let id = new_id();
        upload_meta(id, unix_now(), html, ttl_secs)
    }
}

/// The sweep recognises exactly the sidecars that the store writes: the
/// file name of plan `id`'s sidecar is taken back to `id`.
pub proof fn law_sweep_finds_written_sidecars(id: Seq<char>)
    requires
        is_valid_id(id),
    ensures
        sidecar_id(id + json_ext()) == Some(id),
{
    let name = id + json_ext();
    assert(name.subrange(32, 37) =~= json_ext());
    assert(name.subrange(0, 32) =~= id);
}

/// Whatever a sweep picks from the directory is a sidecar named after a
/// valid plan ID, so the sweep never touches other files.
pub proof fn law_sweep_touches_only_plan_files(name: Seq<char>)
    requires
        sidecar_id(name) is Some,
    ensures
        is_valid_id(sidecar_id(name)->0),
        name == sidecar_id(name)->0 + json_ext(),
{
    assert(name =~= name.subrange(0, 32) + name.subrange(32, 37));
}


/// The files the store names for a plan are plain file names inside its
/// directory: for a valid ID neither name holds a path separator, so no
/// lookup, write or removal reaches outside the directory.
pub proof fn law_plan_files_stay_in_directory(dir: Seq<char>, id: Seq<char>)
    requires
        is_valid_id(id),
    ensures
        forall|j: int| 0 <= j < (id + html_ext()).len() ==> (id + html_ext())[j] != '/',
        forall|j: int| 0 <= j < (id + json_ext()).len() ==> (id + json_ext())[j] != '/',
        (id + json_ext()).is_suffix_of(join_path(dir, id + json_ext())),
        (id + html_ext()).is_suffix_of(join_path(dir, id + html_ext())),
{
    assert forall|j: int| 0 <= j < id.len() implies id[j] != '/' by {
        assert(is_hex_lower(id[j]));
    }
    let h = id + html_ext();
    let m = id + json_ext();
    assert forall|j: int| 0 <= j < h.len() implies h[j] != '/' by {
        if j >= id.len() {
            assert(h[j] == html_ext()[j - id.len()]);
        }
    }
    assert forall|j: int| 0 <= j < m.len() implies m[j] != '/' by {
        if j >= id.len() {
            assert(m[j] == json_ext()[j - id.len()]);
        }
    }
    let ph = join_path(dir, h);
    let pm = join_path(dir, m);
    assert(ph.subrange(ph.len() - h.len(), ph.len() as int) =~= h);
    assert(pm.subrange(pm.len() - m.len(), pm.len() as int) =~= m);
}

/// Different plans never share a file: in one directory, two IDs whose
/// sidecar (or document) paths coincide are the same ID.
pub proof fn law_distinct_plans_have_distinct_files(dir: Seq<char>, a: Seq<char>, b: Seq<char>)
    requires
        is_valid_id(a),
        is_valid_id(b),
        join_path(dir, a + json_ext()) == join_path(dir, b + json_ext()) || join_path(dir, a + html_ext())
            == join_path(dir, b + html_ext()),
    ensures
        a == b,
{
    let pa = join_path(dir, a + json_ext());
    let pb = join_path(dir, b + json_ext());
    let ha = join_path(dir, a + html_ext());
    let hb = join_path(dir, b + html_ext());
    let k: int = if dir.len() == 0 { 0 } else if dir.last() == '/' { dir.len() as int } else { dir.len() as int + 1 };
    assert(pa.subrange(k, k + 32) =~= a);
    assert(pb.subrange(k, k + 32) =~= b);
    assert(ha.subrange(k, k + 32) =~= a);
    assert(hb.subrange(k, k + 32) =~= b);
}

} // verus!
