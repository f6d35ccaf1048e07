//! The incremental restore: planning which published diffs to apply and
//! checking each one against the local hash chain before it is applied.
//!
//! A `RestoreSession` walks the planned points strictly in order. For each
//! point the caller reads the previous-hash anchor from its database, has the
//! session check the chain link, downloads the diff at the URLs the session
//! builds, runs the restore script, and only then advances the session.

use vstd::prelude::*;

use crate::errors::SyncError;
use crate::hexfmt::hex_encode;
use crate::hexfmt::hex_of;
use crate::manifest::any_point_at_or_after;
use crate::manifest::first_covering;
use crate::manifest::has_point_at_or_after;
use crate::manifest::lemma_first_covering;
use crate::manifest::lemma_parsed_points_wf;
use crate::manifest::parse_manifest;
use crate::manifest::parse_manifest_spec;
use crate::manifest::plan_of;
use crate::manifest::plan_points;
use crate::manifest::split_on;
use crate::manifest::views_of;
use crate::manifest::wf_point;
use crate::manifest::RestorePoint;
use crate::manifest::RestorePointModel;
use crate::strutil::dec_of;
use crate::strutil::str_eq;
use crate::strutil::to_decimal;

verus! {

/// The first layer a restore must fetch: one past the newest committed
/// layer, stepped back by the distrusted margin, clamped at zero.
pub open spec fn layer_from_spec(latest_layer: u32, untrusted_layers: u32) -> u32 {
    if latest_layer + 1 >= untrusted_layers {
        (latest_layer + 1 - untrusted_layers) as u32
    } else {
        0
    }
}

/// Computes the first layer to fetch. `latest_layer + 1` must fit.
pub fn layer_from(latest_layer: u32, untrusted_layers: u32) -> (r: u32)
    requires
        latest_layer < u32::MAX,
    ensures
        r == layer_from_spec(latest_layer, untrusted_layers),
{
    let next = latest_layer + 1;
    if next >= untrusted_layers {
        next - untrusted_layers
    } else {
        0
    }
}

/// The relative URL of a diff artifact:
/// `{user_version}/{from}_{to}_{hash}/state.sql_diff.{from}_{to}.sql{suffix}`.
pub open spec fn file_url_spec(user_version: nat, p: RestorePointModel, suffix: Seq<char>) -> Seq<
    char,
> {
    dec_of(user_version) + "/"@ + dec_of(p.from as nat) + "_"@ + dec_of(p.to as nat) + "_"@
        + p.hash + "/state.sql_diff."@ + dec_of(p.from as nat) + "_"@ + dec_of(p.to as nat)
        + ".sql"@ + suffix
}

/// Builds the relative URL of the diff artifact for `p`, with the optional
/// compression suffix.
pub fn file_url(user_version: usize, p: &RestorePoint, suffix: Option<&str>) -> (r: String)
    ensures
        r@ == file_url_spec(
            user_version as nat,
            p@,
            match suffix {
                Some(s) => s@,
                None => Seq::<char>::empty(),
            },
        ),
{
    let mut r = to_decimal(user_version as u64);
    r.append("/");
    let from_str = to_decimal(p.from as u64);
    let to_str = to_decimal(p.to as u64);
    r.append(from_str.as_str());
    r.append("_");
    r.append(to_str.as_str());
    r.append("_");
    r.append(p.hash.as_str());
    r.append("/state.sql_diff.");
    r.append(from_str.as_str());
    r.append("_");
    r.append(to_str.as_str());
    r.append(".sql");
    match suffix {
        Some(s) => {
            r.append(s);
        },
        None => {
            proof {
                assert(r@ + Seq::<char>::empty() =~= r@);
            }
        },
    }
    r
}

/// The manifest endpoint for a schema generation:
/// `{base_url}/{user_version}/metadata.csv`.
pub fn metadata_url(base_url: &str, user_version: usize) -> (r: String)
    ensures
        r@ == base_url@ + "/"@ + dec_of(user_version as nat) + "/metadata.csv"@,
{
    let mut r = String::new();
    r.append(base_url);
    r.append("/");
    let uv = to_decimal(user_version as u64);
    r.append(uv.as_str());
    r.append("/metadata.csv");
    r
}

/// The restore-script endpoint for a schema generation:
/// `{base_url}/{user_version}/restore.sql?version={client_version}`.
pub fn restore_script_url(base_url: &str, user_version: usize, client_version: &str) -> (r: String)
    ensures
        r@ == base_url@ + "/"@ + dec_of(user_version as nat) + "/restore.sql?version="@
            + client_version@,
{
    let mut r = String::new();
    r.append(base_url);
    r.append("/");
    let uv = to_decimal(user_version as u64);
    r.append(uv.as_str());
    r.append("/restore.sql?version=");
    r.append(client_version);
    r
}

/// The previous-hash anchor as stored text: the first two bytes of the
/// aggregated hash blob of the preceding layer, hex-encoded to four lower
/// case characters.
pub fn previous_hash_hex(aggregated_hash: &[u8]) -> (r: String)
    requires
        aggregated_hash@.len() >= 2,
    ensures
        r@ == hex_of(aggregated_hash@.take(2)),
{
    let mut head: Vec<u8> = Vec::new();
    head.push(aggregated_hash[0]);
    head.push(aggregated_hash[1]);
    proof {
        assert(head@ =~= aggregated_hash@.take(2));
    }
    hex_encode(head.as_slice())
}

/// The per-point protocol phase of a restore session. Each planned point is
/// walked through these phases in order; the phase gates what the session
/// hands out, so nothing of a point can be fetched or run before its
/// hash-chain link holds.
#[derive(Debug)]
pub enum StepPhase {
    /// The point's chain link is not yet checked.
    Chain,
    /// The chain link holds; the compressed diff artifact is tried first.
    FetchCompressed,
    /// The compressed download failed; the plain artifact is fetched
    /// instead.
    FetchPlain,
    /// The diff lies at the plain scratch path; the restore script may run
    /// and the step may then be marked applied.
    Apply,
}

/// What planning decides: either diffs to apply, or nothing to do.
#[derive(Debug)]
pub enum PlanOutcome {
    /// Diffs must be applied, in the session's order.
    Restore(RestoreSession),
    /// The manifest offers no point at or past the wanted layer: the local
    /// database already holds everything the manifest covers. A successful
    /// no-op, not an error.
    FullySynced,
}

/// An in-progress restore: the planned points, how many have been applied,
/// and where in the per-point protocol the next one stands. The points are
/// applied strictly in ascending order; for each, the chain link must be
/// checked (or found unnecessary, for a point starting at the genesis
/// layer), then the compressed artifact is tried before the plain one, and
/// only an obtained diff lets the step run and be marked applied. A broken
/// chain link therefore fails the restore before anything of the point is
/// fetched or run.
#[derive(Debug)]
pub struct RestoreSession {
    points: Vec<RestorePoint>,
    next: usize,
    phase: StepPhase,
}

impl RestoreSession {
    /// The planned points.
    pub closed spec fn plan(&self) -> Seq<RestorePointModel> {
        views_of(self.points@)
    }

    /// How many planned points have been applied.
    pub closed spec fn applied(&self) -> nat {
        self.next as nat
    }

    /// Where the next point stands in the per-point protocol.
    pub closed spec fn phase(&self) -> StepPhase {
        self.phase
    }

    /// Applied points never outrun the plan, and every planned hash is long
    /// enough for the chain check.
    pub open spec fn wf(&self) -> bool {
        &&& self.applied() <= self.plan().len()
        &&& forall|i: int| 0 <= i < self.plan().len() ==> wf_point(#[trigger] self.plan()[i])
    }

    /// Plans a restore from the local database position and the fetched
    /// manifest. The plan is the manifest tail that `find_restore_points`
    /// selects for `layer_from(latest_layer, untrusted_layers)`. An empty
    /// plan splits in two: if the manifest still holds a point at or past
    /// the wanted layer (a coverage gap below it), the local state is too
    /// old to restore and that is an error; if it holds none, the database
    /// is fully synced and there is nothing to do. A malformed manifest is
    /// always an error.
    pub fn plan_restore(
        latest_layer: u32,
        untrusted_layers: u32,
        metadata: &str,
        jump_back: usize,
    ) -> (r: Result<PlanOutcome, SyncError>)
        requires
            latest_layer < u32::MAX,
        ensures
            ({
                let parsed = parse_manifest_spec(metadata@);
                let lf = layer_from_spec(latest_layer, untrusted_layers);
                &&& (parsed is None <==> (r is Err && r->Err_0 == SyncError::ManifestParse))
                &&& parsed is Some ==> {
                    let plan = plan_of(parsed->0, lf, jump_back as nat);
                    if plan.len() > 0 {
                        &&& r is Ok
                        &&& (r->Ok_0 matches PlanOutcome::Restore(s) && s.plan() == plan
                            && s.applied() == 0 && s.phase() is Chain && s.wf())
                    } else if has_point_at_or_after(parsed->0, lf) {
                        &&& r is Err
                        &&& r->Err_0 == SyncError::NoRestorePoints
                    } else {
                        &&& r is Ok
                        &&& r->Ok_0 is FullySynced
                    }
                }
            }),
    {
        let lf = layer_from(latest_layer, untrusted_layers);
        let points = match parse_manifest(metadata) {
            Ok(points) => points,
            Err(e) => {
                return Err(e);
            },
        };
        let follows = any_point_at_or_after(&points, lf);
        let plan = plan_points(points, lf, jump_back);
        if plan.len() == 0 {
            if follows {
                return Err(SyncError::NoRestorePoints);
            }
            return Ok(PlanOutcome::FullySynced);
        }
        proof {
            lemma_parsed_points_wf(split_on(metadata@, '\n'));
            let parsed = parse_manifest_spec(metadata@)->0;
            let lf_g = layer_from_spec(latest_layer, untrusted_layers);
            lemma_first_covering(parsed, lf_g);
            let plan_g = plan_of(parsed, lf_g, jump_back as nat);
            let t = first_covering(parsed, lf_g);
            assert forall|i: int| 0 <= i < plan_g.len() implies wf_point(#[trigger] plan_g[i]) by {
                if t >= 0 {
                    let k = if t - jump_back >= 0 {
                        t - jump_back as int
                    } else {
                        0
                    };
                    assert(plan_g == parsed.skip(k));
                    assert(plan_g[i] == parsed[k + i]);
                } else {
                    let k = if parsed.len() - jump_back >= 0 {
                        parsed.len() - jump_back as int
                    } else {
                        0
                    };
                    assert(plan_g == parsed.skip(k));
                    assert(plan_g[i] == parsed[k + i]);
                }
            }
        }
        Ok(PlanOutcome::Restore(RestoreSession { points: plan, next: 0, phase: StepPhase::Chain }))
    }

    /// How many points the plan holds in all.
    pub fn total(&self) -> (r: usize)
        ensures
            r == self.plan().len(),
    {
        self.points.len()
    }

    /// Whether every planned point has been applied.
    pub fn is_done(&self) -> (r: bool)
        requires
            self.wf(),
        ensures
            r == (self.applied() == self.plan().len()),
    {
        self.next == self.points.len()
    }

    /// The point to apply next.
    pub fn current(&self) -> (r: &RestorePoint)
        requires
            self.wf(),
            self.applied() < self.plan().len(),
        ensures
            r@ == self.plan()[self.applied() as int],
    {
        &self.points[self.next]
    }

    /// Whether the next point needs its chain link checked: every point but
    /// one starting at the genesis layer does.
    pub fn needs_chain_check(&self) -> (r: bool)
        requires
            self.wf(),
            self.applied() < self.plan().len(),
        ensures
            r == (self.plan()[self.applied() as int].from != 0),
    {
        self.points[self.next].from != 0
    }

    /// Checks the hash-chain link of the next point: the four-character
    /// previous-hash anchor read from the database must equal the first four
    /// characters of the point's published hash. Only success moves the step
    /// on to fetching; a mismatch is fatal for the whole restore — nothing
    /// of this point may be downloaded or executed — and reports the anchor
    /// and the point it contradicts.
    pub fn verify_chain(&mut self, previous_hash: &str) -> (r: Result<(), SyncError>)
        requires
            old(self).wf(),
            old(self).applied() < old(self).plan().len(),
            old(self).phase() is Chain,
            old(self).plan()[old(self).applied() as int].from != 0,
        ensures
            final(self).wf(),
            final(self).plan() == old(self).plan(),
            final(self).applied() == old(self).applied(),
            r is Ok ==> final(self).phase() is FetchCompressed,
            r is Err ==> final(self).phase() is Chain,
            ({
                let p = old(self).plan()[old(self).applied() as int];
                &&& r is Ok <==> previous_hash@ == p.hash.take(4)
                &&& r is Err ==> (r->Err_0 matches SyncError::HashMismatch { found, from, to, hash }
                    && found@ == previous_hash@ && from == p.from && to == p.to && hash@ == p.hash)
            }),
    {
        let point = &self.points[self.next];
        proof {
            assert(self.plan()[self.applied() as int].hash == point.hash@);
        }
        let prefix = point.hash.as_str().substring_char(0, 4);
        proof {
            assert(prefix@ =~= point.hash@.take(4));
        }
        if str_eq(previous_hash, prefix) {
            self.phase = StepPhase::FetchCompressed;
            Ok(())
        } else {
            let mut found = String::new();
            found.append(previous_hash);
            let from = point.from;
            let to = point.to;
            let hash = point.hash.clone();
            Err(SyncError::HashMismatch { found, from, to, hash })
        }
    }

    /// Records that the next point needs no chain check: it starts at the
    /// genesis layer, where there is no preceding hash to anchor to.
    pub fn skip_chain_check(&mut self)
        requires
            old(self).wf(),
            old(self).applied() < old(self).plan().len(),
            old(self).phase() is Chain,
            old(self).plan()[old(self).applied() as int].from == 0,
        ensures
            final(self).wf(),
            final(self).plan() == old(self).plan(),
            final(self).applied() == old(self).applied(),
            final(self).phase() is FetchCompressed,
    {
        self.phase = StepPhase::FetchCompressed;
    }

    /// The download URL of the next point's diff artifact:
    /// `{base_url}/{file_url}?version={client_version}`. The compressed URL
    /// is handed out only while the compressed artifact is the one to try,
    /// the plain URL only after the compressed download has failed — and
    /// neither before the point's chain link holds.
    pub fn diff_download_url(
        &self,
        base_url: &str,
        user_version: usize,
        client_version: &str,
        compressed: bool,
    ) -> (r: String)
        requires
            self.wf(),
            self.applied() < self.plan().len(),
            compressed ==> self.phase() is FetchCompressed,
            !compressed ==> self.phase() is FetchPlain,
        ensures
            r@ == base_url@ + "/"@ + file_url_spec(
                user_version as nat,
                self.plan()[self.applied() as int],
                if compressed {
                    ".zst"@
                } else {
                    Seq::<char>::empty()
                },
            ) + "?version="@ + client_version@,
    {
        let rel = file_url(
            user_version,
            &self.points[self.next],
            if compressed {
                Some(".zst")
            } else {
                None
            },
        );
        let mut r = String::new();
        r.append(base_url);
        r.append("/");
        r.append(rel.as_str());
        r.append("?version=");
        r.append(client_version);
        r
    }

    /// Records that the compressed download failed. That is not fatal: the
    /// plain artifact is fetched directly instead.
    pub fn on_compressed_failure(&mut self)
        requires
            old(self).wf(),
            old(self).applied() < old(self).plan().len(),
            old(self).phase() is FetchCompressed,
        ensures
            final(self).wf(),
            final(self).plan() == old(self).plan(),
            final(self).applied() == old(self).applied(),
            final(self).phase() is FetchPlain,
    {
        self.phase = StepPhase::FetchPlain;
    }

    /// Records that the compressed artifact landed. The caller decompresses
    /// it to the plain scratch path and deletes the compressed scratch file;
    /// the step is then ready to run.
    pub fn on_fetched_compressed(&mut self)
        requires
            old(self).wf(),
            old(self).applied() < old(self).plan().len(),
            old(self).phase() is FetchCompressed,
        ensures
            final(self).wf(),
            final(self).plan() == old(self).plan(),
            final(self).applied() == old(self).applied(),
            final(self).phase() is Apply,
    {
        self.phase = StepPhase::Apply;
    }

    /// Records that the plain artifact landed at the scratch path; the step
    /// is ready to run.
    pub fn on_fetched_plain(&mut self)
        requires
            old(self).wf(),
            old(self).applied() < old(self).plan().len(),
            old(self).phase() is FetchPlain,
        ensures
            final(self).wf(),
            final(self).plan() == old(self).plan(),
            final(self).applied() == old(self).applied(),
            final(self).phase() is Apply,
    {
        self.phase = StepPhase::Apply;
    }

    /// Marks the next point applied, after its diff was obtained, the
    /// restore script run and the connection durably closed. The plan itself
    /// never changes, and the following point starts with its chain link
    /// unchecked.
    pub fn advance(&mut self)
        requires
            old(self).wf(),
            old(self).applied() < old(self).plan().len(),
            old(self).phase() is Apply,
        ensures
            final(self).wf(),
            final(self).plan() == old(self).plan(),
            final(self).applied() == old(self).applied() + 1,
            final(self).phase() is Chain,
    {
        let n = self.points.len();
        proof {
            assert(self.next < n);
        }
        self.next = self.next + 1;
        self.phase = StepPhase::Chain;
    }
}

} // verus!
