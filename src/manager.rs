use vstd::prelude::*;
use crate::error::DatabaseError;
use crate::registry::{claim_outcome, claim_state, live_handle, in_flight, Claim, EditorRegistry, Slot};

verus! {

/// Number of trailing revisions kept before a database log becomes eligible for compaction.
pub const REVISION_RETENTION: u64 = 6;

/// Prefix of the object id under which a database's snapshots are stored.
pub open spec fn snapshot_prefix() -> Seq<char> {
    seq!['g', 'r', 'i', 'd', ':']
}

/// The snapshot object id derived from a database id.
pub open spec fn snapshot_object_id(database_id: Seq<char>) -> Seq<char> {
    snapshot_prefix() + database_id
}

/// An immutable unit of change for one object id, with an opaque payload.
#[derive(Clone, Debug)]
pub struct Revision {
    pub object_id: String,
    pub base_rev_id: i64,
    pub rev_id: i64,
    pub bytes: Vec<u8>,
}

impl Revision {
    /// The revision that seeds an empty log for `object_id`.
    pub fn initial_revision(object_id: &str, bytes: Vec<u8>) -> (r: Revision)
        ensures
            r.object_id@ == object_id@,
            r.base_rev_id == 0,
            r.rev_id == 0,
            r.bytes@ == bytes@,
    {
        Revision { object_id: object_id.to_owned(), base_rev_id: 0, rev_id: 0, bytes }
    }
}

/// Which independent revision log an object belongs to.
#[derive(Clone, Copy, Debug, PartialEq, Eq, Structural)]
pub enum LogKind {
    Database,
    Block,
    View,
}

/// How a database's revision manager is to be built: whose storage, which object,
/// where snapshots go, and the retention policy.
#[derive(Clone, Debug)]
pub struct RevisionManagerConfig {
    pub user_id: String,
    pub object_id: String,
    pub snapshot_object_id: String,
    pub merge_threshold: u64,
    pub force_flush: bool,
}

/// A request to replace the whole history of one log with `revisions`.
#[derive(Clone, Debug)]
pub struct ResetPlan {
    pub kind: LogKind,
    pub user_id: String,
    pub object_id: String,
    pub revisions: Vec<Revision>,
}

/// Whether a create may go ahead: the storage pool is checked first, then the user id.
pub open spec fn create_outcome(
    pool: Result<(), DatabaseError>,
    user_id: Result<String, DatabaseError>,
) -> Result<(), DatabaseError> {
    match pool {
        Err(e) => Err(e),
        Ok(()) => match user_id {
            Err(e) => Err(e),
            Ok(_) => Ok(()),
        },
    }
}

/// Owns the registry of live database editors, whose handles have type `H`.
pub struct DatabaseManager<H> {
    editors: EditorRegistry<H>,
}

impl<H> View for DatabaseManager<H> {
    type V = Map<Seq<char>, Slot<H>>;

    closed spec fn view(&self) -> Map<Seq<char>, Slot<H>> {
        self.editors@
    }
}

impl<H> DatabaseManager<H> {
    pub closed spec fn wf(&self) -> bool {
        self.editors.wf()
    }

    pub fn new() -> (r: Self)
        ensures
            r.wf(),
            r@ == Map::<Seq<char>, Slot<H>>::empty(),
    {
        DatabaseManager { editors: EditorRegistry::new() }
    }

    fn make_reset_plan(
        kind: LogKind,
        object_id: &str,
        revisions: Vec<Revision>,
        pool: Result<(), DatabaseError>,
        user_id: Result<String, DatabaseError>,
    ) -> (r: Result<ResetPlan, DatabaseError>)
        ensures
            r.is_ok() == create_outcome(pool, user_id).is_ok(),
            r.is_err() ==> r.unwrap_err() == create_outcome(pool, user_id).unwrap_err(),
            r.is_ok() ==> {
                let p = r.unwrap();
                &&& p.kind == kind
                &&& p.user_id@ == user_id.unwrap()@
                &&& p.object_id@ == object_id@
                &&& p.revisions@ == revisions@
            },
    {
        match pool {
            Err(e) => Err(e),
            Ok(()) => match user_id {
                Err(e) => Err(e),
                Ok(uid) => Ok(
                    ResetPlan { kind, user_id: uid, object_id: object_id.to_owned(), revisions },
                ),
            },
        }
    }

    /// Prepares the manager for a user who has just signed up; there is nothing to set up.
    pub fn initialize_with_new_user(&self, _user_id: &str, _token: &str) -> (r: Result<(), DatabaseError>)
        ensures
            r == Ok::<(), DatabaseError>(()),
    {
        Ok(())
    }

    /// Prepares the manager for a signed-in user; there is nothing to set up.
    pub fn initialize(&self, _user_id: &str, _token: &str) -> (r: Result<(), DatabaseError>)
        ensures
            r == Ok::<(), DatabaseError>(()),
    {
        Ok(())
    }

    /// The live editor for `database_id`, if there is one; nothing changes. On `None`
    /// the caller goes on to `open_database`.
    pub fn get_database_editor(&self, database_id: &str) -> (r: Option<&H>)
        requires
            self.wf(),
        ensures
            match r {
                Some(h) => live_handle(self@, database_id@) == Some(*h),
                None => live_handle(self@, database_id@) is None,
            },
    {
        self.editors.get(database_id)
    }

    /// Opens `database_id` once the best-effort migration has run. The migration's
    /// outcome is not consulted: the step and the new state are those of
    /// `get_or_create_database_editor`, whatever it was.
    pub fn open_database(&mut self, database_id: &str, _migration: Result<(), DatabaseError>) -> (r:
        Claim)
        requires
            old(self).wf(),
        ensures
            final(self).wf(),
            r == claim_outcome(old(self)@, database_id@),
            final(self)@ == claim_state(old(self)@, database_id@),
    {
        self.get_or_create_database_editor(database_id)
    }

    /// Checks for a live editor and, on a miss, claims the id in the same step: `Live`
    /// means the handle is there to take, `Building` that another caller is building it,
    /// `Claimed` that this caller must build it and hand it to `settle_open`.
    pub fn get_or_create_database_editor(&mut self, database_id: &str) -> (r: Claim)
        requires
            old(self).wf(),
        ensures
            final(self).wf(),
            r == claim_outcome(old(self)@, database_id@),
            final(self)@ == claim_state(old(self)@, database_id@),
    {
        self.editors.claim(database_id)
    }

    /// Whether some caller holds the claim to build the editor of `database_id`.
    pub fn is_building(&self, database_id: &str) -> (r: bool)
        requires
            self.wf(),
        ensures
            r == in_flight(self@, database_id@),
    {
        self.editors.is_in_flight(database_id)
    }

    /// Settles a claim on `database_id` with the outcome of building its editor, which the
    /// claiming caller has done meanwhile: a built editor becomes the live handle, a
    /// failure releases the claim and is returned.
    pub fn settle_open(&mut self, database_id: &str, built: Result<H, DatabaseError>) -> (r:
        Result<(), DatabaseError>)
        requires
            old(self).wf(),
            in_flight(old(self)@, database_id@),
        ensures
            final(self).wf(),
            match built {
                Ok(h) => r == Ok::<(), DatabaseError>(()) && final(self)@ == old(self)@.insert(
                    database_id@,
                    Slot::Ready(h),
                ),
                Err(e) => r == Err::<(), DatabaseError>(e) && final(self)@ == old(self)@.remove(
                    database_id@,
                ),
            },
    {
        match built {
            Ok(h) => {
                self.editors.complete(database_id, h);
                Ok(())
            },
            Err(e) => {
                self.editors.abandon(database_id);
                Err(e)
            },
        }
    }

    /// Releases the live editor of `database_id` and returns it for teardown. An id with
    /// no live editor is a no-op. An editor is registered once per id and an open that
    /// finds it live adds no reference, so a single close releases it.
    pub fn close_database(&mut self, database_id: &str) -> (r: Option<H>)
        requires
            old(self).wf(),
        ensures
            final(self).wf(),
            r == live_handle(old(self)@, database_id@),
            r is Some ==> final(self)@ == old(self)@.remove(database_id@),
            r is None ==> final(self)@ == old(self)@,
    {
        self.editors.remove(database_id)
    }

    /// Plans seeding the database log of `grid_id` with exactly `revisions`, given whether
    /// the user's storage pool and user id are available. Leaves the editors untouched.
    pub fn create_grid(
        &self,
        grid_id: &str,
        revisions: Vec<Revision>,
        pool: Result<(), DatabaseError>,
        user_id: Result<String, DatabaseError>,
    ) -> (r: Result<ResetPlan, DatabaseError>)
        ensures
            r.is_ok() == create_outcome(pool, user_id).is_ok(),
            r.is_err() ==> r.unwrap_err() == create_outcome(pool, user_id).unwrap_err(),
            r.is_ok() ==> {
                let p = r.unwrap();
                &&& p.kind == LogKind::Database
                &&& p.user_id@ == user_id.unwrap()@
                &&& p.object_id@ == grid_id@
                &&& p.revisions@ == revisions@
            },
    {
        Self::make_reset_plan(LogKind::Database, grid_id, revisions, pool, user_id)
    }

    /// Plans seeding the log of block `block_id` with exactly `revisions`.
    pub fn create_grid_block(
        &self,
        block_id: &str,
        revisions: Vec<Revision>,
        pool: Result<(), DatabaseError>,
        user_id: Result<String, DatabaseError>,
    ) -> (r: Result<ResetPlan, DatabaseError>)
        ensures
            r.is_ok() == create_outcome(pool, user_id).is_ok(),
            r.is_err() ==> r.unwrap_err() == create_outcome(pool, user_id).unwrap_err(),
            r.is_ok() ==> {
                let p = r.unwrap();
                &&& p.kind == LogKind::Block
                &&& p.user_id@ == user_id.unwrap()@
                &&& p.object_id@ == block_id@
                &&& p.revisions@ == revisions@
            },
    {
        Self::make_reset_plan(LogKind::Block, block_id, revisions, pool, user_id)
    }

    /// Plans seeding the log of view `view_id` with exactly `revisions`.
    pub fn create_grid_view(
        &self,
        view_id: &str,
        revisions: Vec<Revision>,
        pool: Result<(), DatabaseError>,
        user_id: Result<String, DatabaseError>,
    ) -> (r: Result<ResetPlan, DatabaseError>)
        ensures
            r.is_ok() == create_outcome(pool, user_id).is_ok(),
            r.is_err() ==> r.unwrap_err() == create_outcome(pool, user_id).unwrap_err(),
            r.is_ok() ==> {
                let p = r.unwrap();
                &&& p.kind == LogKind::View
                &&& p.user_id@ == user_id.unwrap()@
                &&& p.object_id@ == view_id@
                &&& p.revisions@ == revisions@
            },
    {
        Self::make_reset_plan(LogKind::View, view_id, revisions, pool, user_id)
    }

    /// The configuration of the revision manager for database `database_id` owned by
    /// `user_id`: snapshots under the derived snapshot id, six revisions retained, no
    /// forced flush.
    pub fn make_database_rev_manager(&self, database_id: &str, user_id: &str) -> (r:
        RevisionManagerConfig)
        ensures
            r.user_id@ == user_id@,
            r.object_id@ == database_id@,
            r.snapshot_object_id@ == snapshot_object_id(database_id@),
            r.merge_threshold == REVISION_RETENTION,
            r.force_flush == false,
    {
        let mut snapshot = String::from_str("grid:");
        proof {
            reveal_strlit("grid:");
        }
        snapshot.append(database_id);
        RevisionManagerConfig {
            user_id: user_id.to_owned(),
            object_id: database_id.to_owned(),
            snapshot_object_id: snapshot,
            merge_threshold: REVISION_RETENTION,
            force_flush: false,
        }
    }
}


/// Once an open of `id` settles with the built editor `h`, a lookup of `id` returns `h`;
/// and while `id` stays live with `h`, opening any id, or settling or closing any other
/// id, leaves the lookup of `id` returning `h` (and reopening `id` reports it live).
pub proof fn lemma_open_then_get_same<H>(
    m: Map<Seq<char>, Slot<H>>,
    id: Seq<char>,
    h: H,
    other: Seq<char>,
    g: H,
)
    ensures
        in_flight(m, id) ==> live_handle(m.insert(id, Slot::Ready(h)), id) == Some(h),
        live_handle(m, id) == Some(h) ==> {
            &&& claim_outcome(m, id) == Claim::Live
            &&& live_handle(claim_state(m, other), id) == Some(h)
            &&& other != id ==> live_handle(m.remove(other), id) == Some(h)
            &&& other != id ==> live_handle(m.insert(other, Slot::Ready(g)), id) == Some(h)
        },
{
}

/// How many of `n` successive opens of `id`, starting from `m`, are granted the claim to
/// build its editor.
pub open spec fn claims_granted<H>(m: Map<Seq<char>, Slot<H>>, id: Seq<char>, n: nat) -> nat
    decreases n,
{
    if n == 0 {
        0
    } else {
        (if claim_outcome(m, id) == Claim::Claimed {
            1nat
        } else {
            0nat
        }) + claims_granted(claim_state(m, id), id, (n - 1) as nat)
    }
}

proof fn lemma_no_claim_while_known<H>(m: Map<Seq<char>, Slot<H>>, id: Seq<char>, n: nat)
    requires
        m.contains_key(id),
    ensures
        claims_granted(m, id, n) == 0,
    decreases n,
{
    if n > 0 {
        lemma_no_claim_while_known(claim_state(m, id), id, (n - 1) as nat);
    }
}

/// Of any number of opens of an id that is not yet known, exactly one is granted the
/// claim to build the editor; the others see it building or live.
pub proof fn lemma_single_construction<H>(m: Map<Seq<char>, Slot<H>>, id: Seq<char>, n: nat)
    requires
        n >= 1,
        !m.contains_key(id),
    ensures
        claims_granted(m, id, n) == 1,
{
    lemma_no_claim_while_known(claim_state(m, id), id, (n - 1) as nat);
}

} // verus!
