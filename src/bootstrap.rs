use vstd::prelude::*;
use crate::error::DatabaseError;

verus! {

/// How a view lays out its rows.
#[derive(Clone, Copy, Debug, PartialEq, Eq, Structural)]
pub enum DatabaseViewLayout {
    Grid,
    Board,
    Calendar,
}

/// A schema field definition.
#[derive(Clone, Debug)]
pub struct FieldRevision {
    pub id: String,
    pub name: String,
}

/// A row, as stored in its block.
#[derive(Clone, Debug)]
pub struct RowRevision {
    pub id: String,
    pub block_id: String,
}

/// A block in its final form: its id and its rows, in order.
#[derive(Clone, Debug)]
pub struct GridBlockRevision {
    pub block_id: String,
    pub rows: Vec<RowRevision>,
}

/// What the schema records of one block.
#[derive(Clone, Debug)]
pub struct GridBlockMetaRevision {
    pub block_id: String,
    pub start_row_index: i32,
    pub row_count: i32,
}

/// Everything a new database is built from. An empty view payload asks for a default view.
#[derive(Clone, Debug)]
pub struct BuildGridContext {
    pub field_revs: Vec<FieldRevision>,
    pub block_metas: Vec<GridBlockMetaRevision>,
    pub blocks: Vec<GridBlockRevision>,
    pub grid_view_revision_data: String,
}

/// The schema of a database: its fields and the blocks it references.
#[derive(Clone, Debug)]
pub struct DatabaseRevision {
    pub grid_id: String,
    pub fields: Vec<FieldRevision>,
    pub blocks: Vec<GridBlockMetaRevision>,
}

impl DatabaseRevision {
    pub fn from_build_context(
        grid_id: &str,
        field_revs: Vec<FieldRevision>,
        block_metas: Vec<GridBlockMetaRevision>,
    ) -> (r: DatabaseRevision)
        ensures
            r.grid_id@ == grid_id@,
            r.fields@ == field_revs@,
            r.blocks@ == block_metas@,
    {
        DatabaseRevision { grid_id: grid_id.to_owned(), fields: field_revs, blocks: block_metas }
    }
}

/// A view over a database.
#[derive(Clone, Debug)]
pub struct DatabaseViewRevision {
    pub view_id: String,
    pub database_id: String,
    pub layout: DatabaseViewLayout,
}

impl DatabaseViewRevision {
    pub fn new(database_id: String, view_id: String, layout: DatabaseViewLayout) -> (r:
        DatabaseViewRevision)
        ensures
            r.database_id == database_id,
            r.view_id == view_id,
            r.layout == layout,
    {
        DatabaseViewRevision { view_id, database_id, layout }
    }
}

/// One step of bootstrapping a database, in the order the steps must run.
#[derive(Clone, Debug)]
pub enum BootstrapStep {
    /// Record that row `row_id` lives in block `block_id`; a failure here is not fatal.
    IndexRow { row_id: String, block_id: String },
    /// Seed the log of the block at this position of the build context.
    CreateBlock { block: usize },
    /// Seed the database log with the schema.
    CreateDatabase,
    /// Resolve the view and seed its log.
    CreateView,
}

/// The index steps for the rows of one block, each naming that block.
pub open spec fn row_steps(b: GridBlockRevision) -> Seq<BootstrapStep> {
    b.rows@.map_values(|r: RowRevision| BootstrapStep::IndexRow { row_id: r.id, block_id: b.block_id })
}

/// The index steps for all rows of all blocks, block by block.
pub open spec fn index_steps(blocks: Seq<GridBlockRevision>) -> Seq<BootstrapStep>
    decreases blocks.len(),
{
    if blocks.len() == 0 {
        Seq::empty()
    } else {
        index_steps(blocks.drop_last()) + row_steps(blocks.last())
    }
}

/// One create step per block, in order.
pub open spec fn block_steps(n: nat) -> Seq<BootstrapStep> {
    Seq::new(n, |i: int| BootstrapStep::CreateBlock { block: i as usize })
}

/// The whole bootstrap: index every row, then create every block, then the database,
/// then the view.
pub open spec fn bootstrap_plan(blocks: Seq<GridBlockRevision>) -> Seq<BootstrapStep> {
    index_steps(blocks) + block_steps(blocks.len()) + seq![
        BootstrapStep::CreateDatabase,
        BootstrapStep::CreateView,
    ]
}

fn index_rows(blocks: &Vec<GridBlockRevision>) -> (r: Vec<BootstrapStep>)
    ensures
        r@ == index_steps(blocks@),
{
    let mut out: Vec<BootstrapStep> = Vec::new();
    let mut i: usize = 0;
    while i < blocks.len()
        invariant
            i <= blocks.len(),
            out@ == index_steps(blocks@.take(i as int)),
        decreases blocks.len() - i,
    {
        let block = &blocks[i];
        let mut j: usize = 0;
        while j < block.rows.len()
            invariant
                i < blocks.len(),
                block == blocks@[i as int],
                j <= block.rows.len(),
                out@ == index_steps(blocks@.take(i as int)) + row_steps(*block).take(j as int),
            decreases block.rows.len() - j,
        {
            let step = BootstrapStep::IndexRow {
                row_id: block.rows[j].id.clone(),
                block_id: block.block_id.clone(),
            };
            out.push(step);
            proof {
                assert(row_steps(*block).take(j + 1) == row_steps(*block).take(j as int).push(step));
            }
            j = j + 1;
        }
        proof {
            assert(row_steps(*block).take(j as int) == row_steps(*block));
            assert(blocks@.take(i + 1).drop_last() == blocks@.take(i as int));
        }
        i = i + 1;
    }
    proof {
        assert(blocks@.take(blocks.len() as int) == blocks@);
    }
    out
}

fn plan_steps(blocks: &Vec<GridBlockRevision>) -> (r: Vec<BootstrapStep>)
    ensures
        r@ == bootstrap_plan(blocks@),
{
    let mut out = index_rows(blocks);
    let ghost prefix = out@;
    let mut i: usize = 0;
    while i < blocks.len()
        invariant
            i <= blocks.len(),
            out@ == prefix + block_steps(i as nat),
        decreases blocks.len() - i,
    {
        out.push(BootstrapStep::CreateBlock { block: i });
        proof {
            assert(block_steps((i + 1) as nat) == block_steps(i as nat).push(
                BootstrapStep::CreateBlock { block: i },
            ));
        }
        i = i + 1;
    }
    out.push(BootstrapStep::CreateDatabase);
    out.push(BootstrapStep::CreateView);
    out
}

/// The create steps among `steps`, in order: what a run has committed once it has
/// passed them.
pub open spec fn creates(steps: Seq<BootstrapStep>) -> Seq<BootstrapStep>
    decreases steps.len(),
{
    if steps.len() == 0 {
        Seq::empty()
    } else if steps.last() is IndexRow {
        creates(steps.drop_last())
    } else {
        creates(steps.drop_last()).push(steps.last())
    }
}

/// A bootstrap in progress. The caller asks for the next step, performs it, and records
/// its outcome. A failed index write is passed over; the first failed create ends the
/// run with that error, and the creates before it stay committed.
pub struct BootstrapRun {
    grid_id: String,
    view_id: String,
    layout: DatabaseViewLayout,
    schema: DatabaseRevision,
    blocks: Vec<GridBlockRevision>,
    view_data: String,
    steps: Vec<BootstrapStep>,
    next: usize,
    failure: Option<DatabaseError>,
}

impl BootstrapRun {
    pub closed spec fn wf(&self) -> bool {
        &&& self.steps@ == bootstrap_plan(self.blocks@)
        &&& self.next <= self.steps.len()
        &&& self.failure is Some ==> self.next < self.steps.len()
        &&& self.schema.grid_id@ == self.grid_id@
    }

    /// The steps of the run, in order.
    pub closed spec fn steps(&self) -> Seq<BootstrapStep> {
        self.steps@
    }

    /// How many steps have been performed and recorded without ending the run.
    pub closed spec fn position(&self) -> nat {
        self.next as nat
    }

    /// The error that ended the run, if one did.
    pub closed spec fn failure(&self) -> Option<DatabaseError> {
        self.failure
    }

    /// The blocks of the build context.
    pub closed spec fn blocks(&self) -> Seq<GridBlockRevision> {
        self.blocks@
    }

    /// The database id, which the schema carries too.
    pub closed spec fn grid_id(&self) -> Seq<char> {
        self.grid_id@
    }

    /// The view id.
    pub closed spec fn view_id(&self) -> Seq<char> {
        self.view_id@
    }

    /// The requested layout of a default view.
    pub closed spec fn layout(&self) -> DatabaseViewLayout {
        self.layout
    }

    /// The serialized view definition, empty to ask for a default view.
    pub closed spec fn view_data(&self) -> Seq<char> {
        self.view_data@
    }

    /// The schema that the database create step commits.
    pub closed spec fn schema(&self) -> DatabaseRevision {
        self.schema
    }

    /// Whether the run has ended, by a failure or by passing every step.
    pub open spec fn finished(&self) -> bool {
        self.failure() is Some || self.position() == self.steps().len()
    }

    /// What the run has committed so far: the creates among the steps it has passed.
    pub open spec fn committed(&self) -> Seq<BootstrapStep> {
        creates(self.steps().take(self.position() as int))
    }

    /// The schema to encode for the database create step.
    pub fn database_revision(&self) -> (r: &DatabaseRevision)
        ensures
            *r == self.schema(),
    {
        &self.schema
    }

    /// The block that a `CreateBlock` step names.
    pub fn block(&self, index: usize) -> (r: &GridBlockRevision)
        requires
            index < self.blocks().len(),
        ensures
            *r == self.blocks()[index as int],
    {
        &self.blocks[index]
    }

    /// The id of the database being built.
    pub fn database_id(&self) -> (r: &String)
        ensures
            r@ == self.grid_id(),
    {
        &self.grid_id
    }

    /// The id under which the view log is created.
    pub fn requested_view_id(&self) -> (r: &String)
        ensures
            r@ == self.view_id(),
    {
        &self.view_id
    }

    /// The serialized view definition supplied in the build context, empty if none.
    pub fn view_payload(&self) -> (r: &String)
        ensures
            r@ == self.view_data(),
    {
        &self.view_data
    }

    /// The step to perform next, or `None` once the run has ended.
    pub fn next_step(&self) -> (r: Option<&BootstrapStep>)
        requires
            self.wf(),
        ensures
            self.finished() ==> r is None,
            !self.finished() ==> r == Some(&self.steps()[self.position() as int]),
    {
        if self.failure.is_some() || self.next >= self.steps.len() {
            None
        } else {
            Some(&self.steps[self.next])
        }
    }

    /// Records the outcome of the step just performed. An index write's outcome is passed
    /// over; a create that succeeded is committed; a create that failed ends the run.
    pub fn record(&mut self, outcome: Result<(), DatabaseError>)
        requires
            old(self).wf(),
            !old(self).finished(),
        ensures
            final(self).wf(),
            final(self).position() <= final(self).steps().len(),
            final(self).steps() == old(self).steps(),
            final(self).blocks() == old(self).blocks(),
            final(self).grid_id() == old(self).grid_id(),
            final(self).view_id() == old(self).view_id(),
            final(self).layout() == old(self).layout(),
            final(self).view_data() == old(self).view_data(),
            final(self).schema() == old(self).schema(),
            ({
                let step = old(self).steps()[old(self).position() as int];
                if step is IndexRow || outcome is Ok {
                    &&& final(self).position() == old(self).position() + 1
                    &&& final(self).failure() is None
                    &&& step is IndexRow ==> final(self).committed() == old(self).committed()
                    &&& !(step is IndexRow) ==> final(self).committed() == old(self).committed().push(step)
                } else {
                    &&& final(self).position() == old(self).position()
                    &&& final(self).failure() == Some(outcome.unwrap_err())
                    &&& final(self).committed() == old(self).committed()
                }
            }),
    {
        let ghost passed = self.steps@.take(self.next as int);
        let is_index = matches!(self.steps[self.next], BootstrapStep::IndexRow { .. });
        proof {
            assert(self.steps@.take(self.next + 1).drop_last() == passed);
        }
        if is_index {
            self.next = self.next + 1;
        } else {
            match outcome {
                Ok(()) => {
                    self.next = self.next + 1;
                },
                Err(e) => {
                    self.failure = Some(e);
                },
            }
        }
    }

    /// How the run ended: `None` while steps remain, the error that ended it, or `Ok`
    /// once every step has passed.
    pub fn result(&self) -> (r: Option<Result<(), DatabaseError>>)
        requires
            self.wf(),
        ensures
            !self.finished() ==> r is None,
            self.failure() is Some ==> r == Some(Err::<(), DatabaseError>(self.failure().unwrap())),
            self.failure() is None && self.finished() ==> r == Some(Ok::<(), DatabaseError>(())),
    {
        match self.failure {
            Some(e) => Some(Err(e)),
            None => if self.next >= self.steps.len() {
                Some(Ok(()))
            } else {
                None
            },
        }
    }

    /// The view to commit: a default view of this database when no definition was
    /// supplied, else the definition read from the supplied payload, which is `None`
    /// when the payload is malformed.
    pub fn resolve_view(&self, parsed: Option<DatabaseViewRevision>) -> (r: Result<
        DatabaseViewRevision,
        DatabaseError,
    >)
        requires
            self.wf(),
        ensures
            self.view_data().len() == 0 ==> r is Ok && r.unwrap().database_id@ == self.grid_id()
                && r.unwrap().view_id@ == self.view_id() && r.unwrap().layout == self.layout(),
            self.view_data().len() != 0 && parsed is Some ==> r == Ok::<
                DatabaseViewRevision,
                DatabaseError,
            >(parsed.unwrap()),
            self.view_data().len() != 0 && parsed is None ==> r == Err::<
                DatabaseViewRevision,
                DatabaseError,
            >(DatabaseError::InvalidData),
    {
        if self.view_data.as_str().is_empty() {
            Ok(DatabaseViewRevision::new(self.grid_id.clone(), self.view_id.clone(), self.layout))
        } else {
            match parsed {
                Some(v) => Ok(v),
                None => Err(DatabaseError::InvalidData),
            }
        }
    }
}

/// Starts bootstrapping the database behind view `view_id` from `build_context`. The
/// database takes the view's id. Every row is indexed under the block that holds it,
/// then each block, the schema and the view are created in that order.
pub fn make_database_view_data(
    view_id: &str,
    layout: DatabaseViewLayout,
    build_context: BuildGridContext,
) -> (r: BootstrapRun)
    ensures
        r.wf(),
        r.steps() == bootstrap_plan(build_context.blocks@),
        r.position() == 0,
        r.failure() is None,
        r.blocks() == build_context.blocks@,
        r.grid_id() == view_id@,
        r.view_id() == view_id@,
        r.layout() == layout,
        r.view_data() == build_context.grid_view_revision_data@,
        r.schema().grid_id@ == view_id@,
        r.schema().fields@ == build_context.field_revs@,
        r.schema().blocks@ == build_context.block_metas@,
{
    let BuildGridContext { field_revs, block_metas, blocks, grid_view_revision_data } =
        build_context;
    let steps = plan_steps(&blocks);
    let grid_id = view_id.to_owned();
    let schema = DatabaseRevision::from_build_context(view_id, field_revs, block_metas);
    BootstrapRun {
        grid_id,
        view_id: view_id.to_owned(),
        layout,
        schema,
        blocks,
        view_data: grid_view_revision_data,
        steps,
        next: 0,
        failure: None,
    }
}

/// The number of rows over all of `blocks`.
pub open spec fn total_rows(blocks: Seq<GridBlockRevision>) -> nat
    decreases blocks.len(),
{
    if blocks.len() == 0 {
        0
    } else {
        total_rows(blocks.drop_last()) + blocks.last().rows@.len()
    }
}

proof fn lemma_creates_append(a: Seq<BootstrapStep>, b: Seq<BootstrapStep>)
    ensures
        creates(a + b) == creates(a) + creates(b),
    decreases b.len(),
{
    if b.len() == 0 {
        assert(a + b == a);
    } else {
        assert((a + b).drop_last() == a + b.drop_last());
        lemma_creates_append(a, b.drop_last());
    }
}

proof fn lemma_creates_of_creates(s: Seq<BootstrapStep>)
    requires
        forall|i: int| 0 <= i < s.len() ==> !(#[trigger] s[i] is IndexRow),
    ensures
        creates(s) == s,
    decreases s.len(),
{
    if s.len() > 0 {
        lemma_creates_of_creates(s.drop_last());
        assert(s.drop_last().push(s.last()) == s);
    }
}

proof fn lemma_index_steps(blocks: Seq<GridBlockRevision>)
    ensures
        index_steps(blocks).len() == total_rows(blocks),
        creates(index_steps(blocks)) == Seq::<BootstrapStep>::empty(),
        forall|k: int|
            0 <= k < index_steps(blocks).len() ==> match #[trigger] index_steps(blocks)[k] {
                BootstrapStep::IndexRow { row_id, block_id } => exists|i: int, j: int|
                    0 <= i < blocks.len() && 0 <= j < blocks[i].rows.len() && blocks[i].rows[j].id
                        == row_id && blocks[i].block_id == block_id,
                _ => false,
            },
    decreases blocks.len(),
{
    if blocks.len() > 0 {
        let init = blocks.drop_last();
        let b = blocks.last();
        lemma_index_steps(init);
        lemma_creates_append(index_steps(init), row_steps(b));
        lemma_no_creates(row_steps(b));
        let all = index_steps(blocks);
        assert forall|k: int| 0 <= k < all.len() implies match #[trigger] all[k] {
            BootstrapStep::IndexRow { row_id, block_id } => exists|i: int, j: int|
                0 <= i < blocks.len() && 0 <= j < blocks[i].rows.len() && blocks[i].rows[j].id
                    == row_id && blocks[i].block_id == block_id,
            _ => false,
        } by {
            if k < index_steps(init).len() {
                assert(all[k] == index_steps(init)[k]);
                if let BootstrapStep::IndexRow { row_id, block_id } = index_steps(init)[k] {
                    let (i, j) = choose|i: int, j: int|
                        0 <= i < init.len() && 0 <= j < init[i].rows.len() && init[i].rows[j].id
                            == row_id && init[i].block_id == block_id;
                    assert(blocks[i] == init[i]);
                }
            } else {
                let j = k - index_steps(init).len();
                assert(all[k] == row_steps(b)[j]);
                assert(blocks[blocks.len() - 1] == b);
            }
        }
    }
}

proof fn lemma_no_creates(s: Seq<BootstrapStep>)
    requires
        forall|i: int| 0 <= i < s.len() ==> #[trigger] s[i] is IndexRow,
    ensures
        creates(s) == Seq::<BootstrapStep>::empty(),
    decreases s.len(),
{
    if s.len() > 0 {
        lemma_no_creates(s.drop_last());
    }
}

/// A bootstrap writes one index entry per row, and each entry maps a row to the block
/// that holds it; its creates are every block in order, then the database, then the
/// view. So a run that ends without failure has committed exactly those.
pub proof fn lemma_bootstrap_commits(blocks: Seq<GridBlockRevision>)
    ensures
        index_steps(blocks).len() == total_rows(blocks),
        forall|k: int|
            0 <= k < index_steps(blocks).len() ==> match #[trigger] index_steps(blocks)[k] {
                BootstrapStep::IndexRow { row_id, block_id } => exists|i: int, j: int|
                    0 <= i < blocks.len() && 0 <= j < blocks[i].rows.len() && blocks[i].rows[j].id
                        == row_id && blocks[i].block_id == block_id,
                _ => false,
            },
        creates(bootstrap_plan(blocks)) == block_steps(blocks.len()) + seq![
            BootstrapStep::CreateDatabase,
            BootstrapStep::CreateView,
        ],
{
    lemma_index_steps(blocks);
    let rest = block_steps(blocks.len()) + seq![
        BootstrapStep::CreateDatabase,
        BootstrapStep::CreateView,
    ];
    assert(bootstrap_plan(blocks) == index_steps(blocks) + rest);
    lemma_creates_append(index_steps(blocks), rest);
    lemma_creates_of_creates(rest);
    assert(Seq::<BootstrapStep>::empty() + rest == rest);
}

/// A run that ends without a failure has committed every block in order, then the
/// database, then the view, and nothing else.
pub proof fn lemma_completed_bootstrap(run: BootstrapRun)
    requires
        run.wf(),
        run.finished(),
        run.failure() is None,
    ensures
        run.committed() == block_steps(run.blocks().len()) + seq![
            BootstrapStep::CreateDatabase,
            BootstrapStep::CreateView,
        ],
{
    lemma_bootstrap_commits(run.blocks());
    assert(run.steps().take(run.steps().len() as int) == run.steps());
}

/// A run that ends at the view step, because the view could not be resolved or
/// committed, has performed every index write, keeps every block and the database
/// committed, and has not committed the view.
pub proof fn lemma_partial_bootstrap(run: BootstrapRun)
    requires
        run.wf(),
        run.failure() is Some,
        run.steps()[run.position() as int] is CreateView,
    ensures
        run.position() == total_rows(run.blocks()) + run.blocks().len() + 1,
        run.steps().take(total_rows(run.blocks()) as int) == index_steps(run.blocks()),
        run.committed() == block_steps(run.blocks().len()) + seq![BootstrapStep::CreateDatabase],
{
    let blocks = run.blocks();
    let steps = run.steps();
    let n = steps.len();
    let prefix = index_steps(blocks) + block_steps(blocks.len());
    assert(steps == prefix + seq![BootstrapStep::CreateDatabase, BootstrapStep::CreateView]);
    if run.position() < n - 1 {
        let p = run.position() as int;
        if p < index_steps(blocks).len() {
            lemma_index_steps(blocks);
            assert(steps[p] == index_steps(blocks)[p]);
        } else if p < prefix.len() {
            assert(steps[p] == block_steps(blocks.len())[p - index_steps(blocks).len()]);
        } else {
            assert(steps[p] == BootstrapStep::CreateDatabase);
        }
    }
    assert(run.position() == n - 1);
    lemma_index_steps(blocks);
    assert(steps.take(total_rows(blocks) as int) == index_steps(blocks));
    let tail = block_steps(blocks.len()) + seq![BootstrapStep::CreateDatabase];
    assert(steps.take(n - 1) == index_steps(blocks) + tail);
    lemma_index_steps(blocks);
    lemma_creates_append(index_steps(blocks), tail);
    lemma_creates_of_creates(tail);
    assert(Seq::<BootstrapStep>::empty() + tail == tail);
}

} // verus!
