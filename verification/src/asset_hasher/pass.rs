//! One pass of fingerprinting, step by step.
//!
//! A pass rewrites the source files one after the other, then has the
//! project built again, then renames the assets one after the other. It
//! hands out one task at a time and is told how the task went. A failure
//! before the renaming ends the pass at once. A renaming that fails is
//! noted, and the pass goes on with the next asset: it fails with all that
//! it noted once every asset was tried. Nothing that was done is undone.
//! A pass whose assets would be renamed into one another's way fails
//! before it begins.

use crate::asset_hasher::{
    asset_views, dist_uri, find_collision, first_collision, lemma_first_collision_from,
    lemma_hashed_uris_resolve,
    lemma_no_collision_keeps_apart, rename_of, renamed_all, renames_apart, rewrite_content,
    rewritten, AssetHasher, Error, ErrorView, HashedAsset, HashedAssetView, Rename, RenameView,
};
use crate::paths;
use crate::util::file_util;
use crate::util::file_util::{replacement_of, FileData, FileDataView, Replacement};
use vstd::prelude::*;

verus! {

/// What the owner of a pass is asked to do next.
#[derive(Debug, PartialEq, Eq)]
pub enum Task {
    /// Read the source file at `path` and report its text and permission
    /// bits.
    Read { path: String },
    /// Replace a source file by its rewritten text.
    Write(Replacement),
    /// Build the project again, in full.
    Rebuild,
    /// Rename an asset file.
    Rename(Rename),
    /// Nothing: the pass is complete.
    Finished,
    /// Nothing: the pass has failed with these errors, in the order in
    /// which they came.
    Failed(Vec<Error>),
}

/// A task as plain values.
pub enum TaskView {
    Read { path: Seq<char> },
    Write(file_util::ReplacementView),
    Rebuild,
    Rename(RenameView),
    Finished,
    Failed(Seq<ErrorView>),
}

/// The views of a vector of errors.
pub open spec fn error_views(errors: Seq<Error>) -> Seq<ErrorView> {
    errors.map_values(|e: Error| e@)
}

impl View for Task {
    type V = TaskView;

    open spec fn view(&self) -> TaskView {
        match self {
            Task::Read { path } => TaskView::Read { path: path@ },
            Task::Write(replacement) => TaskView::Write(replacement@),
            Task::Rebuild => TaskView::Rebuild,
            Task::Rename(rename) => TaskView::Rename(rename@),
            Task::Finished => TaskView::Finished,
            Task::Failed(errors) => TaskView::Failed(error_views(errors@)),
        }
    }
}

/// How the task that was asked for went.
#[derive(Debug, PartialEq, Eq)]
pub enum Reply {
    /// The source file was read: its text and permission bits.
    Read(FileData),
    /// The task was carried out.
    Done,
    /// The task could not be carried out; the text says why.
    Failed(String),
}

/// A reply as plain values.
pub enum ReplyView {
    Read(FileDataView),
    Done,
    Failed(Seq<char>),
}

impl View for Reply {
    type V = ReplyView;

    open spec fn view(&self) -> ReplyView {
        match self {
            Reply::Read(data) => ReplyView::Read(data@),
            Reply::Done => ReplyView::Done,
            Reply::Failed(reason) => ReplyView::Failed(reason@),
        }
    }
}

/// Where a pass stands.
pub enum PhaseView {
    /// The source file with this index is to be read.
    Reading(int),
    /// The source file with this index is to be replaced by this text.
    Writing(int, FileDataView),
    /// Every source file is rewritten; the project is to be built again.
    Rebuilding,
    /// The asset with this index is to be renamed; the renamings before
    /// it that failed gave these errors.
    Renaming(int, Seq<ErrorView>),
    /// Every asset is renamed.
    Finished,
    /// The pass has failed with these errors.
    Failed(Seq<ErrorView>),
}

/// A pass as plain values: the paths of the source files, the assets, and
/// where the pass stands.
pub struct PassView {
    pub sources: Seq<Seq<char>>,
    pub assets: Seq<HashedAssetView>,
    pub phase: PhaseView,
}

impl PassView {
    /// The phase speaks of a source file or an asset that the pass has.
    pub open spec fn wf(self) -> bool {
        match self.phase {
            PhaseView::Reading(i) => 0 <= i < self.sources.len(),
            PhaseView::Writing(i, _) => 0 <= i < self.sources.len(),
            PhaseView::Renaming(j, _) => 0 <= j < self.assets.len(),
            _ => true,
        }
    }

    /// The phase in which source file `i` is taken up, or the next phase
    /// where the source files are used up.
    pub open spec fn rewriting_from(self, i: int) -> PhaseView {
        if i < self.sources.len() {
            PhaseView::Reading(i)
        } else {
            PhaseView::Rebuilding
        }
    }

    /// The phase in which asset `j` is taken up after the renamings
    /// before it gave the errors `failures`, or the last phase where the
    /// assets are used up: the pass is finished where no renaming failed,
    /// and has failed with `failures` otherwise.
    pub open spec fn renaming_from(self, j: int, failures: Seq<ErrorView>) -> PhaseView {
        if j < self.assets.len() {
            PhaseView::Renaming(j, failures)
        } else if failures.len() == 0 {
            PhaseView::Finished
        } else {
            PhaseView::Failed(failures)
        }
    }

    /// The error of the renaming of asset `j` that failed for `reason`.
    pub open spec fn rename_failure(self, j: int, reason: Seq<char>) -> ErrorView {
        ErrorView::RenameAssetFile(self.assets[j].path, reason)
    }

    /// A pass over `sources` and `assets` at its start. Where an asset is
    /// in the way of the renaming of another, the pass has failed before it
    /// began, with the path of the first such asset: no file is touched.
    pub open spec fn start(sources: Seq<Seq<char>>, assets: Seq<HashedAssetView>) -> PassView {
        let pass = PassView { sources, assets, phase: PhaseView::Rebuilding };
        let taken = first_collision(assets);
        if taken < assets.len() {
            PassView {
                phase: PhaseView::Failed(seq![ErrorView::HashedNameTaken(assets[taken].path)]),
                ..pass
            }
        } else {
            PassView { phase: pass.rewriting_from(0), ..pass }
        }
    }

    /// What the owner is asked to do in this phase.
    pub open spec fn task(self) -> TaskView {
        match self.phase {
            PhaseView::Reading(i) => TaskView::Read { path: self.sources[i] },
            PhaseView::Writing(i, data) => TaskView::Write(replacement_of(self.sources[i], data)),
            PhaseView::Rebuilding => TaskView::Rebuild,
            PhaseView::Renaming(j, _) => TaskView::Rename(rename_of(self.assets[j])),
            PhaseView::Finished => TaskView::Finished,
            PhaseView::Failed(errors) => TaskView::Failed(errors),
        }
    }

    /// The phase after `reply`. A source file that was read is to be
    /// written with its text rewritten; one that was written is followed
    /// by the next, and the last by the build. A failure up to here ends
    /// the pass with the error that names what failed. After the build the
    /// assets are renamed one by one: a renaming that fails is noted with
    /// the path of its asset, and the next asset follows all the same.
    /// After the last asset the pass is finished, or has failed with the
    /// errors that were noted. A reply that does not answer the task of the
    /// phase changes nothing, and a pass that has ended stays as it is.
    pub open spec fn next_phase(self, reply: ReplyView) -> PhaseView {
        match (self.phase, reply) {
            (PhaseView::Reading(i), ReplyView::Read(data)) => PhaseView::Writing(
                i,
                rewritten(data, self.assets),
            ),
            (PhaseView::Reading(i), ReplyView::Failed(reason)) => PhaseView::Failed(
                seq![ErrorView::ReadFile(self.sources[i], reason)],
            ),
            (PhaseView::Writing(i, _), ReplyView::Done) => self.rewriting_from(i + 1),
            (PhaseView::Writing(i, _), ReplyView::Failed(reason)) => PhaseView::Failed(
                seq![ErrorView::WriteSourceFile(self.sources[i], reason)],
            ),
            (PhaseView::Rebuilding, ReplyView::Done) => self.renaming_from(0, Seq::empty()),
            (PhaseView::Rebuilding, ReplyView::Failed(reason)) => PhaseView::Failed(
                seq![ErrorView::Rebuild(reason)],
            ),
            (PhaseView::Renaming(j, failures), ReplyView::Done) => self.renaming_from(
                j + 1,
                failures,
            ),
            (PhaseView::Renaming(j, failures), ReplyView::Failed(reason)) => self.renaming_from(
                j + 1,
                failures.push(self.rename_failure(j, reason)),
            ),
            (phase, _) => phase,
        }
    }

    /// The pass after `reply`.
    pub open spec fn after(self, reply: ReplyView) -> PassView {
        PassView { phase: self.next_phase(reply), ..self }
    }

    /// The pass after the replies `replies`, taken in order.
    pub open spec fn after_all(self, replies: Seq<ReplyView>) -> PassView
        decreases replies.len(),
    {
        if replies.len() == 0 {
            self
        } else {
            self.after_all(replies.drop_last()).after(replies.last())
        }
    }

    /// Whether the pass stands in its first part, in which the source
    /// files are rewritten.
    pub open spec fn rewriting(self) -> bool {
        self.phase is Reading || self.phase is Writing
    }

    /// The number of source files that are rewritten when the pass stands
    /// in this phase, if the phase tells.
    pub open spec fn rewritten_count(self) -> Option<int> {
        match self.phase {
            PhaseView::Reading(i) => Some(i),
            PhaseView::Writing(i, _) => Some(i),
            PhaseView::Failed(_) => None,
            _ => Some(self.sources.len() as int),
        }
    }
}

/// Where a pass stands.
#[derive(Debug, PartialEq, Eq)]
enum Phase {
    Reading(usize),
    Writing(usize, FileData),
    Rebuilding,
    Renaming(usize),
    Finished,
    Failed,
}

/// One pass of fingerprinting over a project. The pass says what is to be
/// done, one task at a time, and is told how each task went.
#[derive(Debug, PartialEq, Eq)]
pub struct HashPass {
    sources: Vec<String>,
    assets: Vec<HashedAsset>,
    phase: Phase,
    failures: Vec<Error>,
}

impl View for HashPass {
    type V = PassView;

    closed spec fn view(&self) -> PassView {
        PassView {
            sources: self.sources@.map_values(|s: String| s@),
            assets: asset_views(self.assets@),
            phase: match self.phase {
                Phase::Reading(i) => PhaseView::Reading(i as int),
                Phase::Writing(i, data) => PhaseView::Writing(i as int, data@),
                Phase::Rebuilding => PhaseView::Rebuilding,
                Phase::Renaming(j) => PhaseView::Renaming(j as int, error_views(self.failures@)),
                Phase::Finished => PhaseView::Finished,
                Phase::Failed => PhaseView::Failed(error_views(self.failures@)),
            },
        }
    }
}

/// A copy of `errors`.
fn clone_errors(errors: &Vec<Error>) -> (out: Vec<Error>)
    ensures
        error_views(out@) == error_views(errors@),
{
    let mut out: Vec<Error> = Vec::new();
    let mut i: usize = 0;
    while i < errors.len()
        invariant
            i <= errors.len(),
            out@.len() == i,
            forall|k: int| 0 <= k < i ==> (#[trigger] out@[k])@ == errors@[k]@,
        decreases errors.len() - i,
    {
        out.push(errors[i].clone());
        i = i + 1;
    }
    assert(error_views(out@) =~= error_views(errors@));
    out
}

impl HashPass {
    #[verifier::type_invariant]
    spec fn inv(self) -> bool {
        &&& self@.wf()
        &&& self.phase is Renaming || self.phase is Failed || self.failures@.len() == 0
    }

    /// A pass that rewrites the source files at `sources`, in their order,
    /// and then renames `assets`, in their order.
    pub fn new(sources: Vec<String>, assets: Vec<HashedAsset>) -> (pass: HashPass)
        ensures
            pass@ == PassView::start(sources@.map_values(|s: String| s@), asset_views(assets@)),
            pass@.wf(),
    {
        match find_collision(&assets) {
            Some(taken) => {
                let mut failures: Vec<Error> = Vec::new();
                let error = Error::HashedNameTaken(assets[taken].path().clone());
                failures.push(error);
                assert(error_views(failures@) =~= seq![error@]);
                HashPass { sources, assets, phase: Phase::Failed, failures }
            },
            None => {
                let phase = if sources.len() > 0 {
                    Phase::Reading(0)
                } else {
                    Phase::Rebuilding
                };
                HashPass { sources, assets, phase, failures: Vec::new() }
            },
        }
    }

    /// What is to be done now.
    pub fn task(&self) -> (task: Task)
        ensures
            task@ == self@.task(),
            self@.wf(),
    {
        proof {
            use_type_invariant(self);
        }
        match &self.phase {
            Phase::Reading(i) => Task::Read { path: self.sources[*i].clone() },
            Phase::Writing(i, data) => Task::Write(
                file_util::write(self.sources[*i].as_str(), data.clone()),
            ),
            Phase::Rebuilding => Task::Rebuild,
            Phase::Renaming(j) => {
                let asset = &self.assets[*j];
                Task::Rename(Rename { from: asset.path().clone(), to: asset.path_with_hash() })
            },
            Phase::Finished => Task::Finished,
            Phase::Failed => Task::Failed(clone_errors(&self.failures)),
        }
    }

    /// Ends the pass with `error`.
    fn fail(&mut self, error: Error)
        requires
            old(self)@.wf(),
            old(self).failures@.len() == 0,
        ensures
            final(self)@ == (PassView { phase: PhaseView::Failed(seq![error@]), ..old(self)@ }),
            final(self)@.wf(),
    {
        let mut failures: Vec<Error> = Vec::new();
        failures.push(error);
        self.phase = Phase::Failed;
        self.failures = failures;
        assert(error_views(self.failures@) =~= seq![error@]);
    }

    /// Goes on to the renaming of asset `j`, or ends the pass behind the
    /// last asset.
    fn rename_from(&mut self, j: usize)
        requires
            old(self)@.wf(),
            old(self).phase is Renaming || old(self).failures@.len() == 0,
        ensures
            final(self)@ == (PassView {
                phase: old(self)@.renaming_from(j as int, error_views(old(self).failures@)),
                ..old(self)@
            }),
            final(self).failures == old(self).failures,
            final(self)@.wf(),
    {
        assert(self@.assets.len() == self.assets@.len());
        if j < self.assets.len() {
            self.phase = Phase::Renaming(j);
        } else if self.failures.len() == 0 {
            self.phase = Phase::Finished;
        } else {
            self.phase = Phase::Failed;
        }
    }

    /// Takes note of how the task went.
    pub fn advance(&mut self, reply: Reply)
        ensures
            final(self)@ == old(self)@.after(reply@),
            old(self)@.wf(),
            final(self)@.wf(),
    {
        proof {
            use_type_invariant(&*self);
            assert(self@.sources.len() == self.sources@.len());
            assert(self@.assets.len() == self.assets@.len());
        }
        match &self.phase {
            Phase::Reading(i) => {
                let i: usize = *i;
                match reply {
                    Reply::Read(data) => {
                        self.phase = Phase::Writing(
                            i,
                            FileData {
                                content: rewrite_content(data.content.as_str(), &self.assets),
                                permissions: data.permissions,
                            },
                        );
                    },
                    Reply::Failed(reason) => {
                        let error = Error::ReadFile(self.sources[i].clone(), reason);
                        self.fail(error);
                    },
                    Reply::Done => {},
                }
            },
            Phase::Writing(i, _) => {
                let i: usize = *i;
                let count = self.sources.len();
                match reply {
                    Reply::Done => {
                        if i + 1 < count {
                            self.phase = Phase::Reading(i + 1);
                        } else {
                            self.phase = Phase::Rebuilding;
                        }
                    },
                    Reply::Failed(reason) => {
                        let error = Error::WriteSourceFile(self.sources[i].clone(), reason);
                        self.fail(error);
                    },
                    Reply::Read(_) => {},
                }
            },
            Phase::Rebuilding => match reply {
                Reply::Done => {
                    assert(error_views(self.failures@) =~= Seq::<ErrorView>::empty());
                    self.rename_from(0);
                },
                Reply::Failed(reason) => {
                    self.fail(Error::Rebuild(reason));
                },
                Reply::Read(_) => {},
            },
            Phase::Renaming(j) => {
                let j: usize = *j;
                let count = self.assets.len();
                match reply {
                    Reply::Done => {
                        self.rename_from(j + 1);
                    },
                    Reply::Failed(reason) => {
                        let error = Error::RenameAssetFile(self.assets[j].path().clone(), reason);
                        let mut failures = clone_errors(&self.failures);
                        proof {
                            assert(error_views(failures@.push(error)) =~= error_views(
                                failures@,
                            ).push(error@));
                        }
                        failures.push(error);
                        self.failures = failures;
                        self.rename_from(j + 1);
                    },
                    Reply::Read(_) => {},
                }
            },
            Phase::Finished => {},
            Phase::Failed => {},
        }
    }
}

impl AssetHasher {
    /// Begins a pass over the project. `core_files` and `web_files` are
    /// the files found below the source directories of the compiled core
    /// and of the web front end. The pass rewrites those of the first with
    /// the extension `rs`, then those of the second with the extension
    /// `ts`, and renames `assets`.
    pub fn update_uris_in_files(
        &self,
        core_files: &Vec<String>,
        web_files: &Vec<String>,
        assets: Vec<HashedAsset>,
    ) -> (pass: HashPass)
        ensures
            pass@ == PassView::start(
                core_files@.map_values(|f: String| f@).filter(
                    |f: Seq<char>| paths::extension(f) == Some("rs"@),
                ) + web_files@.map_values(|f: String| f@).filter(
                    |f: Seq<char>| paths::extension(f) == Some("ts"@),
                ),
                asset_views(assets@),
            ),
            pass@.wf(),
    {
        let mut sources = self.collect_files_by_ext(core_files, "rs");
        let mut typescript_files = self.collect_files_by_ext(web_files, "ts");
        let ghost rust = sources@.map_values(|f: String| f@);
        let ghost typescript = typescript_files@.map_values(|f: String| f@);
        sources.append(&mut typescript_files);
        assert(sources@.map_values(|f: String| f@) =~= rust + typescript);
        HashPass::new(sources, assets)
    }
}

/// A pass that has failed stays as it is, whatever it is told: it asks for
/// nothing more.
pub proof fn lemma_failure_is_final(pass: PassView, replies: Seq<ReplyView>)
    requires
        pass.phase is Failed,
    ensures
        pass.after_all(replies) == pass,
        pass.after_all(replies).task() is Failed,
    decreases replies.len(),
{
    if replies.len() > 0 {
        lemma_failure_is_final(pass, replies.drop_last());
    }
}

/// A failure while the source files are rewritten ends the pass. The
/// error names the file that was being read or written. Whatever the pass
/// is told afterwards, it stays failed with that error: no file is touched
/// again, so the files rewritten before stay rewritten, the project is not
/// built again and no asset is renamed.
pub proof fn lemma_rewrite_failure_ends_pass(
    pass: PassView,
    reason: Seq<char>,
    replies: Seq<ReplyView>,
)
    requires
        pass.wf(),
        pass.rewriting(),
    ensures
        ({
            let failed = pass.after(ReplyView::Failed(reason));
            let file = pass.sources[pass.rewritten_count().unwrap()];
            &&& failed.phase == PhaseView::Failed(
                seq![
                    if pass.phase is Reading {
                        ErrorView::ReadFile(file, reason)
                    } else {
                        ErrorView::WriteSourceFile(file, reason)
                    },
                ],
            )
            &&& failed.after_all(replies) == failed
            &&& failed.after_all(replies).task() is Failed
        }),
{
    lemma_failure_is_final(pass.after(ReplyView::Failed(reason)), replies);
}

/// The errors of the renamings that failed, where `replies` answer the
/// renamings of the assets from number `from` on, one after the other.
pub open spec fn rename_failures(pass: PassView, from: int, replies: Seq<ReplyView>) -> Seq<
    ErrorView,
>
    decreases replies.len(),
{
    if replies.len() == 0 {
        Seq::empty()
    } else {
        let before = rename_failures(pass, from, replies.drop_last());
        match replies.last() {
            ReplyView::Failed(reason) => before.push(
                pass.rename_failure(from + replies.len() - 1, reason),
            ),
            _ => before,
        }
    }
}

/// A renaming that fails stops no other: while the assets are renamed,
/// every asset is asked for, whether the renamings before it failed or
/// not. After the renamings up to some asset were answered, the pass asks
/// for the next asset, and behind the last it is finished where none
/// failed, and has failed with the error of each that did, in their
/// order, otherwise.
pub proof fn lemma_every_asset_is_tried(
    pass: PassView,
    from: int,
    failures: Seq<ErrorView>,
    replies: Seq<ReplyView>,
)
    requires
        pass.wf(),
        pass.phase == PhaseView::Renaming(from, failures),
        from + replies.len() <= pass.assets.len(),
        forall|i: int| 0 <= i < replies.len() ==> !(#[trigger] replies[i] is Read),
    ensures
        pass.after_all(replies).phase == pass.renaming_from(
            from + replies.len(),
            failures + rename_failures(pass, from, replies),
        ),
        pass.after_all(replies).assets == pass.assets,
        pass.after_all(replies).sources == pass.sources,
    decreases replies.len(),
{
    if replies.len() == 0 {
        assert(failures + rename_failures(pass, from, replies) =~= failures);
    } else {
        let front = replies.drop_last();
        assert forall|i: int| 0 <= i < front.len() implies !(#[trigger] front[i] is Read) by {
            assert(front[i] == replies[i]);
        }
        lemma_every_asset_is_tried(pass, from, failures, front);
        let before = pass.after_all(front);
        let noted = failures + rename_failures(pass, from, front);
        assert(before.phase == PhaseView::Renaming(from + front.len(), noted));
        assert(!(replies[replies.len() - 1] is Read));
        match replies.last() {
            ReplyView::Failed(reason) => {
                assert(noted.push(pass.rename_failure(from + front.len(), reason)) =~= failures
                    + rename_failures(pass, from, replies));
            },
            _ => {},
        }
    }
}

/// The number of source files that were written with success while a pass
/// that began as `pass` was told `replies`.
pub open spec fn files_written(pass: PassView, replies: Seq<ReplyView>) -> int
    decreases replies.len(),
{
    if replies.len() == 0 {
        0
    } else {
        let before = pass.after_all(replies.drop_last());
        files_written(pass, replies.drop_last()) + if before.phase is Writing && replies.last()
            == ReplyView::Done {
            1int
        } else {
            0int
        }
    }
}

/// Whether the project was built again with success while a pass that
/// began as `pass` was told `replies`.
pub open spec fn was_rebuilt(pass: PassView, replies: Seq<ReplyView>) -> bool
    decreases replies.len(),
{
    if replies.len() == 0 {
        false
    } else {
        let before = pass.after_all(replies.drop_last());
        was_rebuilt(pass, replies.drop_last()) || (before.phase is Rebuilding && replies.last()
            == ReplyView::Done)
    }
}

/// The order of a pass: whatever a new pass is told, it stays well formed;
/// while it rewrites, the source files before the current one are written
/// and the project is not yet built again; it renames assets, or is
/// finished, only when every source file is written and the project was
/// built again after that; and where it has failed, it has an error.
pub proof fn lemma_pass_order(
    sources: Seq<Seq<char>>,
    assets: Seq<HashedAssetView>,
    replies: Seq<ReplyView>,
)
    ensures
        ({
            let start = PassView::start(sources, assets);
            let pass = start.after_all(replies);
            &&& pass.wf()
            &&& pass.sources == sources
            &&& pass.assets == assets
            &&& 0 <= files_written(start, replies) <= sources.len()
            &&& pass.rewritten_count() matches Some(count) ==> files_written(start, replies)
                == count
            &&& pass.rewriting() || pass.phase is Rebuilding ==> !was_rebuilt(start, replies)
            &&& pass.phase is Renaming || pass.phase is Finished ==> was_rebuilt(start, replies)
                && files_written(start, replies) == sources.len()
            &&& pass.phase matches PhaseView::Failed(errors) ==> errors.len() > 0
            &&& !(pass.phase is Failed) ==> renames_apart(assets)
        }),
    decreases replies.len(),
{
    lemma_no_collision_keeps_apart(assets);
    lemma_first_collision_from(assets, 0);
    if replies.len() > 0 {
        lemma_pass_order(sources, assets, replies.drop_last());
    }
}

/// After a pass that finished, every hashed URI resolves to a file that is
/// there. Let the assets be files below the output directory `dist`, each
/// with the URI that its path gives, and let the file of each be there
/// when the renaming begins. Where a pass over them has finished, there is
/// for every asset a file whose URI is the hashed URI of the asset, which
/// is what the rewritten sources speak of.
pub proof fn lemma_finished_pass_resolves(
    dist: Seq<char>,
    files: Set<Seq<char>>,
    sources: Seq<Seq<char>>,
    assets: Seq<HashedAssetView>,
    replies: Seq<ReplyView>,
)
    requires
        forall|i: int| 0 <= i < assets.len() ==> files.contains((#[trigger] assets[i]).path),
        forall|i: int|
            0 <= i < assets.len() ==> dist_uri(dist, (#[trigger] assets[i]).path) == Some(
                assets[i].uri,
            ),
        PassView::start(sources, assets).after_all(replies).phase is Finished,
    ensures
        forall|i: int|
            0 <= i < assets.len() ==> {
                let file = (#[trigger] assets[i]).path_with_hash();
                &&& renamed_all(
                    files,
                    assets.map_values(|a: HashedAssetView| rename_of(a)),
                ).contains(file)
                &&& dist_uri(dist, file) == Some(assets[i].uri_with_hash())
            },
{
    lemma_pass_order(sources, assets, replies);
    lemma_hashed_uris_resolve(dist, files, assets);
}

} // verus!
