//! The progress of a run: which recording is next, and where the copies of
//! the recordings before it went.
//!
//! The recordings are taken one after the other, in the order they were
//! selected in. A recording is done once the path of its copy is recorded.

use crate::naming::{output_path_for, planned_output};
use crate::selection::{cleanup_candidates, selected_files, selection_of};
use crate::text::{opt_text, texts};
use vstd::prelude::*;

verus! {

/// What a run is made of: the directory and the prefix that were asked for,
/// the recordings, and the paths of the copies made so far.
pub struct RunView {
    pub asked: Option<Seq<char>>,
    pub prefix: Option<Seq<char>>,
    pub files: Seq<Seq<char>>,
    pub outputs: Seq<Seq<char>>,
}

impl RunView {
    /// Whether the copy at `i` is the copy of the recording at `i`, made
    /// under some identifier.
    pub open spec fn is_copy(self, i: int) -> bool {
        exists|id: Seq<char>|
            Some(self.outputs[i]) == #[trigger] planned_output(
                self.asked,
                self.prefix,
                self.files[i],
                id,
            )
    }

    /// There are no more copies than recordings, and each copy belongs to
    /// the recording at its place.
    pub open spec fn wf(self) -> bool {
        &&& self.outputs.len() <= self.files.len()
        &&& forall|i: int| 0 <= i < self.outputs.len() ==> #[trigger] self.is_copy(i)
    }

    /// Whether every recording has its copy.
    pub open spec fn done(self) -> bool {
        self.outputs.len() == self.files.len()
    }

    /// The recording that is next, if one is left.
    pub open spec fn next_file(self) -> Option<Seq<char>> {
        if self.outputs.len() < self.files.len() {
            Some(self.files[self.outputs.len() as int])
        } else {
            None
        }
    }

    /// The path of the copy of the next recording under `id`; `None` where
    /// no recording is left or the next one does not end in a file name.
    pub open spec fn next_output(self, id: Seq<char>) -> Option<Seq<char>> {
        match self.next_file() {
            Some(file) => planned_output(self.asked, self.prefix, file, id),
            None => None,
        }
    }

    /// The run once the copy of the next recording under `id` is recorded;
    /// the run as it is where there is no such copy.
    pub open spec fn recorded(self, id: Seq<char>) -> RunView {
        match self.next_output(id) {
            Some(path) => RunView { outputs: self.outputs.push(path), ..self },
            None => self,
        }
    }
}

/// A run over the recordings that were selected.
pub struct Run {
    asked: Option<String>,
    prefix: Option<String>,
    files: Vec<String>,
    outputs: Vec<String>,
}

impl View for Run {
    type V = RunView;

    closed spec fn view(&self) -> RunView {
        RunView {
            asked: opt_text(self.asked),
            prefix: opt_text(self.prefix),
            files: texts(self.files@),
            outputs: texts(self.outputs@),
        }
    }
}

fn copy_of(text: &Option<String>) -> (copy: Option<String>)
    ensures
        opt_text(copy) == opt_text(*text),
{
    match text {
        Some(t) => Some(t.clone()),
        None => None,
    }
}

impl Run {
    #[verifier::type_invariant]
    spec fn inv(self) -> bool {
        self@.wf()
    }

    /// A run over `files` that has made no copy yet.
    pub fn start(asked: Option<String>, prefix: Option<String>, files: Vec<String>) -> (run: Run)
        ensures
            run@ == (RunView {
                asked: opt_text(asked),
                prefix: opt_text(prefix),
                files: texts(files@),
                outputs: Seq::empty(),
            }),
            run@.wf(),
    {
        let run = Run { asked, prefix, files, outputs: Vec::new() };
        assert(run@.outputs =~= Seq::<Seq<char>>::empty());
        run
    }

    /// The recording that is next, if one is left.
    pub fn current(&self) -> (file: Option<String>)
        ensures
            opt_text(file) == self@.next_file(),
            self@.wf(),
    {
        proof {
            use_type_invariant(self);
        }
        let at = self.outputs.len();
        if at < self.files.len() {
            Some(self.files[at].clone())
        } else {
            None
        }
    }

    /// Records the copy of the next recording, made under `id`, and gives
    /// the run after it and the path of the copy. Where no recording is
    /// left, or the next one does not end in a file name, the run is given
    /// back as it is, with `None`.
    pub fn record(self, id: &str) -> (r: (Run, Option<String>))
        ensures
            r.0@ == self@.recorded(id@),
            opt_text(r.1) == self@.next_output(id@),
            r.0@.wf(),
    {
        proof {
            use_type_invariant(&self);
        }
        let at = self.outputs.len();
        if at >= self.files.len() {
            return (self, None);
        }
        let planned = output_path_for(
            copy_of(&self.asked),
            copy_of(&self.prefix),
            self.files[at].as_str(),
            id,
        );
        match planned {
            Some(path) => {
                let ghost before = self@;
                let mut outputs = self.outputs;
                outputs.push(path.clone());
                proof {
                    assert(texts(outputs@) =~= before.outputs.push(path@));
                    lemma_recorded_keeps_wf(before, id@);
                }
                let run = Run { asked: self.asked, prefix: self.prefix, files: self.files, outputs };
                assert(run@ == before.recorded(id@));
                (run, Some(path))
            },
            None => (self, None),
        }
    }

    /// The paths of the copies made so far, in the order of their recordings.
    pub fn outputs(&self) -> (list: &Vec<String>)
        ensures
            texts(list@) == self@.outputs,
            self@.wf(),
    {
        proof {
            use_type_invariant(self);
        }
        &self.outputs
    }

    /// Ends the run and gives the files that it offers to remove: the copies
    /// and then the recordings, where removal was asked for and there was a
    /// recording at all.
    pub fn finish(self, cleanup: bool) -> (offered: Option<Vec<String>>)
        ensures
            offered is Some <==> cleanup && self@.files.len() > 0,
            offered matches Some(all) ==> texts(all@) == self@.outputs + self@.files,
    {
        let ghost outputs = self.outputs@;
        let ghost files = self.files@;
        let offered = cleanup_candidates(cleanup, self.outputs, self.files);
        assert(offered matches Some(all) ==> texts(all@) =~= texts(outputs) + texts(files));
        offered
    }
}

/// Recording a copy keeps a run in order: the recordings stay as they are,
/// the copies made before stay as they are, and at most one copy is added,
/// which belongs to the recording that was next.
pub proof fn lemma_recorded_keeps_wf(run: RunView, id: Seq<char>)
    requires
        run.wf(),
    ensures
        run.recorded(id).wf(),
        run.recorded(id).files == run.files,
        run.recorded(id).asked == run.asked,
        run.recorded(id).prefix == run.prefix,
        run.next_output(id) is None ==> run.recorded(id) == run,
        run.next_output(id) matches Some(path) ==> run.recorded(id).outputs == run.outputs.push(
            path,
        ),
{
    let after = run.recorded(id);
    if let Some(path) = run.next_output(id) {
        assert forall|i: int| 0 <= i < after.outputs.len() implies #[trigger] after.is_copy(i) by {
            if i < run.outputs.len() {
                assert(run.is_copy(i));
                let old_id = choose|old_id: Seq<char>|
                    Some(run.outputs[i]) == #[trigger] planned_output(
                        run.asked,
                        run.prefix,
                        run.files[i],
                        old_id,
                    );
                assert(Some(after.outputs[i]) == planned_output(
                    after.asked,
                    after.prefix,
                    after.files[i],
                    old_id,
                ));
            } else {
                assert(Some(after.outputs[i]) == planned_output(
                    after.asked,
                    after.prefix,
                    after.files[i],
                    id,
                ));
            }
        }
    }
}

/// A run without a recording derives nothing: it has no copy, no recording
/// is next, and recording under any identifier leaves it as it is.
pub proof fn lemma_run_without_files(run: RunView, id: Seq<char>)
    requires
        run.wf(),
        run.files.len() == 0,
    ensures
        run.outputs.len() == 0,
        run.done(),
        run.next_file() is None,
        run.next_output(id) is None,
        run.recorded(id) == run,
{
}

/// A run that is done has exactly one copy for each recording, at the place
/// of the recording, and takes no more.
pub proof fn lemma_done_run(run: RunView, id: Seq<char>)
    requires
        run.wf(),
        run.done(),
    ensures
        run.outputs.len() == run.files.len(),
        forall|i: int| 0 <= i < run.files.len() ==> #[trigger] run.is_copy(i),
        run.next_file() is None,
        run.recorded(id) == run,
{
}

/// With neither a directory nor a named file a run derives nothing: the
/// run over what was selected has no recording, so none is next, and
/// recording under any identifier adds no copy.
pub proof fn lemma_nothing_selected_derives_nothing(
    location: Option<String>,
    files: Vec<String>,
    found: Seq<String>,
    asked: Option<Seq<char>>,
    prefix: Option<Seq<char>>,
    id: Seq<char>,
)
    requires
        location is None,
        files@.len() == 0,
    ensures
        ({
            let run = RunView {
                asked,
                prefix,
                files: texts(selected_files(selection_of(location, files), found)),
                outputs: Seq::empty(),
            };
            &&& run.wf()
            &&& run.files.len() == 0
            &&& run.next_file() is None
            &&& run.recorded(id) == run
        }),
{
}

} // verus!
