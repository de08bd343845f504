//! The two-pass rename of a renumbering, step by step: every file first to
//! its temporary name, then each to its final name unless that name is
//! taken (then back to its own name); on a failed move every file placed at
//! its final name goes back to its temporary name, then every parked file
//! back to its own name, last first. No move is asked onto a name that
//! another file of the plan holds at that moment. The caller performs each
//! rename and reports how it went.

use vstd::prelude::*;
use crate::renumberer::RenumberStep;
use crate::text::same_text;

verus! {

/// Where a file of the plan is.
#[derive(Debug, Clone, Copy, PartialEq, Eq, Structural)]
pub enum FilePlace {
    Source,
    Temp,
    Target,
}

/// What the run waits for.
#[derive(Debug, Clone, Copy, PartialEq, Eq, Structural)]
pub enum RenumberPhase {
    /// First pass: the move of file `index` to its temporary name.
    Park,
    /// Second pass: whether the final name of file `index` is free.
    Check,
    /// Second pass: the move of file `index` to its final name.
    Place,
    /// Second pass: the move of file `index` back to its own name, its final
    /// name being taken.
    PutBack,
    /// Undoing: the move of placed file `index` back to its temporary name.
    Unplace,
    /// Undoing: the move of parked file `index` back to its own name.
    Unpark,
    Finished,
    Aborted,
}

/// How the last action went.
#[derive(Debug, Clone, Copy, PartialEq, Eq, Structural)]
pub enum RenameEvent {
    /// The move was made, or the checked name is free.
    Done,
    /// The move (or the check) failed.
    Failed,
    /// The checked name is taken.
    TargetExists,
}

/// What the caller does next.
#[derive(Debug)]
pub enum RenameAction {
    Move { from: String, to: String },
    CheckTarget { path: String },
    Finish { renamed: u32 },
    Abort,
}

/// A renumbering in progress.
pub struct RenumberRun {
    pub plan: Vec<RenumberStep>,
    pub phase: RenumberPhase,
    pub index: usize,
    pub places: Vec<FilePlace>,
    pub renamed: u32,
    /// Every file that was to go back (to its own or its temporary name) did.
    pub all_back: bool,
}

/// The state of a run, as values.
pub ghost struct RunView {
    pub plan: Seq<RenumberStep>,
    pub phase: RenumberPhase,
    pub index: int,
    pub places: Seq<FilePlace>,
    pub renamed: nat,
    pub all_back: bool,
}

impl View for RenumberRun {
    type V = RunView;

    open spec fn view(&self) -> RunView {
        RunView {
            plan: self.plan@,
            phase: self.phase,
            index: self.index as int,
            places: self.places@,
            renamed: self.renamed as nat,
            all_back: self.all_back,
        }
    }
}

/// How many files are at their final name.
pub open spec fn count_target(places: Seq<FilePlace>) -> nat
    decreases places.len(),
{
    if places.len() == 0 {
        0
    } else {
        count_target(places.drop_last()) + (if places.last() == FilePlace::Target { 1nat } else { 0nat })
    }
}

/// The path of step `st` for a place.
pub open spec fn path_at(st: RenumberStep, p: FilePlace) -> String {
    match p {
        FilePlace::Source => st.source,
        FilePlace::Temp => st.temp,
        FilePlace::Target => st.target,
    }
}

/// Some file of the plan other than file `i` is at path `d`.
pub open spec fn taken_by_other(v: RunView, d: Seq<char>, i: int) -> bool {
    exists|k: int| 0 <= k < v.plan.len() && k != i && (#[trigger] path_at(v.plan[k], v.places[k]))@ == d
}

/// Undo the second moves before file `j`: the last placed file goes back to
/// its temporary name first; when none is left, the parked files go back.
pub open spec fn enter_unplace(v: RunView, j: int) -> RunView
    decreases j,
{
    if j <= 0 {
        enter_unpark(v, v.plan.len() as int)
    } else if v.places[j - 1] != FilePlace::Target {
        enter_unplace(v, j - 1)
    } else if taken_by_other(v, v.plan[j - 1].temp@, j - 1) {
        enter_unplace(RunView { all_back: false, ..v }, j - 1)
    } else {
        RunView { phase: RenumberPhase::Unplace, index: j - 1, ..v }
    }
}

/// Undo the first moves before file `j`, the last parked file first; when
/// none is left, the run is aborted.
pub open spec fn enter_unpark(v: RunView, j: int) -> RunView
    decreases j,
{
    if j <= 0 {
        RunView { phase: RenumberPhase::Aborted, ..v }
    } else if v.places[j - 1] != FilePlace::Temp {
        enter_unpark(v, j - 1)
    } else if taken_by_other(v, v.plan[j - 1].source@, j - 1) {
        enter_unpark(RunView { all_back: false, ..v }, j - 1)
    } else {
        RunView { phase: RenumberPhase::Unpark, index: j - 1, ..v }
    }
}

/// Go on with the second pass at file `j`, or finish.
pub open spec fn enter_check(v: RunView, j: int) -> RunView {
    if j < v.plan.len() {
        RunView { phase: RenumberPhase::Check, index: j, ..v }
    } else {
        RunView { phase: RenumberPhase::Finished, ..v }
    }
}

/// Go on with the first pass at file `j`, or start the second; a temporary
/// name that another file holds stops the run.
pub open spec fn enter_park(v: RunView, j: int) -> RunView {
    if j >= v.plan.len() {
        enter_check(v, 0)
    } else if taken_by_other(v, v.plan[j].temp@, j) {
        enter_unplace(v, v.plan.len() as int)
    } else {
        RunView { phase: RenumberPhase::Park, index: j, ..v }
    }
}

/// Send file `i` back to its own name, unless another file holds it; then
/// it stays at its temporary name.
pub open spec fn enter_put_back(v: RunView, i: int) -> RunView {
    if taken_by_other(v, v.plan[i].source@, i) {
        enter_check(RunView { all_back: false, ..v }, i + 1)
    } else {
        RunView { phase: RenumberPhase::PutBack, ..v }
    }
}

/// The state after event `e`.
pub open spec fn next_view(v: RunView, e: RenameEvent) -> RunView {
    let i = v.index;
    let n = v.plan.len() as int;
    match v.phase {
        RenumberPhase::Park => if e == RenameEvent::Done {
            enter_park(RunView { places: v.places.update(i, FilePlace::Temp), ..v }, i + 1)
        } else {
            enter_unplace(v, n)
        },
        RenumberPhase::Check => if e == RenameEvent::Done && !taken_by_other(v, v.plan[i].target@, i) {
            RunView { phase: RenumberPhase::Place, ..v }
        } else {
            enter_put_back(v, i)
        },
        RenumberPhase::Place => if e == RenameEvent::Done {
            enter_check(
                RunView { places: v.places.update(i, FilePlace::Target), renamed: v.renamed + 1, ..v },
                i + 1,
            )
        } else {
            enter_unplace(v, n)
        },
        RenumberPhase::PutBack => if e == RenameEvent::Done {
            enter_check(RunView { places: v.places.update(i, FilePlace::Source), ..v }, i + 1)
        } else {
            enter_check(RunView { all_back: false, ..v }, i + 1)
        },
        RenumberPhase::Unplace => if e == RenameEvent::Done {
            enter_unplace(RunView { places: v.places.update(i, FilePlace::Temp), ..v }, i)
        } else {
            enter_unplace(RunView { all_back: false, ..v }, i)
        },
        RenumberPhase::Unpark => if e == RenameEvent::Done {
            enter_unpark(RunView { places: v.places.update(i, FilePlace::Source), ..v }, i)
        } else {
            enter_unpark(RunView { all_back: false, ..v }, i)
        },
        RenumberPhase::Finished => v,
        RenumberPhase::Aborted => v,
    }
}

/// What the caller is asked to do in state `v`.
pub open spec fn pending_action(v: RunView) -> RenameAction {
    let st = v.plan[v.index];
    match v.phase {
        RenumberPhase::Park => RenameAction::Move { from: st.source, to: st.temp },
        RenumberPhase::Check => RenameAction::CheckTarget { path: st.target },
        RenumberPhase::Place => RenameAction::Move { from: st.temp, to: st.target },
        RenumberPhase::PutBack => RenameAction::Move { from: st.temp, to: st.source },
        RenumberPhase::Unplace => RenameAction::Move { from: st.target, to: st.temp },
        RenumberPhase::Unpark => RenameAction::Move { from: st.temp, to: st.source },
        RenumberPhase::Finished => RenameAction::Finish { renamed: v.renamed as u32 },
        RenumberPhase::Aborted => RenameAction::Abort,
    }
}

/// A place that a file may have once the second pass went past it.
pub open spec fn settled(v: RunView, p: FilePlace) -> bool {
    p == FilePlace::Source || p == FilePlace::Target || (!v.all_back && p == FilePlace::Temp)
}

/// The shape of the second pass at file `i`.
pub open spec fn second_pass_at(v: RunView, i: int) -> bool {
    &&& forall|k: int| 0 <= k < i ==> settled(v, #[trigger] v.places[k])
    &&& forall|k: int| i <= k < v.plan.len() ==> #[trigger] v.places[k] == FilePlace::Temp
    &&& v.renamed == count_target(v.places)
}

/// The invariant of a run.
pub open spec fn run_wf(v: RunView) -> bool {
    let n = v.plan.len() as int;
    let i = v.index;
    &&& v.places.len() == n
    &&& n <= u32::MAX
    &&& v.renamed <= n
    &&& match v.phase {
        RenumberPhase::Park => {
            &&& 0 <= i < n
            &&& forall|k: int| 0 <= k < i ==> #[trigger] v.places[k] == FilePlace::Temp
            &&& forall|k: int| i <= k < n ==> #[trigger] v.places[k] == FilePlace::Source
            &&& v.renamed == 0
            &&& !taken_by_other(v, v.plan[i].temp@, i)
        },
        RenumberPhase::Check => 0 <= i < n && second_pass_at(v, i),
        RenumberPhase::Place => 0 <= i < n && second_pass_at(v, i) && !taken_by_other(v, v.plan[i].target@, i),
        RenumberPhase::PutBack => 0 <= i < n && second_pass_at(v, i) && !taken_by_other(v, v.plan[i].source@, i),
        RenumberPhase::Unplace => {
            &&& 0 <= i < n
            &&& v.places[i] == FilePlace::Target
            &&& forall|k: int| i < k < n ==> #[trigger] v.places[k] != FilePlace::Target || !v.all_back
            &&& !taken_by_other(v, v.plan[i].temp@, i)
        },
        RenumberPhase::Unpark => {
            &&& 0 <= i < n
            &&& v.places[i] == FilePlace::Temp
            &&& forall|k: int| 0 <= k < n ==> #[trigger] v.places[k] != FilePlace::Target || !v.all_back
            &&& forall|k: int| i < k < n ==> #[trigger] v.places[k] == FilePlace::Source || !v.all_back
            &&& !taken_by_other(v, v.plan[i].source@, i)
        },
        RenumberPhase::Finished => {
            &&& forall|k: int| 0 <= k < n ==> settled(v, #[trigger] v.places[k])
            &&& v.renamed == count_target(v.places)
        },
        RenumberPhase::Aborted => forall|k: int| 0 <= k < n ==> #[trigger] v.places[k] == FilePlace::Source
            || !v.all_back,
    }
}

/// What every state has whatever its phase.
pub open spec fn run_base(v: RunView) -> bool {
    &&& v.places.len() == v.plan.len()
    &&& v.plan.len() <= u32::MAX
    &&& v.renamed <= v.plan.len()
}

proof fn lemma_count_update(s: Seq<FilePlace>, i: int, x: FilePlace)
    requires
        0 <= i < s.len(),
    ensures
        count_target(s.update(i, x)) + (if s[i] == FilePlace::Target { 1int } else { 0int })
            == count_target(s) + (if x == FilePlace::Target { 1int } else { 0int }),
    decreases s.len(),
{
    if i < s.len() - 1 {
        assert(s.update(i, x).drop_last() =~= s.drop_last().update(i, x));
        lemma_count_update(s.drop_last(), i, x);
    } else {
        assert(s.update(i, x).drop_last() =~= s.drop_last());
    }
}

proof fn lemma_count_bound(s: Seq<FilePlace>, i: int)
    requires
        0 <= i <= s.len(),
        forall|k: int| i <= k < s.len() ==> #[trigger] s[k] != FilePlace::Target,
    ensures
        count_target(s) <= i,
    decreases s.len(),
{
    if s.len() > 0 {
        if i == s.len() {
            lemma_count_bound(s.drop_last(), i - 1);
        } else {
            lemma_count_bound(s.drop_last(), i);
        }
    }
}

proof fn lemma_count_all_temp(s: Seq<FilePlace>)
    requires
        forall|k: int| 0 <= k < s.len() ==> #[trigger] s[k] == FilePlace::Temp,
    ensures
        count_target(s) == 0,
    decreases s.len(),
{
    if s.len() > 0 {
        lemma_count_all_temp(s.drop_last());
    }
}

proof fn lemma_enter_unpark_wf(v: RunView, j: int)
    requires
        run_base(v),
        0 <= j <= v.plan.len(),
        forall|k: int| 0 <= k < v.plan.len() ==> #[trigger] v.places[k] != FilePlace::Target || !v.all_back,
        forall|k: int| j <= k < v.plan.len() ==> #[trigger] v.places[k] == FilePlace::Source || !v.all_back,
    ensures
        run_wf(enter_unpark(v, j)),
    decreases j,
{
    if j > 0 {
        if v.places[j - 1] != FilePlace::Temp {
            lemma_enter_unpark_wf(v, j - 1);
        } else if taken_by_other(v, v.plan[j - 1].source@, j - 1) {
            lemma_enter_unpark_wf(RunView { all_back: false, ..v }, j - 1);
        }
    }
}

proof fn lemma_enter_unplace_wf(v: RunView, j: int)
    requires
        run_base(v),
        0 <= j <= v.plan.len(),
        forall|k: int| j <= k < v.plan.len() ==> #[trigger] v.places[k] != FilePlace::Target || !v.all_back,
    ensures
        run_wf(enter_unplace(v, j)),
    decreases j,
{
    if j <= 0 {
        lemma_enter_unpark_wf(v, v.plan.len() as int);
    } else if v.places[j - 1] != FilePlace::Target {
        lemma_enter_unplace_wf(v, j - 1);
    } else if taken_by_other(v, v.plan[j - 1].temp@, j - 1) {
        lemma_enter_unplace_wf(RunView { all_back: false, ..v }, j - 1);
    }
}

proof fn lemma_enter_check_wf(v: RunView, j: int)
    requires
        run_base(v),
        0 <= j <= v.plan.len(),
        second_pass_at(v, j),
    ensures
        run_wf(enter_check(v, j)),
{
}

fn path_of(st: &RenumberStep, p: FilePlace) -> (r: String)
    ensures
        r == path_at(*st, p),
{
    match p {
        FilePlace::Source => st.source.clone(),
        FilePlace::Temp => st.temp.clone(),
        FilePlace::Target => st.target.clone(),
    }
}

impl RenumberRun {
    pub open spec fn wf(&self) -> bool {
        run_wf(self@)
    }

    /// Whether a file of the plan other than file `i` is at path `d`.
    fn taken_by_other_exec(&self, d: &str, i: usize) -> (r: bool)
        requires
            self.places@.len() == self.plan@.len(),
        ensures
            r == taken_by_other(self@, d@, i as int),
    {
        let n = self.plan.len();
        let mut k: usize = 0;
        while k < n
            invariant
                k <= n == self.plan@.len() == self.places@.len(),
                forall|m: int| 0 <= m < k && m != i ==> (#[trigger] path_at(self@.plan[m], self@.places[m]))@ != d@,
            decreases n - k,
        {
            if k != i {
                let p = path_of(&self.plan[k], self.places[k]);
                if same_text(p.as_str(), d) {
                    assert(path_at(self@.plan[k as int], self@.places[k as int])@ == d@);
                    return true;
                }
            }
            k = k + 1;
        }
        false
    }

    /// The action the run waits on.
    fn action(&self) -> (a: RenameAction)
        requires
            self.wf(),
        ensures
            a == pending_action(self@),
    {
        let i = self.index;
        match self.phase {
            RenumberPhase::Park => RenameAction::Move {
                from: self.plan[i].source.clone(),
                to: self.plan[i].temp.clone(),
            },
            RenumberPhase::Check => RenameAction::CheckTarget { path: self.plan[i].target.clone() },
            RenumberPhase::Place => RenameAction::Move {
                from: self.plan[i].temp.clone(),
                to: self.plan[i].target.clone(),
            },
            RenumberPhase::PutBack => RenameAction::Move {
                from: self.plan[i].temp.clone(),
                to: self.plan[i].source.clone(),
            },
            RenumberPhase::Unplace => RenameAction::Move {
                from: self.plan[i].target.clone(),
                to: self.plan[i].temp.clone(),
            },
            RenumberPhase::Unpark => RenameAction::Move {
                from: self.plan[i].temp.clone(),
                to: self.plan[i].source.clone(),
            },
            RenumberPhase::Finished => RenameAction::Finish { renamed: self.renamed },
            RenumberPhase::Aborted => RenameAction::Abort,
        }
    }

    fn enter_unpark_exec(&mut self, j: usize)
        requires
            j <= old(self).plan@.len(),
            old(self).places@.len() == old(self).plan@.len(),
        ensures
            final(self)@ == enter_unpark(old(self)@, j as int),
    {
        let ghost goal = enter_unpark(self@, j as int);
        let mut m = j;
        loop
            invariant
                m <= self.plan@.len(),
                self.places@.len() == self.plan@.len(),
                enter_unpark(self@, m as int) == goal,
                goal == enter_unpark(old(self)@, j as int),
            decreases m,
        {
            if m == 0 {
                self.phase = RenumberPhase::Aborted;
                return;
            }
            if self.places[m - 1] == FilePlace::Temp {
                let taken = self.taken_by_other_exec(self.plan[m - 1].source.as_str(), m - 1);
                if !taken {
                    self.phase = RenumberPhase::Unpark;
                    self.index = m - 1;
                    return;
                }
                self.all_back = false;
            }
            m = m - 1;
        }
    }

    fn enter_unplace_exec(&mut self, j: usize)
        requires
            j <= old(self).plan@.len(),
            old(self).places@.len() == old(self).plan@.len(),
        ensures
            final(self)@ == enter_unplace(old(self)@, j as int),
    {
        let ghost goal = enter_unplace(self@, j as int);
        let mut m = j;
        loop
            invariant
                m <= self.plan@.len(),
                self.places@.len() == self.plan@.len(),
                enter_unplace(self@, m as int) == goal,
                goal == enter_unplace(old(self)@, j as int),
            decreases m,
        {
            if m == 0 {
                let n = self.plan.len();
                self.enter_unpark_exec(n);
                return;
            }
            if self.places[m - 1] == FilePlace::Target {
                let taken = self.taken_by_other_exec(self.plan[m - 1].temp.as_str(), m - 1);
                if !taken {
                    self.phase = RenumberPhase::Unplace;
                    self.index = m - 1;
                    return;
                }
                self.all_back = false;
            }
            m = m - 1;
        }
    }

    fn enter_check_exec(&mut self, j: usize)
        ensures
            final(self)@ == enter_check(old(self)@, j as int),
    {
        if j < self.plan.len() {
            self.phase = RenumberPhase::Check;
            self.index = j;
        } else {
            self.phase = RenumberPhase::Finished;
        }
    }

    fn enter_park_exec(&mut self, j: usize)
        requires
            old(self).places@.len() == old(self).plan@.len(),
        ensures
            final(self)@ == enter_park(old(self)@, j as int),
    {
        let n = self.plan.len();
        if j >= n {
            self.enter_check_exec(0);
        } else if self.taken_by_other_exec(self.plan[j].temp.as_str(), j) {
            self.enter_unplace_exec(n);
        } else {
            self.phase = RenumberPhase::Park;
            self.index = j;
        }
    }

    fn enter_put_back_exec(&mut self, i: usize)
        requires
            i < old(self).plan@.len(),
            old(self).places@.len() == old(self).plan@.len(),
        ensures
            final(self)@ == enter_put_back(old(self)@, i as int),
    {
        let n = self.plan.len();
        if self.taken_by_other_exec(self.plan[i].source.as_str(), i) {
            self.all_back = false;
            assert(i < n);
            self.enter_check_exec(i + 1);
        } else {
            self.phase = RenumberPhase::PutBack;
        }
    }
}

/// Starts renumbering by `plan`: the first file goes to its temporary name;
/// an empty plan is finished at once.
pub fn renumber_start(plan: Vec<RenumberStep>) -> (r: (RenumberRun, RenameAction))
    requires
        plan@.len() <= u32::MAX,
    ensures
        r.0.wf(),
        r.0@ == enter_park(
            RunView {
                plan: plan@,
                phase: RenumberPhase::Park,
                index: 0,
                places: Seq::new(plan@.len(), |k: int| FilePlace::Source),
                renamed: 0,
                all_back: true,
            },
            0,
        ),
        r.1 == pending_action(r.0@),
{
    let n = plan.len();
    let mut places: Vec<FilePlace> = Vec::new();
    let mut k: usize = 0;
    while k < n
        invariant
            k <= n,
            places@ == Seq::new(k as nat, |m: int| FilePlace::Source),
        decreases n - k,
    {
        places.push(FilePlace::Source);
        k = k + 1;
        assert(places@ =~= Seq::new(k as nat, |m: int| FilePlace::Source));
    }
    let mut run = RenumberRun { plan, phase: RenumberPhase::Park, index: 0, places, renamed: 0, all_back: true };
    let ghost v0 = run@;
    proof {
        if n == 0 {
            assert(count_target(run.places@) == 0);
        }
        if n > 0 && taken_by_other(v0, v0.plan[0].temp@, 0) {
            lemma_enter_unplace_wf(v0, n as int);
        }
    }
    run.enter_park_exec(0);
    let a = run.action();
    (run, a)
}

/// Takes the outcome of the last action and gives the next one (see
/// `next_view`).
pub fn renumber_next(run: &mut RenumberRun, event: RenameEvent) -> (action: RenameAction)
    requires
        old(run).wf(),
    ensures
        final(run).wf(),
        final(run)@ == next_view(old(run)@, event),
        action == pending_action(final(run)@),
{
    let ghost v = run@;
    let i = run.index;
    let n = run.plan.len();
    match run.phase {
        RenumberPhase::Park => {
            if event == RenameEvent::Done {
                run.places.set(i, FilePlace::Temp);
                proof {
                    let w = run@;
                    if i + 1 >= n {
                        lemma_count_all_temp(w.places);
                        lemma_enter_check_wf(w, 0);
                    } else if taken_by_other(w, w.plan[i + 1].temp@, i + 1) {
                        lemma_enter_unplace_wf(w, n as int);
                    }
                }
                run.enter_park_exec(i + 1);
            } else {
                proof {
                    lemma_enter_unplace_wf(v, n as int);
                }
                run.enter_unplace_exec(n);
            }
        },
        RenumberPhase::Check => {
            let taken = run.taken_by_other_exec(run.plan[i].target.as_str(), i);
            if event == RenameEvent::Done && !taken {
                run.phase = RenumberPhase::Place;
            } else {
                proof {
                    if taken_by_other(v, v.plan[i as int].source@, i as int) {
                        let w = RunView { all_back: false, ..v };
                        assert(forall|k: int| #![auto] 0 <= k < n ==> path_at(w.plan[k], w.places[k]) == path_at(v.plan[k], v.places[k]));
                        lemma_enter_check_wf(w, i + 1);
                    }
                }
                run.enter_put_back_exec(i);
            }
        },
        RenumberPhase::Place => {
            if event == RenameEvent::Done {
                proof {
                    lemma_count_bound(v.places, i as int);
                    lemma_count_update(v.places, i as int, FilePlace::Target);
                }
                run.places.set(i, FilePlace::Target);
                run.renamed = run.renamed + 1;
                proof {
                    lemma_enter_check_wf(run@, i + 1);
                }
                run.enter_check_exec(i + 1);
            } else {
                proof {
                    lemma_enter_unplace_wf(v, n as int);
                }
                run.enter_unplace_exec(n);
            }
        },
        RenumberPhase::PutBack => {
            if event == RenameEvent::Done {
                proof {
                    lemma_count_update(v.places, i as int, FilePlace::Source);
                }
                run.places.set(i, FilePlace::Source);
            } else {
                run.all_back = false;
            }
            proof {
                lemma_enter_check_wf(run@, i + 1);
            }
            run.enter_check_exec(i + 1);
        },
        RenumberPhase::Unplace => {
            if event == RenameEvent::Done {
                run.places.set(i, FilePlace::Temp);
            } else {
                run.all_back = false;
            }
            proof {
                lemma_enter_unplace_wf(run@, i as int);
            }
            run.enter_unplace_exec(i);
        },
        RenumberPhase::Unpark => {
            if event == RenameEvent::Done {
                run.places.set(i, FilePlace::Source);
            } else {
                run.all_back = false;
            }
            proof {
                lemma_enter_unpark_wf(run@, i as int);
            }
            run.enter_unpark_exec(i);
        },
        RenumberPhase::Finished => {},
        RenumberPhase::Aborted => {},
    }
    run.action()
}

/// No move is ever asked onto a path that another file of the plan holds at
/// that moment, and each move starts where its file is.
pub proof fn lemma_moves_never_clobber(run: RenumberRun)
    requires
        run.wf(),
    ensures
        match pending_action(run@) {
            RenameAction::Move { from, to } => {
                &&& from == path_at(run@.plan[run@.index], run@.places[run@.index])
                &&& forall|k: int|
                    0 <= k < run@.plan.len() && k != run@.index ==> (#[trigger] path_at(run@.plan[k], run@.places[k]))@
                        != to@
            },
            _ => true,
        },
{
}

/// The plan's names keep apart: no two files share a source or a temporary
/// name, and no temporary name is a source or a final name.
pub open spec fn names_apart(plan: Seq<RenumberStep>) -> bool {
    &&& forall|i: int, j: int|
        #![trigger plan[i], plan[j]]
        0 <= i < j < plan.len() ==> plan[i].source@ != plan[j].source@ && plan[i].temp@ != plan[j].temp@
    &&& forall|i: int, j: int|
        #![trigger plan[i], plan[j]]
        0 <= i < plan.len() && 0 <= j < plan.len() ==> plan[i].source@ != plan[j].temp@ && plan[i].target@
            != plan[j].temp@
}

/// How far a rollback is from its end: each undo step lowers it.
pub open spec fn rollback_left(v: RunView) -> nat {
    match v.phase {
        RenumberPhase::Unplace => (v.plan.len() + v.index + 1) as nat,
        RenumberPhase::Unpark => (v.index + 1) as nat,
        _ => 0,
    }
}

proof fn lemma_no_other_at_temp(v: RunView, i: int)
    requires
        run_base(v),
        names_apart(v.plan),
        0 <= i < v.plan.len(),
    ensures
        !taken_by_other(v, v.plan[i].temp@, i),
{
    if taken_by_other(v, v.plan[i].temp@, i) {
        let k = choose|k: int| 0 <= k < v.plan.len() && k != i && (#[trigger] path_at(v.plan[k], v.places[k]))@
            == v.plan[i].temp@;
        if k < i {
            assert(v.plan[k].temp@ != v.plan[i].temp@);
        } else {
            assert(v.plan[i].temp@ != v.plan[k].temp@);
        }
        assert(v.plan[k].source@ != v.plan[i].temp@);
        assert(v.plan[k].target@ != v.plan[i].temp@);
    }
}

proof fn lemma_no_other_at_source(v: RunView, i: int)
    requires
        run_base(v),
        names_apart(v.plan),
        0 <= i < v.plan.len(),
        forall|k: int| 0 <= k < v.plan.len() ==> #[trigger] v.places[k] != FilePlace::Target,
    ensures
        !taken_by_other(v, v.plan[i].source@, i),
{
    if taken_by_other(v, v.plan[i].source@, i) {
        let k = choose|k: int| 0 <= k < v.plan.len() && k != i && (#[trigger] path_at(v.plan[k], v.places[k]))@
            == v.plan[i].source@;
        assert(v.places[k] != FilePlace::Target);
        if k < i {
            assert(v.plan[k].source@ != v.plan[i].source@);
        } else {
            assert(v.plan[i].source@ != v.plan[k].source@);
        }
        assert(v.plan[i].source@ != v.plan[k].temp@);
    }
}

proof fn lemma_enter_unpark_keeps(v: RunView, j: int)
    requires
        run_base(v),
        names_apart(v.plan),
        v.all_back,
        0 <= j <= v.plan.len(),
        forall|k: int| 0 <= k < v.plan.len() ==> #[trigger] v.places[k] != FilePlace::Target,
    ensures
        enter_unpark(v, j).all_back,
        enter_unpark(v, j).plan == v.plan,
        enter_unpark(v, j).phase == RenumberPhase::Aborted || (enter_unpark(v, j).phase == RenumberPhase::Unpark
            && 0 <= enter_unpark(v, j).index < j),
    decreases j,
{
    if j > 0 {
        if v.places[j - 1] != FilePlace::Temp {
            lemma_enter_unpark_keeps(v, j - 1);
        } else {
            lemma_no_other_at_source(v, j - 1);
        }
    }
}

proof fn lemma_enter_unplace_keeps(v: RunView, j: int)
    requires
        run_base(v),
        names_apart(v.plan),
        v.all_back,
        0 <= j <= v.plan.len(),
        forall|k: int| j <= k < v.plan.len() ==> #[trigger] v.places[k] != FilePlace::Target,
    ensures
        enter_unplace(v, j).all_back,
        enter_unplace(v, j).plan == v.plan,
        enter_unplace(v, j).phase == RenumberPhase::Aborted || (enter_unplace(v, j).phase == RenumberPhase::Unpark
            && 0 <= enter_unplace(v, j).index < v.plan.len()) || (enter_unplace(v, j).phase == RenumberPhase::Unplace
            && 0 <= enter_unplace(v, j).index < j),
    decreases j,
{
    if j <= 0 {
        lemma_enter_unpark_keeps(v, v.plan.len() as int);
    } else if v.places[j - 1] != FilePlace::Target {
        lemma_enter_unplace_keeps(v, j - 1);
    } else {
        lemma_no_other_at_temp(v, j - 1);
    }
}

/// When the plan's names keep apart, a rollback leaves no file behind for
/// want of a free name: a failed move of either pass starts the rollback,
/// and every undo move that succeeds leads on, without skipping any file,
/// to the next undo move or to the end of the run; each step brings the
/// rollback nearer its end. So, every undo move succeeding, the run ends
/// aborted with every file back at its own name (`lemma_aborted_run_places`).
pub proof fn lemma_rollback_leaves_no_file_behind(run: RenumberRun, e: RenameEvent)
    requires
        run.wf(),
        names_apart(run@.plan),
        run@.all_back,
        ((run@.phase == RenumberPhase::Park || run@.phase == RenumberPhase::Place) && e == RenameEvent::Failed)
            || ((run@.phase == RenumberPhase::Unplace || run@.phase == RenumberPhase::Unpark) && e
            == RenameEvent::Done),
    ensures
        next_view(run@, e).all_back,
        next_view(run@, e).phase == RenumberPhase::Unplace || next_view(run@, e).phase == RenumberPhase::Unpark
            || next_view(run@, e).phase == RenumberPhase::Aborted,
        (run@.phase == RenumberPhase::Unplace || run@.phase == RenumberPhase::Unpark) ==> rollback_left(
            next_view(run@, e),
        ) < rollback_left(run@),
{
    let v = run@;
    let n = v.plan.len() as int;
    let i = v.index;
    match v.phase {
        RenumberPhase::Park => {
            lemma_enter_unplace_keeps(v, n);
        },
        RenumberPhase::Place => {
            lemma_enter_unplace_keeps(v, n);
        },
        RenumberPhase::Unplace => {
            let w = RunView { places: v.places.update(i, FilePlace::Temp), ..v };
            lemma_enter_unplace_keeps(w, i);
        },
        RenumberPhase::Unpark => {
            let w = RunView { places: v.places.update(i, FilePlace::Source), ..v };
            assert forall|k: int| 0 <= k < n implies #[trigger] w.places[k] != FilePlace::Target by {
                assert(v.places[k] != FilePlace::Target || !v.all_back);
            }
            lemma_enter_unpark_keeps(w, i);
        },
        _ => {},
    }
}

/// A finished run in which every file that was to go back did leaves every
/// file at its final name or at its own name, and reports how many reached
/// their final name.
pub proof fn lemma_finished_run_places(run: RenumberRun)
    requires
        run.wf(),
        run.phase == RenumberPhase::Finished,
        run.all_back,
    ensures
        forall|k: int| 0 <= k < run.plan@.len() ==> #[trigger] run.places@[k] == FilePlace::Source
            || run.places@[k] == FilePlace::Target,
        pending_action(run@) == (RenameAction::Finish { renamed: count_target(run.places@) as u32 }),
{
    assert forall|k: int| 0 <= k < run.plan@.len() implies #[trigger] run.places@[k] == FilePlace::Source
        || run.places@[k] == FilePlace::Target by {
        assert(settled(run@, run@.places[k]));
    }
}

/// An aborted run in which every file that was to go back did has sent
/// every file back to its own name.
pub proof fn lemma_aborted_run_places(run: RenumberRun)
    requires
        run.wf(),
        run.phase == RenumberPhase::Aborted,
        run.all_back,
    ensures
        forall|k: int| 0 <= k < run.plan@.len() ==> #[trigger] run.places@[k] == FilePlace::Source,
{
}

} // verus!
