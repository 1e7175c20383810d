//! The snapshot-confirmation state machine: navigating test cases and
//! their numbered snapshots, deciding which display modes are available,
//! and tracking what is still unconfirmed. Discovering snapshot files and
//! loading pixel data are the application's job; this module works on the
//! discovered names alone.

use vstd::prelude::*;

verus! {

broadcast use vstd::std_specs::hash::group_hash_axioms;

/// How the current snapshot is displayed.
#[derive(Debug, Clone, Copy, PartialEq, Eq, Hash, Structural)]
pub enum Mode {
    New,
    Confirmed,
    DiffWithConfirmed,
    DiffWithPreviousConfirmed,
}

impl Mode {
    /// The label shown on the mode's button.
    pub fn ui_name(self) -> (r: &'static str)
        ensures
            self == Mode::New ==> r@ =~= "New"@,
            self == Mode::Confirmed ==> r@ =~= "Confirmed"@,
            self == Mode::DiffWithConfirmed ==> r@ =~= "Diff with confirmed"@,
            self == Mode::DiffWithPreviousConfirmed ==> r@ =~= "Diff with previous confirmed"@,
    {
        match self {
            Mode::New => "New",
            Mode::Confirmed => "Confirmed",
            Mode::DiffWithConfirmed => "Diff with confirmed",
            Mode::DiffWithPreviousConfirmed => "Diff with previous confirmed",
        }
    }
}

/// One discovered snapshot file.
#[derive(Debug)]
pub struct SingleSnapshotFile {
    pub full_name: String,
    pub description: String,
}

/// The confirmed and the not-yet-confirmed file of one snapshot number.
#[derive(Debug)]
pub struct SingleSnapshotFiles {
    pub confirmed: Option<SingleSnapshotFile>,
    pub unconfirmed: Option<SingleSnapshotFile>,
}

/// What the review UI needs to render the current position.
#[derive(Debug)]
pub struct ReviewerState {
    pub test_case_index: Option<usize>,
    pub test_case_count: usize,
    pub snapshot_index: Option<u64>,
    pub mode: Mode,
    pub has_unconfirmed: bool,
}

/// Walks the discovered snapshots test case by test case.
pub struct Reviewer {
    pub mode: Mode,
    pub test_cases: Vec<String>,
    pub current_test_case_index: Option<usize>,
    /// Per test case, the discovered snapshots keyed by their number.
    pub all_snapshots: Vec<std::collections::HashMap<u64, SingleSnapshotFiles>>,
    pub current_snapshot_index: Option<u64>,
}

impl Reviewer {
    pub open spec fn wf(self) -> bool {
        &&& self.all_snapshots@.len() == self.test_cases@.len()
        &&& (match self.current_test_case_index {
            Some(i) => i < self.test_cases@.len(),
            None => true,
        })
    }

    /// The snapshot files currently selected, when the position is valid.
    pub open spec fn spec_current_snapshot(self) -> Option<SingleSnapshotFiles> {
        match (self.current_test_case_index, self.current_snapshot_index) {
            (Some(t), Some(s)) => if t < self.all_snapshots@.len()
                && self.all_snapshots@[t as int]@.contains_key(s) {
                Some(self.all_snapshots@[t as int]@[s])
            } else {
                None
            },
            _ => None,
        }
    }

    /// Start reviewing the given test cases and their discovered
    /// snapshots, positioned at the first test case's first snapshot.
    pub fn new(
        test_cases: Vec<String>,
        all_snapshots: Vec<std::collections::HashMap<u64, SingleSnapshotFiles>>,
    ) -> (r: Reviewer)
        requires
            all_snapshots@.len() == test_cases@.len(),
        ensures
            r.wf(),
            r.test_cases == test_cases,
            r.all_snapshots == all_snapshots,
    {
        let mut this = Reviewer {
            mode: Mode::New,
            test_cases,
            current_test_case_index: None,
            all_snapshots,
            current_snapshot_index: None,
        };
        let _ = this.go_to_next_test_case();
        this
    }

    pub fn test_cases(&self) -> (r: &Vec<String>)
        ensures
            r == &self.test_cases,
    {
        &self.test_cases
    }

    /// Move to the test case after the current one; false when already
    /// past the last.
    pub fn go_to_next_test_case(&mut self) -> (r: bool)
        requires
            old(self).wf(),
        ensures
            final(self).wf(),
            final(self).test_cases == old(self).test_cases,
            final(self).all_snapshots == old(self).all_snapshots,
            r == (match old(self).current_test_case_index {
                Some(i) => i + 1 < old(self).test_cases@.len(),
                None => old(self).test_cases@.len() > 0,
            }),
            r ==> final(self).current_test_case_index == Some(
                (match old(self).current_test_case_index {
                    Some(i) => (i + 1) as usize,
                    None => 0usize,
                }),
            ),
    {
        let n = self.test_cases.len();
        let index: usize = match self.current_test_case_index {
            Some(i) => {
                if i == usize::MAX {
                    proof {
                        assert(self.test_cases@.len() <= usize::MAX);
                    }
                    return false;
                }
                i + 1
            },
            None => 0,
        };
        self.go_to_test_case(index)
    }

    /// Move to the test case before the current one; false at the first.
    pub fn go_to_previous_test_case(&mut self) -> (r: bool)
        requires
            old(self).wf(),
        ensures
            final(self).wf(),
            final(self).test_cases == old(self).test_cases,
            final(self).all_snapshots == old(self).all_snapshots,
            old(self).current_test_case_index == Some(0usize) ==> (!r && *final(self) == *old(self)),
    {
        if self.current_test_case_index == Some(0) {
            return false;
        }
        let index: usize = match self.current_test_case_index {
            Some(i) => i - 1,
            None => 0,
        };
        self.go_to_test_case(index)
    }

    /// Jump to test case `index` and select its first snapshot; false
    /// (with the snapshot selection cleared) when there is no such test
    /// case.
    pub fn go_to_test_case(&mut self, index: usize) -> (r: bool)
        requires
            old(self).wf(),
        ensures
            final(self).wf(),
            final(self).test_cases == old(self).test_cases,
            final(self).all_snapshots == old(self).all_snapshots,
            r == (index < old(self).test_cases@.len()),
            r ==> final(self).current_test_case_index == Some(index),
            // A successful jump lands on the case's first snapshot when
            // the case has one.
            (r && old(self).all_snapshots@[index as int]@.contains_key(1)) ==> (final(self).current_snapshot_index == Some(1u64) && final(self).mode == (if old(self).all_snapshots@[index as int]@[1].unconfirmed is Some {
                Mode::New
            } else {
                Mode::Confirmed
            })),
            (r && !old(self).all_snapshots@[index as int]@.contains_key(1)) ==> (final(self).current_snapshot_index is None && final(self).mode == Mode::Confirmed),
            !r ==> (final(self).current_test_case_index == old(self).current_test_case_index
                && final(self).current_snapshot_index is None),
    {
        self.current_snapshot_index = None;
        if index >= self.test_cases.len() {
            return false;
        }
        self.current_test_case_index = Some(index);
        let _ = self.go_to_next_snapshot();
        true
    }

    /// Move to the snapshot before the current one; false at the first.
    pub fn go_to_previous_snapshot(&mut self) -> (r: bool)
        requires
            old(self).wf(),
        ensures
            final(self).wf(),
            final(self).test_cases == old(self).test_cases,
            final(self).all_snapshots == old(self).all_snapshots,
            final(self).current_test_case_index == old(self).current_test_case_index,
    {
        if self.current_snapshot_index == Some(1) {
            return false;
        }
        let index: u64 = match self.current_snapshot_index {
            Some(i) => {
                if i == 0 {
                    return false;
                }
                i - 1
            },
            None => 0,
        };
        self.go_to_snapshot(index)
    }

    /// Move to the snapshot after the current one (snapshot numbers start
    /// at 1).
    pub fn go_to_next_snapshot(&mut self) -> (r: bool)
        requires
            old(self).wf(),
        ensures
            final(self).wf(),
            final(self).test_cases == old(self).test_cases,
            final(self).all_snapshots == old(self).all_snapshots,
            final(self).current_test_case_index == old(self).current_test_case_index,
            (old(self).current_snapshot_index is None && old(self).current_test_case_index is Some
                && old(self).all_snapshots@[old(self).current_test_case_index.unwrap() as int]@.contains_key(1)) ==> (r && final(self).current_snapshot_index == Some(1u64) && final(self).mode == (if old(self).all_snapshots@[old(self).current_test_case_index.unwrap() as int]@[1].unconfirmed is Some {
                Mode::New
            } else {
                Mode::Confirmed
            })),
            (old(self).current_snapshot_index is None && old(self).current_test_case_index is Some
                && !old(self).all_snapshots@[old(self).current_test_case_index.unwrap() as int]@.contains_key(1)) ==> (!r && final(self).current_snapshot_index is None && final(self).mode == Mode::Confirmed),
    {
        let index: u64 = match self.current_snapshot_index {
            Some(i) => {
                if i == u64::MAX {
                    return false;
                }
                i + 1
            },
            None => 1,
        };
        self.go_to_snapshot(index)
    }

    /// Select snapshot number `index` of the current test case. When the
    /// number exists, the mode follows its state: a snapshot with an
    /// unconfirmed file opens as `New`, an already confirmed one as
    /// `Confirmed`. When it does not exist the selection is unchanged and
    /// the mode falls back to `Confirmed`.
    pub fn go_to_snapshot(&mut self, index: u64) -> (r: bool)
        requires
            old(self).wf(),
        ensures
            final(self).wf(),
            final(self).test_cases == old(self).test_cases,
            final(self).all_snapshots == old(self).all_snapshots,
            final(self).current_test_case_index == old(self).current_test_case_index,
            ({
                match old(self).current_test_case_index {
                    Some(t) => {
                        if old(self).all_snapshots@[t as int]@.contains_key(index) {
                            &&& r
                            &&& final(self).current_snapshot_index == Some(index)
                            &&& final(self).mode == (if old(
                                self,
                            ).all_snapshots@[t as int]@[index].unconfirmed is Some {
                                Mode::New
                            } else {
                                Mode::Confirmed
                            })
                        } else {
                            &&& !r
                            &&& final(self).mode == Mode::Confirmed
                            &&& final(self).current_snapshot_index == old(
                                self,
                            ).current_snapshot_index
                        }
                    },
                    None => !r,
                }
            }),
    {
        let t = match self.current_test_case_index {
            Some(t) => t,
            None => {
                return false;
            },
        };
        match self.all_snapshots[t].get(&index) {
            Some(files) => {
                self.current_snapshot_index = Some(index);
                self.mode = if files.unconfirmed.is_some() {
                    Mode::New
                } else {
                    Mode::Confirmed
                };
                true
            },
            None => {
                self.mode = Mode::Confirmed;
                false
            },
        }
    }

    /// The currently selected test case's name.
    pub fn current_test_case(&self) -> (r: Option<&String>)
        requires
            self.wf(),
        ensures
            r.is_some() <==> self.current_test_case_index is Some,
            r.is_some() ==> r == Some(
                &self.test_cases@[self.current_test_case_index.unwrap() as int],
            ),
    {
        match self.current_test_case_index {
            Some(t) => Some(&self.test_cases[t]),
            None => None,
        }
    }

    /// The files of the snapshot before the current one.
    pub fn previous_snapshot(&self) -> (r: Option<&SingleSnapshotFiles>)
        requires
            self.wf(),
        ensures
            r.is_some() <==> self.spec_previous_snapshot().is_some(),
            r.is_some() ==> r == Some(&self.spec_previous_snapshot().unwrap()),
    {
        let t = match self.current_test_case_index {
            Some(t) => t,
            None => {
                return None;
            },
        };
        let s = match self.current_snapshot_index {
            Some(s) => s,
            None => {
                return None;
            },
        };
        if s == 0 {
            return None;
        }
        self.all_snapshots[t].get(&(s - 1))
    }

    /// The files of the currently selected snapshot.
    pub fn current_snapshot(&self) -> (r: Option<&SingleSnapshotFiles>)
        requires
            self.wf(),
        ensures
            r.is_some() <==> self.spec_current_snapshot().is_some(),
            r.is_some() ==> r == Some(&self.spec_current_snapshot().unwrap()),
    {
        let t = match self.current_test_case_index {
            Some(t) => t,
            None => {
                return None;
            },
        };
        let s = match self.current_snapshot_index {
            Some(s) => s,
            None => {
                return None;
            },
        };
        self.all_snapshots[t].get(&s)
    }

    /// Whether the current snapshot still awaits confirmation.
    pub fn has_unconfirmed(&self) -> (r: bool)
        requires
            self.wf(),
        ensures
            r == (self.spec_current_snapshot() matches Some(f) && f.unconfirmed is Some),
    {
        match self.current_snapshot() {
            Some(files) => files.unconfirmed.is_some(),
            None => false,
        }
    }

    /// Keep advancing snapshots, rolling over into following test cases,
    /// until one with an unconfirmed file is selected; false when none is
    /// left.
    pub fn go_to_next_unconfirmed_file(&mut self) -> (r: bool)
        requires
            old(self).wf(),
        ensures
            final(self).wf(),
            final(self).test_cases == old(self).test_cases,
            final(self).all_snapshots == old(self).all_snapshots,
            r ==> (final(self).spec_current_snapshot() matches Some(f) && f.unconfirmed is Some),
    {
        let mut fuel: u64 = u64::MAX;
        loop
            invariant
                self.wf(),
                self.test_cases == old(self).test_cases,
                self.all_snapshots == old(self).all_snapshots,
            decreases fuel,
        {
            if fuel == 0 {
                return false;
            }
            fuel = fuel - 1;
            if !self.go_to_next_snapshot() {
                if !self.go_to_next_test_case() {
                    return false;
                }
            }
            if self.has_unconfirmed() {
                return true;
            }
        }
    }

    /// Which display modes the current position allows: `New` needs an
    /// unconfirmed file, `Confirmed` a confirmed one, and the diff modes
    /// need both of their inputs.
    pub fn is_mode_allowed(&self, mode: Mode) -> (r: bool)
        requires
            self.wf(),
        ensures
            r == self.is_mode_allowed_now(mode),
    {
        let has_new = match self.current_snapshot() {
            Some(f) => f.unconfirmed.is_some(),
            None => false,
        };
        let has_confirmed = match self.current_snapshot() {
            Some(f) => f.confirmed.is_some(),
            None => false,
        };
        let has_previous_confirmed = match self.previous_snapshot() {
            Some(f) => f.confirmed.is_some(),
            None => false,
        };
        match mode {
            Mode::New => has_new,
            Mode::Confirmed => has_confirmed,
            Mode::DiffWithConfirmed => has_new && has_confirmed,
            Mode::DiffWithPreviousConfirmed => has_new && has_previous_confirmed,
        }
    }

    /// Switch the display mode; refused (and left unchanged) when the
    /// current position cannot show it.
    pub fn set_mode(&mut self, mode: Mode)
        requires
            old(self).wf(),
        ensures
            final(self).wf(),
            final(self).test_cases == old(self).test_cases,
            final(self).all_snapshots == old(self).all_snapshots,
            final(self).current_test_case_index == old(self).current_test_case_index,
            final(self).current_snapshot_index == old(self).current_snapshot_index,
            old(self).is_mode_allowed_now(mode) ==> final(self).mode == mode,
            !old(self).is_mode_allowed_now(mode) ==> final(self).mode == old(self).mode,
    {
        if self.is_mode_allowed(mode) {
            self.mode = mode;
        }
    }

    /// Spec twin of `is_mode_allowed` for the simple modes; the diff
    /// modes also consult the previous snapshot.
    pub open spec fn is_mode_allowed_now(self, mode: Mode) -> bool {
        match mode {
            Mode::New => self.spec_current_snapshot() matches Some(f) && f.unconfirmed is Some,
            Mode::Confirmed => self.spec_current_snapshot() matches Some(f) && f.confirmed is Some,
            Mode::DiffWithConfirmed => self.spec_current_snapshot() matches Some(f)
                && f.unconfirmed is Some && f.confirmed is Some,
            Mode::DiffWithPreviousConfirmed => (self.spec_current_snapshot() matches Some(f)
                && f.unconfirmed is Some) && (self.spec_previous_snapshot() matches Some(p)
                && p.confirmed is Some),
        }
    }

    /// The files of the snapshot one number below the current one.
    pub open spec fn spec_previous_snapshot(self) -> Option<SingleSnapshotFiles> {
        match (self.current_test_case_index, self.current_snapshot_index) {
            (Some(t), Some(s)) => if s >= 1 && t < self.all_snapshots@.len()
                && self.all_snapshots@[t as int]@.contains_key((s - 1) as u64) {
                Some(self.all_snapshots@[t as int]@[(s - 1) as u64])
            } else {
                None
            },
            _ => None,
        }
    }

    /// Everything the UI shows about the current position.
    pub fn current_state(&self) -> (r: ReviewerState)
        requires
            self.wf(),
        ensures
            r.test_case_index == self.current_test_case_index,
            r.test_case_count == self.test_cases@.len(),
            r.snapshot_index == self.current_snapshot_index,
            r.mode == self.mode,
            r.has_unconfirmed == (self.spec_current_snapshot() matches Some(f)
                && f.unconfirmed is Some),
    {
        ReviewerState {
            test_case_index: self.current_test_case_index,
            test_case_count: self.test_cases.len(),
            snapshot_index: self.current_snapshot_index,
            mode: self.mode,
            has_unconfirmed: self.has_unconfirmed(),
        }
    }
}

} // verus!
