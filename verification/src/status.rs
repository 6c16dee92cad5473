//! The progress reporter: a stack of named stages that the synchronisation
//! writes to and a display reads.
use vstd::prelude::*;
use vstd::string::*;

verus! {

/// How far a stage has come.
#[derive(Clone, Copy, Debug, Default, PartialEq, Eq, Structural)]
pub struct Progress {
    pub max: usize,
    pub progress: usize,
}

/// One stage of the work in hand.
#[derive(Debug, Default)]
pub struct Stage {
    pub title: String,
    pub progress: Option<Progress>,
}

/// A stage as plain values.
pub struct StageView {
    pub title: Seq<char>,
    pub progress: Option<Progress>,
}

impl View for Stage {
    type V = StageView;

    open spec fn view(&self) -> StageView {
        StageView { title: self.title@, progress: self.progress }
    }
}

impl Clone for Stage {
    fn clone(&self) -> (res: Self)
        ensures
            res@ == self@,
    {
        Stage { title: self.title.clone(), progress: self.progress }
    }
}

/// The stages that are open, outermost first.
#[derive(Debug, Default)]
pub struct Status {
    stages: Vec<Stage>,
}

/// A fresh stage, with its counter at zero where it has one.
pub open spec fn fresh_stage(title: Seq<char>, max_progress: Option<usize>) -> StageView {
    StageView {
        title,
        progress: match max_progress {
            Some(max) => Some(Progress { max, progress: 0 }),
            None => None,
        },
    }
}

/// A stage with another limit; one without a counter stays as it is.
pub open spec fn with_max(stage: StageView, max: usize) -> StageView {
    match stage.progress {
        Some(p) => StageView { title: stage.title, progress: Some(Progress { max, progress: p.progress }) },
        None => stage,
    }
}

/// A stage one step further, never beyond its limit; one without a counter
/// stays as it is.
pub open spec fn advanced(stage: StageView) -> StageView {
    match stage.progress {
        Some(p) => StageView {
            title: stage.title,
            progress: Some(
                Progress { max: p.max, progress: if p.progress < p.max {
                    (p.progress + 1) as usize
                } else {
                    p.max
                } },
            ),
        },
        None => stage,
    }
}

impl View for Status {
    type V = Seq<StageView>;

    closed spec fn view(&self) -> Seq<StageView> {
        self.stages.deep_view()
    }
}

impl DeepView for Stage {
    type V = StageView;

    open spec fn deep_view(&self) -> StageView {
        self@
    }
}

impl Status {
    /// A reporter with no stage open.
    pub fn new() -> (res: Status)
        ensures
            res@ == Seq::<StageView>::empty(),
    {
        let res = Status { stages: Vec::new() };
        assert(res@ =~= Seq::<StageView>::empty());
        res
    }

    /// Opens a stage inside the current one.
    pub fn push_stage(&mut self, title: &str, max_progress: Option<usize>)
        ensures
            final(self)@ == old(self)@.push(fresh_stage(title@, max_progress)),
    {
        let progress = match max_progress {
            Some(max) => Some(Progress { max, progress: 0 }),
            None => None,
        };
        self.stages.push(Stage { title: title.to_owned(), progress });
        assert(self@ =~= old(self)@.push(fresh_stage(title@, max_progress)));
    }

    /// Closes the innermost stage; with none open nothing happens.
    pub fn pop_stage(&mut self)
        ensures
            final(self)@ == if old(self)@.len() > 0 {
                old(self)@.drop_last()
            } else {
                old(self)@
            },
    {
        let _ = self.stages.pop();
        assert(self@ =~= if old(self)@.len() > 0 {
            old(self)@.drop_last()
        } else {
            old(self)@
        });
    }

    /// Sets the limit of the innermost stage's counter. With no stage open,
    /// or none with a counter, nothing happens.
    pub fn set_progress_max(&mut self, max: usize)
        ensures
            final(self)@ == if old(self)@.len() > 0 {
                old(self)@.update(old(self)@.len() - 1, with_max(old(self)@.last(), max))
            } else {
                old(self)@
            },
    {
        match self.stages.pop() {
            None => {
                assert(self@ =~= old(self)@);
            },
            Some(stage) => {
                let ghost before = stage@;
                let progress = match stage.progress {
                    Some(p) => Some(Progress { max, progress: p.progress }),
                    None => None,
                };
                self.stages.push(Stage { title: stage.title, progress });
                assert(before == old(self)@.last());
                assert(self@ =~= old(self)@.update(
                    old(self)@.len() - 1,
                    with_max(old(self)@.last(), max),
                ));
            },
        }
    }

    /// Moves the innermost stage's counter one step on, up to its limit.
    /// With no stage open, or none with a counter, nothing happens.
    pub fn increment_progress(&mut self)
        ensures
            final(self)@ == if old(self)@.len() > 0 {
                old(self)@.update(old(self)@.len() - 1, advanced(old(self)@.last()))
            } else {
                old(self)@
            },
    {
        match self.stages.pop() {
            None => {
                assert(self@ =~= old(self)@);
            },
            Some(stage) => {
                let ghost before = stage@;
                let progress = match stage.progress {
                    Some(p) => Some(
                        Progress { max: p.max, progress: if p.progress < p.max {
                            p.progress + 1
                        } else {
                            p.max
                        } },
                    ),
                    None => None,
                };
                self.stages.push(Stage { title: stage.title, progress });
                assert(before == old(self)@.last());
                assert(self@ =~= old(self)@.update(
                    old(self)@.len() - 1,
                    advanced(old(self)@.last()),
                ));
            },
        }
    }

    /// Whether any stage is open.
    pub fn is_active(&self) -> (res: bool)
        ensures
            res == (self@.len() > 0),
    {
        self.stages.len() > 0
    }

    /// How many stages are open.
    pub fn depth(&self) -> (res: usize)
        ensures
            res == self@.len(),
    {
        self.stages.len()
    }

    /// The open stages, outermost first.
    pub fn stages(&self) -> (res: &Vec<Stage>)
        ensures
            res.deep_view() == self@,
    {
        &self.stages
    }
}

} // verus!
