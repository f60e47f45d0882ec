//! A task: an identity and, once one is attached, the work to run.
use vstd::prelude::*;

verus! {

/// The identity of a task: the number of registrations that came before it.
#[derive(PartialEq, Eq, Hash, Clone, Copy, Debug, Structural)]
pub struct TaskId(pub usize);

/// Work that can be run: one call, no arguments, no result. A task may be run
/// on another thread than the one that attached it.
///
/// Work keeps count of its runs, so that whoever runs it can say that it did.
/// A closure becomes work as a `Job`.
pub trait Runnable: Send + Sync {
    /// How often the work has been run.
    spec fn runs(&self) -> nat;

    /// Runs the work once.
    fn invoke(&mut self)
        ensures
            final(self).runs() == old(self).runs() + 1,
    ;
}

/// A closure that can be called.
struct Callable<F: FnMut() + Send + Sync> {
    work: F,
}

/// A closure as work: running the work calls the closure. A job whose
/// closure has panicked has lost it, and calls nothing from then on.
pub struct Job<F: FnMut() + Send + Sync> {
    /// The closure; it is taken out for the length of a call.
    work: Option<Callable<F>>,
    runs: Ghost<nat>,
}

impl<F: FnMut() + Send + Sync> Callable<F> {
    #[verifier::type_invariant]
    spec fn callable(self) -> bool {
        self.work.requires(())
    }

    /// Calls the closure once.
    fn call(self) -> (after: Self)
        ensures
            self.work.ensures((), ()),
            after == self,
    {
        proof {
            use_type_invariant(&self);
        }
        let mut work = self.work;
        work();
        Callable { work }
    }
}

impl<F: FnMut() + Send + Sync> Job<F> {
    /// The closure that the job calls.
    pub closed spec fn work(&self) -> Option<F> {
        match self.work {
            Some(callable) => Some(callable.work),
            None => None,
        }
    }

    /// The closure `work` as work that has not been run yet.
    pub fn new(work: F) -> (job: Self)
        requires
            work.requires(()),
        ensures
            job.runs() == 0,
            job.work() == Some(work),
    {
        Job { work: Some(Callable { work }), runs: Ghost(0) }
    }
}

impl<F: FnMut() + Send + Sync> Runnable for Job<F> {
    closed spec fn runs(&self) -> nat {
        self.runs@
    }

    /// Calls the closure once.
    fn invoke(&mut self)
        ensures
            final(self).work() == old(self).work(),
            old(self).work() matches Some(work) ==> work.ensures((), ()),
    {
        if let Some(callable) = self.work.take() {
            self.work = Some(callable.call());
        }
        self.runs = Ghost(self.runs@ + 1);
    }
}

/// A unit of work waiting for its schedule.
pub struct Task {
    id: TaskId,
    job: Option<Box<dyn Runnable>>,
}

/// How often `work` has been run; 0 where there is none.
pub open spec fn runs_of(work: Option<Box<dyn Runnable>>) -> nat {
    match work {
        Some(work) => work.runs(),
        None => 0,
    }
}

impl TaskId {
    pub fn new(id: usize) -> (made: Self)
        ensures
            made == TaskId(id),
    {
        Self(id)
    }
}

impl Task {
    /// The identity of the task.
    pub closed spec fn ident(&self) -> TaskId {
        self.id
    }

    /// The work attached, if any is.
    pub closed spec fn work(&self) -> Option<Box<dyn Runnable>> {
        self.job
    }

    /// Whether work has been attached.
    pub open spec fn has_handler(&self) -> bool {
        self.work() is Some
    }

    /// How often the attached work has been run; 0 with nothing attached.
    pub open spec fn runs(&self) -> nat {
        runs_of(self.work())
    }

    /// A task with no work attached yet.
    pub fn new(id: TaskId) -> (task: Self)
        ensures
            task.ident() == id,
            !task.has_handler(),
    {
        Self { id, job: None }
    }

    /// Attaches `handler`, in place of any work attached before.
    pub fn set_handler<F>(&mut self, handler: F) where F: Runnable + 'static
        ensures
            final(self).ident() == old(self).ident(),
            final(self).has_handler(),
    {
        self.job = Some(Box::new(handler));
    }

    pub fn id(&self) -> (id: TaskId)
        ensures
            id == self.ident(),
    {
        self.id
    }

    /// Whether work has been attached.
    pub fn has_work(&self) -> (attached: bool)
        ensures
            attached == self.has_handler(),
    {
        self.job.is_some()
    }

    /// Runs the attached work once and returns `true`; with nothing attached
    /// does nothing and returns `false`.
    pub fn run(&mut self) -> (ran: bool)
        ensures
            ran == old(self).has_handler(),
            final(self).ident() == old(self).ident(),
            final(self).has_handler() == old(self).has_handler(),
            old(self).has_handler() ==> final(self).runs() == old(self).runs() + 1,
            !old(self).has_handler() ==> *final(self) == *old(self),
    {
        match &mut self.job {
            Some(job) => {
                job.invoke();
                true
            },
            None => false,
        }
    }
}

} // verus!
