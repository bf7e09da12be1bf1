//! The executor reactor: the tasks by their tokens, their wakeups, and the
//! sweep that drops the tasks whose deadline has passed.

use crate::connection::deadline_after;
use crate::registry::Registry;
use crate::server::TOKEN_RANGE;
use vstd::prelude::*;

verus! {

/// A task: the future it polls, whether it asked to be polled, and the
/// instant after which it is dropped.
#[derive(Debug)]
pub struct Task<F> {
    pub future: Option<F>,
    pub ready: bool,
    pub deadline: u64,
}

impl<F> Task<F> {
    /// Whether the task's deadline has passed at the instant `now`.
    pub open spec fn expired(self, now: u64) -> bool {
        now > self.deadline
    }

    pub fn check_deadline(&self, now: u64) -> (r: bool)
        ensures
            r == self.expired(now),
    {
        now > self.deadline
    }
}

/// The tasks of the executor, by their tokens.
#[derive(Debug)]
pub struct ExecReactor<F> {
    tasks: Registry<Task<F>>,
    exec_timeout: u64,
    offset: u64,
    next_id: u64,
}

/// The token that is given out after `id` in the range that begins at
/// `offset`: the next, or the first where the range ends.
pub open spec fn token_after(offset: u64, id: u64) -> u64 {
    if id + 1 >= offset + TOKEN_RANGE {
        offset
    } else {
        (id + 1) as u64
    }
}

impl<F> ExecReactor<F> {
    pub closed spec fn tasks(&self) -> Map<u64, Task<F>> {
        self.tasks@
    }

    pub closed spec fn offset(&self) -> u64 {
        self.offset
    }

    pub closed spec fn next_id(&self) -> u64 {
        self.next_id
    }

    pub closed spec fn timeout(&self) -> u64 {
        self.exec_timeout
    }

    /// Whether `token` is in the executor's range.
    pub open spec fn in_range(&self, token: u64) -> bool {
        self.offset() <= token < self.offset() + TOKEN_RANGE
    }

    /// The tokens of the tasks and the next token are in the executor's
    /// range.
    pub closed spec fn inv(&self) -> bool {
        &&& self.tasks.wf()
        &&& self.offset + TOKEN_RANGE <= u64::MAX
        &&& self.offset <= self.next_id < self.offset + TOKEN_RANGE
        &&& forall|t: u64| #[trigger] self.tasks@.contains_key(t) ==> self.offset <= t < self.offset
            + TOKEN_RANGE
    }

    /// What [`ExecReactor::inv`] says of the tokens.
    pub proof fn lemma_in_range(&self, token: u64)
        requires
            self.inv(),
        ensures
            self.in_range(self.next_id()),
            self.tasks().contains_key(token) ==> self.in_range(token),
    {
    }

    /// An executor without tasks whose tokens begin at `offset`; a task
    /// lives for `exec_timeout`.
    pub fn new(offset: u64, exec_timeout: u64) -> (r: Self)
        requires
            offset + TOKEN_RANGE <= u64::MAX,
        ensures
            r.inv(),
            r.tasks() == Map::<u64, Task<F>>::empty(),
            r.offset() == offset,
            r.next_id() == offset,
            r.timeout() == exec_timeout,
    {
        Self { tasks: Registry::new(), exec_timeout, offset, next_id: offset }
    }

    /// How many tasks there are.
    pub fn len(&self) -> (r: usize)
        requires
            self.inv(),
        ensures
            r == self.tasks().dom().len(),
    {
        proof {
            self.tasks.lemma_count();
        }
        self.tasks.len()
    }

    /// Spawns a task for `future` at the instant `ticks`: it gets the next
    /// token, is ready at once, and lives for the executor's timeout.
    /// Returns the token, and the task that held the token until now, if
    /// the range has wrapped round onto one.
    pub fn spawn_boxed(&mut self, future: F, ticks: u64) -> (r: (u64, Option<Task<F>>))
        requires
            old(self).inv(),
        ensures
            final(self).inv(),
            r.0 == old(self).next_id(),
            final(self).next_id() == token_after(old(self).offset(), old(self).next_id()),
            final(self).offset() == old(self).offset(),
            final(self).timeout() == old(self).timeout(),
            final(self).tasks() == old(self).tasks().insert(
                r.0,
                Task {
                    future: Some(future),
                    ready: true,
                    deadline: deadline_after(ticks, old(self).timeout()),
                },
            ),
            match r.1 {
                Some(task) => old(self).tasks().contains_key(r.0) && old(self).tasks()[r.0] == task,
                None => !old(self).tasks().contains_key(r.0),
            },
    {
        let token = self.next_id;
        if self.next_id + 1 >= self.offset + TOKEN_RANGE {
            self.next_id = self.offset;
        } else {
            self.next_id += 1;
        }
        let deadline = if ticks > u64::MAX - self.exec_timeout {
            u64::MAX
        } else {
            ticks + self.exec_timeout
        };
        let displaced = self.tasks.insert(token, Task { future: Some(future), ready: true, deadline });
        (token, displaced)
    }

    /// Notes that the task `token` asked to be polled. Says whether there
    /// is such a task.
    pub fn wake(&mut self, token: u64) -> (r: bool)
        requires
            old(self).inv(),
        ensures
            final(self).inv(),
            r == old(self).tasks().contains_key(token),
            final(self).next_id() == old(self).next_id(),
            final(self).offset() == old(self).offset(),
            final(self).timeout() == old(self).timeout(),
            final(self).tasks() == if r {
                old(self).tasks().insert(
                    token,
                    Task {
                        future: old(self).tasks()[token].future,
                        ready: true,
                        deadline: old(self).tasks()[token].deadline,
                    },
                )
            } else {
                old(self).tasks()
            },
    {
        match self.tasks.remove(token) {
            Some(task) => {
                self.tasks.insert(
                    token,
                    Task { future: task.future, ready: true, deadline: task.deadline },
                );
                true
            },
            None => {
                assert(self.tasks@ =~= old(self).tasks@);
                false
            },
        }
    }

    /// Takes the task `token` out to be polled once, with its readiness
    /// reset. A task whose future is still pending is brought back by
    /// [`ExecReactor::park`]; any other is done with.
    pub fn ready(&mut self, token: u64) -> (r: Option<Task<F>>)
        requires
            old(self).inv(),
        ensures
            final(self).inv(),
            final(self).next_id() == old(self).next_id(),
            final(self).offset() == old(self).offset(),
            final(self).timeout() == old(self).timeout(),
            final(self).tasks() == old(self).tasks().remove(token),
            match r {
                Some(task) => old(self).tasks().contains_key(token) && task == (Task {
                    future: old(self).tasks()[token].future,
                    ready: false,
                    deadline: old(self).tasks()[token].deadline,
                }) && old(self).in_range(token),
                None => !old(self).tasks().contains_key(token),
            },
    {
        match self.tasks.remove(token) {
            Some(task) => Some(Task { future: task.future, ready: false, deadline: task.deadline }),
            None => None,
        }
    }

    /// Brings back a task whose future is still pending, under its token.
    pub fn park(&mut self, token: u64, task: Task<F>)
        requires
            old(self).inv(),
            old(self).in_range(token),
        ensures
            final(self).inv(),
            final(self).next_id() == old(self).next_id(),
            final(self).offset() == old(self).offset(),
            final(self).timeout() == old(self).timeout(),
            final(self).tasks() == old(self).tasks().insert(token, task),
    {
        self.tasks.insert(token, task);
    }

    /// Whether `token` is in the executor's range.
    pub fn owns(&self, token: u64) -> (r: bool)
        requires
            self.inv(),
        ensures
            r == self.in_range(token),
    {
        self.offset <= token && token - self.offset < TOKEN_RANGE
    }

    /// Drops the tasks whose deadline has passed at the instant `now`, and
    /// returns their tokens. The futures of those tasks are not told.
    pub fn check_timeouts(&mut self, now: u64) -> (r: Vec<u64>)
        requires
            old(self).inv(),
        ensures
            final(self).inv(),
            final(self).next_id() == old(self).next_id(),
            final(self).offset() == old(self).offset(),
            final(self).timeout() == old(self).timeout(),
            forall|t: u64|
                final(self).tasks().contains_key(t) <==> (#[trigger] old(self).tasks().contains_key(t) && !old(self).tasks()[t].expired(now)),
            forall|t: u64| #[trigger]
                final(self).tasks().contains_key(t) ==> final(self).tasks()[t] == old(self).tasks()[t],
            r@.no_duplicates(),
            forall|t: u64|
                r@.contains(t) <==> (#[trigger] old(self).tasks().contains_key(t) && old(self).tasks()[t].expired(now)),
    {
        let ghost before = self.tasks@;
        let keys = self.tasks.keys();
        let mut dropped: Vec<u64> = Vec::new();
        let mut i: usize = 0;
        proof {
            assert forall|j: int| 0 <= j < keys@.len() implies before.contains_key(
                #[trigger] keys@[j],
            ) by {
                assert(keys@.contains(keys@[j]));
            }
        }
        while i < keys.len()
            invariant
                i <= keys@.len(),
                self.inv(),
                self.next_id() == old(self).next_id(),
                self.offset() == old(self).offset(),
                self.timeout() == old(self).timeout(),
                before == old(self).tasks(),
                keys@.no_duplicates(),
                forall|k: u64| keys@.contains(k) <==> before.contains_key(k),
                forall|j: int|
                    i <= j < keys@.len() ==> self.tasks@.contains_key(#[trigger] keys@[j]),
                forall|j: int|
                    0 <= j < i ==> (self.tasks@.contains_key(#[trigger] keys@[j])
                        <==> !before[keys@[j]].expired(now)),
                forall|t: u64| #[trigger]
                    self.tasks@.contains_key(t) ==> before.contains_key(t) && self.tasks@[t]
                        == before[t],
                dropped@.no_duplicates(),
                forall|t: u64|
                    dropped@.contains(t) <==> (exists|j: int|
                        0 <= j < i && #[trigger] keys@[j] == t && before[t].expired(now)),
            decreases keys@.len() - i,
        {
            let token = keys[i];
            assert(keys@.contains(token));
            let ghost held = self.tasks@;
            let ghost listed = dropped@;
            let expired = match self.tasks.get(token) {
                Some(task) => task.check_deadline(now),
                None => false,
            };
            if expired {
                let _task = self.tasks.remove(token);
                dropped.push(token);
                proof {
                    assert forall|j: int| i + 1 <= j < keys@.len() implies self.tasks@.contains_key(
                    #[trigger] keys@[j]) by {
                        assert(keys@[j] != keys@[i as int]);
                        assert(held.contains_key(keys@[j]));
                    }
                    assert forall|j: int| 0 <= j < i + 1 implies (self.tasks@.contains_key(
                    #[trigger] keys@[j]) <==> !before[keys@[j]].expired(now)) by {
                        if j < i {
                            assert(keys@[j] != keys@[i as int]);
                            assert(held.contains_key(keys@[j]) <==> !before[keys@[j]].expired(now));
                        }
                    }
                    assert(!listed.contains(token)) by {
                        if listed.contains(token) {
                            let j = choose|j: int|
                                0 <= j < i && #[trigger] keys@[j] == token && before[token].expired(
                                    now,
                                );
                            assert(keys@[j] == keys@[i as int]);
                        }
                    }
                    assert(dropped@ =~= listed.push(token));
                    assert forall|t: u64|
                        dropped@.contains(t) <==> (exists|j: int|
                            0 <= j < i + 1 && #[trigger] keys@[j] == t && before[t].expired(
                                now,
                            )) by {
                        if dropped@.contains(t) {
                            let p = choose|p: int| 0 <= p < dropped@.len() && dropped@[p] == t;
                            if p < listed.len() {
                                assert(listed.contains(t));
                                let j = choose|j: int|
                                    0 <= j < i && #[trigger] keys@[j] == t && before[t].expired(
                                        now,
                                    );
                                assert(0 <= j < i + 1 && keys@[j] == t);
                            } else {
                                assert(keys@[i as int] == t);
                            }
                        }
                        if exists|j: int|
                            0 <= j < i + 1 && #[trigger] keys@[j] == t && before[t].expired(now) {
                            let j = choose|j: int|
                                0 <= j < i + 1 && #[trigger] keys@[j] == t && before[t].expired(
                                    now,
                                );
                            if j < i {
                                assert(listed.contains(t));
                                let p = choose|p: int| 0 <= p < listed.len() && listed[p] == t;
                                assert(dropped@[p] == t);
                            } else {
                                assert(dropped@[listed.len() as int] == t);
                            }
                        }
                    }
                }
            } else {
                proof {
                    assert forall|t: u64|
                        dropped@.contains(t) <==> (exists|j: int|
                            0 <= j < i + 1 && #[trigger] keys@[j] == t && before[t].expired(
                                now,
                            )) by {
                        if exists|j: int|
                            0 <= j < i + 1 && #[trigger] keys@[j] == t && before[t].expired(now) {
                            let j = choose|j: int|
                                0 <= j < i + 1 && #[trigger] keys@[j] == t && before[t].expired(
                                    now,
                                );
                            assert(j < i);
                        }
                    }
                }
            }
            i += 1;
        }
        proof {
            assert forall|t: u64|
                self.tasks@.contains_key(t) <==> (#[trigger] before.contains_key(t)
                    && !before[t].expired(now)) by {
                if before.contains_key(t) {
                    assert(keys@.contains(t));
                    let j = choose|j: int| 0 <= j < keys@.len() && keys@[j] == t;
                    assert(self.tasks@.contains_key(keys@[j]) <==> !before[keys@[j]].expired(now));
                }
            }
            assert forall|t: u64|
                dropped@.contains(t) <==> (#[trigger] before.contains_key(t) && before[t].expired(
                    now,
                )) by {
                if before.contains_key(t) && before[t].expired(now) {
                    assert(keys@.contains(t));
                    let j = choose|j: int| 0 <= j < keys@.len() && keys@[j] == t;
                    assert(0 <= j < i && keys@[j] == t);
                }
                if dropped@.contains(t) {
                    let j = choose|j: int|
                        0 <= j < i && #[trigger] keys@[j] == t && before[t].expired(now);
                    assert(keys@.contains(keys@[j]));
                }
            }
        }
        dropped
    }
}

} // verus!
