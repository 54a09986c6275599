//! The archive store and the rules of its reload.
//!
//! A store owns the index that is in force. It is read as a whole and
//! replaced as a whole: there is no operation that changes a part of it, so
//! a reader sees the index from before a reload or the one from after it,
//! never a mixture. Whoever shares a store between a serving path and a
//! reloading task guards it with a lock; each archive has a store of its
//! own.

use vstd::prelude::*;

verus! {

/// The index that is in force after one reload: the parsed archive where
/// there is one, else the index that was.
pub open spec fn reloaded<T, E>(in_force: T, parsed: Result<T, E>) -> T {
    match parsed {
        Ok(new) => new,
        Err(_) => in_force,
    }
}

/// The index that is in force after a run of reloads, one for each of
/// `parses`.
pub open spec fn in_force_after<T, E>(initial: T, parses: Seq<Result<T, E>>) -> T
    decreases parses.len(),
{
    if parses.len() == 0 {
        initial
    } else {
        reloaded(in_force_after(initial, parses.drop_last()), parses.last())
    }
}

/// Whatever reloads have run, the index in force is a whole one: the one
/// that the store was made with, or one that some reload parsed. And a
/// reload that failed has changed nothing: the index in force is the one
/// from before it.
pub proof fn lemma_index_in_force_is_whole<T, E>(initial: T, parses: Seq<Result<T, E>>)
    ensures
        in_force_after(initial, parses) == initial || exists|k: int|
            0 <= k < parses.len() && #[trigger] parses[k] == Ok::<T, E>(
                in_force_after(initial, parses),
            ),
        parses.len() > 0 && parses.last() is Err ==> in_force_after(initial, parses)
            == in_force_after(initial, parses.drop_last()),
    decreases parses.len(),
{
    if parses.len() > 0 {
        let before = parses.drop_last();
        lemma_index_in_force_is_whole(initial, before);
        if parses.last() is Err && in_force_after(initial, before) != initial {
            // The reload that parsed the index in force is among the
            // earlier ones.
            let k = choose|k: int|
                0 <= k < before.len() && #[trigger] before[k] == Ok::<T, E>(
                    in_force_after(initial, before),
                );
            assert(parses[k] == before[k]);
        }
    }
}

/// The holder of the index that is in force.
pub struct ArchiveStore<T> {
    current: T,
}

impl<T> ArchiveStore<T> {
    /// The index that is in force.
    pub closed spec fn value(&self) -> T {
        self.current
    }

    /// A store that holds `initial`.
    pub fn new(initial: T) -> (store: Self)
        ensures
            store.value() == initial,
    {
        ArchiveStore { current: initial }
    }

    /// The index that is in force, to be read while the store is held.
    pub fn snapshot(&self) -> (index: &T)
        ensures
            *index == self.value(),
    {
        &self.current
    }

    /// Puts `new` in force in place of the whole index that was.
    pub fn replace(&mut self, new: T)
        ensures
            final(self).value() == new,
    {
        self.current = new;
    }

    /// Ends one reload. An archive that was parsed takes the place of the
    /// index that was. One that could not be read or parsed changes nothing:
    /// the index that was stays in force, and the failure is handed back to
    /// be reported.
    pub fn reload<E>(&mut self, parsed: Result<T, E>) -> (outcome: Result<(), E>)
        ensures
            final(self).value() == reloaded(old(self).value(), parsed),
            match parsed {
                Ok(new) => outcome is Ok,
                Err(e) => outcome == Err::<(), E>(e),
            },
    {
        match parsed {
            Ok(new) => {
                self.current = new;
                Ok(())
            },
            Err(e) => Err(e),
        }
    }
}

/// Whether the task that watches an archive file still runs.
#[derive(Clone, Copy, Debug, PartialEq, Eq, Structural)]
pub enum WatchState {
    /// Notifications are awaited.
    Watching,
    /// The source of notifications is gone; the index stays as it is.
    Stopped,
}

/// What the source of notifications delivered.
#[derive(Clone, Copy, Debug, PartialEq, Eq, Structural)]
pub enum WatchEvent {
    /// The file was created, modified, renamed or removed.
    Changed,
    /// The watcher reported an error of its own.
    Failed,
    /// The source of notifications is closed.
    Closed,
}

/// What the watching task does next.
#[derive(Clone, Copy, Debug, PartialEq, Eq, Structural)]
pub enum WatchAction {
    /// Read and parse the file again, and end the reload on the store.
    Reload,
    /// Report the watcher's error and go on waiting.
    Report,
    /// End the task.
    Stop,
}

/// The state and the action that follow an event.
pub open spec fn watch_step_of(state: WatchState, event: WatchEvent) -> (WatchState, WatchAction) {
    match state {
        WatchState::Stopped => (WatchState::Stopped, WatchAction::Stop),
        WatchState::Watching => match event {
            WatchEvent::Changed => (WatchState::Watching, WatchAction::Reload),
            WatchEvent::Failed => (WatchState::Watching, WatchAction::Report),
            WatchEvent::Closed => (WatchState::Stopped, WatchAction::Stop),
        },
    }
}

/// One step of the watching task. Every change of the file, of whatever
/// kind, asks for a reload; an error of the watcher is reported and the task
/// goes on; once the source of notifications is closed the task stops for
/// good.
pub fn watch_step(state: WatchState, event: WatchEvent) -> (next: (WatchState, WatchAction))
    ensures
        next == watch_step_of(state, event),
{
    match state {
        WatchState::Stopped => (WatchState::Stopped, WatchAction::Stop),
        WatchState::Watching => match event {
            WatchEvent::Changed => (WatchState::Watching, WatchAction::Reload),
            WatchEvent::Failed => (WatchState::Watching, WatchAction::Report),
            WatchEvent::Closed => (WatchState::Stopped, WatchAction::Stop),
        },
    }
}

} // verus!
