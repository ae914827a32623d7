use vstd::prelude::*;

use crate::states::{
    finished_init_system, finished_game_loading_system, finished_loaded_system,
    finished_loading_system, GameState,
};

verus! {

/// How far an asset and everything it depends on have loaded.
#[derive(Clone, Copy, Debug, PartialEq, Eq, Structural)]
pub enum LoadState {
    NotLoaded,
    Loading,
    Loaded,
    Failed,
}

/// Assets that failed to load, by id, in the order they were waited for.
#[derive(Clone, Debug, PartialEq, Eq)]
pub struct AssetLoadError {
    pub failed: Vec<u64>,
}

/// The load state reported for `id`: the first entry for it, if any.
pub open spec fn status_of(statuses: Seq<(u64, LoadState)>, id: u64) -> Option<LoadState>
    decreases statuses.len(),
{
    if statuses.len() == 0 {
        None
    } else if statuses[0].0 == id {
        Some(statuses[0].1)
    } else {
        status_of(statuses.drop_first(), id)
    }
}

/// An asset stays pending unless it is reported loaded or failed.
pub open spec fn stays_pending(status: Option<LoadState>) -> bool {
    !(status == Some(LoadState::Loaded) || status == Some(LoadState::Failed))
}

/// The ids of `ids` that stay pending, in order.
pub open spec fn still_pending(ids: Seq<u64>, statuses: Seq<(u64, LoadState)>) -> Seq<u64>
    decreases ids.len(),
{
    if ids.len() == 0 {
        Seq::empty()
    } else {
        let rest = still_pending(ids.drop_last(), statuses);
        if stays_pending(status_of(statuses, ids.last())) {
            rest.push(ids.last())
        } else {
            rest
        }
    }
}

/// The ids of `ids` reported failed, in order.
pub open spec fn failed_ids(ids: Seq<u64>, statuses: Seq<(u64, LoadState)>) -> Seq<u64>
    decreases ids.len(),
{
    if ids.len() == 0 {
        Seq::empty()
    } else {
        let rest = failed_ids(ids.drop_last(), statuses);
        if status_of(statuses, ids.last()) == Some(LoadState::Failed) {
            rest.push(ids.last())
        } else {
            rest
        }
    }
}

/// Looks up the load state reported for `id`.
fn find_status(statuses: &Vec<(u64, LoadState)>, id: u64) -> (r: Option<LoadState>)
    ensures
        r == status_of(statuses@, id),
{
    let mut i: usize = 0;
    assert(statuses@.skip(0) =~= statuses@);
    while i < statuses.len()
        invariant
            i <= statuses@.len(),
            status_of(statuses@, id) == status_of(statuses@.skip(i as int), id),
        decreases statuses@.len() - i,
    {
        let (key, state) = statuses[i];
        if key == id {
            return Some(state);
        }
        assert(statuses@.skip(i as int).drop_first() =~= statuses@.skip(i as int + 1));
        i += 1;
    }
    None
}

/// A copy of `ids` with `id` added at the end.
fn appended(ids: &Vec<u64>, id: u64) -> (r: Vec<u64>)
    ensures
        r@ == ids@.push(id),
{
    let mut r: Vec<u64> = Vec::new();
    let mut i: usize = 0;
    while i < ids.len()
        invariant
            i <= ids@.len(),
            r@ == ids@.take(i as int),
        decreases ids@.len() - i,
    {
        r.push(ids[i]);
        assert(r@ =~= ids@.take(i as int + 1));
        i += 1;
    }
    r.push(id);
    assert(r@ =~= ids@.push(id));
    r
}

/// The set of assets still being waited for.
#[derive(Debug)]
pub struct AssetLoader {
    pending: Vec<u64>,
}

impl AssetLoader {
    #[verifier::type_invariant]
    spec fn inv(self) -> bool {
        self.pending@.no_duplicates()
    }

    /// The pending ids, each once, in the order they were added.
    pub closed spec fn spec_pending(self) -> Seq<u64> {
        self.pending@
    }

    pub fn new() -> (r: AssetLoader)
        ensures
            r.spec_pending() == Seq::<u64>::empty(),
    {
        AssetLoader { pending: Vec::new() }
    }

    /// Waits for `id` too; an id already pending is not added again.
    pub fn add_pending(&mut self, id: u64)
        ensures
            old(self).spec_pending().contains(id) ==> final(self).spec_pending() == old(
                self,
            ).spec_pending(),
            !old(self).spec_pending().contains(id) ==> final(self).spec_pending() == old(
                self,
            ).spec_pending().push(id),
            forall|x: u64| #[trigger]
                final(self).spec_pending().contains(x) <==> old(self).spec_pending().contains(x) || x
                    == id,
    {
        proof {
            use_type_invariant(&*self);
        }
        let mut i: usize = 0;
        while i < self.pending.len()
            invariant
                i <= self.pending@.len(),
                forall|j: int| 0 <= j < i ==> self.pending@[j] != id,
            decreases self.pending@.len() - i,
        {
            if self.pending[i] == id {
                assert(self.pending@.contains(id));
                return;
            }
            i += 1;
        }
        let extended = appended(&self.pending, id);
        proof {
            assert(extended@[self.pending@.len() as int] == id);
            assert forall|x: u64| #[trigger]
                extended@.contains(x) <==> self.pending@.contains(x) || x == id by {
                if self.pending@.contains(x) {
                    let k = choose|k: int| 0 <= k < self.pending@.len() && self.pending@[k] == x;
                    assert(extended@[k] == x);
                }
            }
            assert forall|j: int, k: int| 0 <= j < k < extended@.len() implies extended@[j]
                != extended@[k] by {
                if k == self.pending@.len() {
                    assert(self.pending@[j] != id);
                }
            }
        }
        self.pending = extended;
    }

    /// Nothing is pending any more.
    pub fn is_finished(&self) -> (r: bool)
        ensures
            r == (self.spec_pending().len() == 0),
    {
        self.pending.len() == 0
    }

    /// Drops the assets reported loaded or failed from the pending set. Fails,
    /// naming the failed ones, when any failed.
    pub fn update_loading_state(&mut self, statuses: &Vec<(u64, LoadState)>) -> (r: Result<
        (),
        AssetLoadError,
    >)
        ensures
            final(self).spec_pending() == still_pending(old(self).spec_pending(), statuses@),
            failed_ids(old(self).spec_pending(), statuses@).len() == 0 <==> r is Ok,
            r matches Err(e) ==> e.failed@ == failed_ids(old(self).spec_pending(), statuses@),
    {
        proof {
            use_type_invariant(&*self);
        }
        let ghost ids = self.pending@;
        let mut kept: Vec<u64> = Vec::new();
        let mut failed: Vec<u64> = Vec::new();
        let mut i: usize = 0;
        while i < self.pending.len()
            invariant
                ids == self.pending@,
                ids.no_duplicates(),
                i <= ids.len(),
                kept@ == still_pending(ids.take(i as int), statuses@),
                failed@ == failed_ids(ids.take(i as int), statuses@),
                forall|x: u64| kept@.contains(x) ==> ids.take(i as int).contains(x),
                kept@.no_duplicates(),
            decreases ids.len() - i,
        {
            let id = self.pending[i];
            let status = find_status(statuses, id);
            let ghost kept_before = kept@;
            proof {
                assert(ids.take(i as int + 1).drop_last() =~= ids.take(i as int));
                assert(ids.take(i as int + 1).last() == id);
                assert(!ids.take(i as int).contains(id)) by {
                    if ids.take(i as int).contains(id) {
                        let j = choose|j: int| 0 <= j < i && ids.take(i as int)[j] == id;
                        assert(ids[j] == ids[i as int]);
                    }
                }
            }
            match status {
                Some(LoadState::Loaded) => {},
                Some(LoadState::Failed) => {
                    failed.push(id);
                },
                _ => {
                    kept.push(id);
                    proof {
                        assert(!kept_before.contains(id));
                        assert forall|j: int, k: int| 0 <= j < k < kept@.len() implies kept@[j]
                            != kept@[k] by {
                            if k == kept_before.len() {
                                assert(kept_before[j] == kept@[j]);
                            }
                        }
                    }
                },
            }
            proof {
                assert forall|x: u64| kept@.contains(x) implies ids.take(i as int + 1).contains(x) by {
                    if x == id {
                        assert(ids.take(i as int + 1)[i as int] == id);
                    } else {
                        assert(kept_before.contains(x));
                        let k = choose|k: int| 0 <= k < i && ids.take(i as int)[k] == x;
                        assert(ids.take(i as int + 1)[k] == x);
                    }
                }
            }
            i += 1;
        }
        assert(ids.take(ids.len() as int) =~= ids);
        self.pending = kept;
        if failed.len() == 0 {
            Ok(())
        } else {
            Err(AssetLoadError { failed })
        }
    }
}

/// Drives the loading phases of the game: it schedules the assets, waits for
/// them, and passes through the states up to `GameRunning`.
#[derive(Debug)]
pub struct LoaderPlugin {
    state: GameState,
    loader: AssetLoader,
}

impl LoaderPlugin {
    pub closed spec fn spec_state(self) -> GameState {
        self.state
    }

    pub closed spec fn spec_pending(self) -> Seq<u64> {
        self.loader.spec_pending()
    }

    pub fn new() -> (r: LoaderPlugin)
        ensures
            r.spec_state() == GameState::Init,
            r.spec_pending() == Seq::<u64>::empty(),
    {
        LoaderPlugin { state: GameState::Init, loader: AssetLoader::new() }
    }

    pub fn state(&self) -> (r: GameState)
        ensures
            r == self.spec_state(),
    {
        self.state
    }

    /// The guard under which the per-tick game systems run.
    pub fn is_running(&self) -> (r: bool)
        ensures
            r == (self.spec_state() == GameState::GameRunning),
    {
        self.state.is_running()
    }

    /// In `Init`: waits for the given assets and moves on to `AssetsLoading`.
    /// In any other state nothing changes.
    pub fn startup(&mut self, assets: &Vec<u64>)
        ensures
            old(self).spec_state() == GameState::Init ==> final(self).spec_state()
                == GameState::AssetsLoading && forall|x: u64| #[trigger]
                final(self).spec_pending().contains(x) <==> old(self).spec_pending().contains(x)
                    || assets@.contains(x),
            old(self).spec_state() != GameState::Init ==> *final(self) == *old(self),
    {
        if self.state == GameState::Init {
            let mut i: usize = 0;
            while i < assets.len()
                invariant
                    i <= assets@.len(),
                    self.state == GameState::Init,
                    forall|x: u64| #[trigger]
                        self.loader.spec_pending().contains(x) <==> old(self).loader.spec_pending().contains(x)
                            || assets@.take(i as int).contains(x),
                decreases assets@.len() - i,
            {
                self.loader.add_pending(assets[i]);
                proof {
                    let next = assets@.take(i as int + 1);
                    assert(next =~= assets@.take(i as int).push(assets@[i as int]));
                    assert forall|x: u64| #[trigger] next.contains(x) <==> assets@.take(
                        i as int,
                    ).contains(x) || x == assets@[i as int] by {
                        if x == assets@[i as int] {
                            assert(next[i as int] == x);
                        }
                        if assets@.take(i as int).contains(x) {
                            let k = choose|k: int| 0 <= k < i && assets@.take(i as int)[k] == x;
                            assert(next[k] == x);
                        }
                    }
                }
                i += 1;
            }
            assert(assets@.take(assets@.len() as int) =~= assets@);
            finished_init_system(&mut self.state);
        }
    }

    /// In `AssetsLoading`: drops the assets reported loaded or failed, and moves
    /// on to `AssetsLoaded` once none is pending and none failed. A failure is
    /// returned. In any other state nothing changes.
    pub fn update(&mut self, statuses: &Vec<(u64, LoadState)>) -> (r: Result<(), AssetLoadError>)
        ensures
            old(self).spec_state() != GameState::AssetsLoading ==> *final(self) == *old(self)
                && r is Ok,
            old(self).spec_state() == GameState::AssetsLoading ==> {
                let failed = failed_ids(old(self).spec_pending(), statuses@);
                let pending = still_pending(old(self).spec_pending(), statuses@);
                &&& final(self).spec_pending() == pending
                &&& (failed.len() == 0 <==> r is Ok)
                &&& (r matches Err(e) ==> e.failed@ == failed)
                &&& final(self).spec_state() == if failed.len() == 0 && pending.len() == 0 {
                    GameState::AssetsLoaded
                } else {
                    GameState::AssetsLoading
                }
            },
    {
        if self.state != GameState::AssetsLoading {
            return Ok(());
        }
        let outcome = self.loader.update_loading_state(statuses);
        let checked: Result<bool, AssetLoadError> = match &outcome {
            Ok(()) => Ok(self.loader.is_finished()),
            Err(e) => Err(e.clone()),
        };
        finished_loading_system(&checked, &mut self.state);
        outcome
    }

    /// In `AssetsLoaded`: moves on to `GameLoading`.
    pub fn finish_loaded(&mut self)
        ensures
            final(self).spec_pending() == old(self).spec_pending(),
            old(self).spec_state() == GameState::AssetsLoaded ==> final(self).spec_state()
                == GameState::GameLoading,
            old(self).spec_state() != GameState::AssetsLoaded ==> final(self).spec_state() == old(
                self,
            ).spec_state(),
    {
        finished_loaded_system(&mut self.state);
    }

    /// In `GameLoading`: moves on to `GameRunning`.
    pub fn finish_game_loading(&mut self)
        ensures
            final(self).spec_pending() == old(self).spec_pending(),
            old(self).spec_state() == GameState::GameLoading ==> final(self).spec_state()
                == GameState::GameRunning,
            old(self).spec_state() != GameState::GameLoading ==> final(self).spec_state() == old(
                self,
            ).spec_state(),
    {
        finished_game_loading_system(&mut self.state);
    }
}

} // verus!
