use vstd::prelude::*;

use crate::logic::level::LoadState;

verus! {

/// The loading state of an asset and of everything it depends on.
#[derive(Debug, Clone, Copy, PartialEq, Eq, Structural)]
pub struct AssetStatus {
    pub load: LoadState,
    pub dependencies: LoadState,
}

/// Why loading the game's assets stopped.
#[derive(Debug, Clone, Copy, PartialEq, Eq, Structural)]
pub enum AssetLoadError {
    /// An asset, or one of its dependencies, failed to load.
    Failed,
    /// Some asset handles were dropped.
    HandleDropped,
}

/// How far an asset got, out of 2: failure of the asset or of a dependency first, then a
/// dropped handle, are errors; both loaded is 2, either loaded is 1, neither is 0.
pub open spec fn asset_score(st: AssetStatus) -> Result<int, AssetLoadError> {
    if st.load == LoadState::Failed || st.dependencies == LoadState::Failed {
        Err(AssetLoadError::Failed)
    } else if st.load == LoadState::NotLoaded || st.dependencies == LoadState::NotLoaded {
        Err(AssetLoadError::HandleDropped)
    } else if st.load == LoadState::Loaded && st.dependencies == LoadState::Loaded {
        Ok(2)
    } else if st.load == LoadState::Loaded || st.dependencies == LoadState::Loaded {
        Ok(1)
    } else {
        Ok(0)
    }
}

/// One pass over the tracked assets from position `i`, adding up their scores to `current`:
/// an asset that is fully loaded is removed by moving the last asset into its place (which is
/// looked at next); the pass stops at the first error.
pub open spec fn sweep(s: Seq<(u64, AssetStatus)>, i: int, current: int) -> (Seq<(u64, AssetStatus)>, Result<int, AssetLoadError>)
    decreases s.len() - i,
{
    if i < 0 || i >= s.len() {
        (s, Ok(current))
    } else {
        match asset_score(s[i].1) {
            Err(e) => (s, Err(e)),
            Ok(k) => if k == 2 {
                sweep(s.update(i, s.last()).drop_last(), i, current + 2)
            } else {
                sweep(s, i + 1, current + k)
            },
        }
    }
}

/// A pass over the tracked assets from position `i` adds at most 2 for each asset it looks at:
/// the progress it reaches never passes twice the number of assets.
pub proof fn law_sweep_progress_bounded(s: Seq<(u64, AssetStatus)>, i: int, current: int)
    requires
        0 <= i <= s.len(),
    ensures
        sweep(s, i, current).1 matches Ok(c) ==> current <= c <= current + 2 * (s.len() - i),
    decreases s.len() - i,
{
    if i < s.len() {
        match asset_score(s[i].1) {
            Err(_) => {},
            Ok(k) => if k == 2 {
                law_sweep_progress_bounded(s.update(i, s.last()).drop_last(), i, current + 2);
            } else {
                law_sweep_progress_bounded(s, i + 1, current + k);
            },
        }
    }
}

/// The assets being loaded, and how many were loaded before.
#[derive(Debug, Clone, Default)]
pub struct AssetLoadingTracker {
    loading: Vec<u64>,
    loaded: u32,
}

impl AssetLoadingTracker {
    pub closed spec fn loading_view(&self) -> Seq<u64> {
        self.loading@
    }

    pub closed spec fn loaded_view(&self) -> u32 {
        self.loaded
    }

    /// A tracker of nothing.
    pub fn new() -> (t: AssetLoadingTracker)
        ensures
            t.loading_view() == Seq::<u64>::empty(),
            t.loaded_view() == 0,
    {
        AssetLoadingTracker { loading: Vec::new(), loaded: 0 }
    }

    /// Starts tracking the asset `id`.
    pub fn track(&mut self, id: u64)
        ensures
            final(self).loading_view() == old(self).loading_view().push(id),
            final(self).loaded_view() == old(self).loaded_view(),
    {
        self.loading.push(id);
    }

    /// The assets being loaded.
    pub fn loading(&self) -> (l: &Vec<u64>)
        ensures
            l@ == self.loading_view(),
    {
        &self.loading
    }
}

/// The tracked assets paired with their statuses.
pub open spec fn zip_status(ids: Seq<u64>, st: Seq<AssetStatus>) -> Seq<(u64, AssetStatus)> {
    Seq::new(ids.len(), |i: int| (ids[i], st[i]))
}

/// One frame of loading the game's assets, given the status of each tracked asset in order:
/// fully loaded assets stop being tracked, and the progress is the sum of the scores out of
/// twice the number of assets looked at (plus those loaded before); the first failed or dropped
/// asset stops the pass with an error.
pub fn track_asset_loading(tracker: &mut AssetLoadingTracker, statuses: Vec<AssetStatus>) -> (r: Result<(u32, u32), AssetLoadError>)
    requires
        statuses@.len() == old(tracker).loading_view().len(),
        2 * old(tracker).loaded_view() + 2 * statuses@.len() <= u32::MAX,
    ensures
        ({
            let (rest, res) = sweep(zip_status(old(tracker).loading_view(), statuses@), 0, 0);
            &&& final(tracker).loading_view() == rest.map_values(|p: (u64, AssetStatus)| p.0)
            &&& final(tracker).loaded_view() == old(tracker).loaded_view()
            &&& r == match res {
                Ok(c) => Ok((c as u32, (2 * old(tracker).loaded_view() + 2 * statuses@.len()) as u32)),
                Err(e) => Err(e),
            }
        }),
        r matches Ok((done, total)) ==> done <= total,
{
    proof {
        law_sweep_progress_bounded(zip_status(tracker.loading@, statuses@), 0, 0);
    }
    let ghost start = zip_status(tracker.loading@, statuses@);
    let ghost n0 = statuses@.len();
    let mut st = statuses;
    let mut current: u32 = 0;
    let mut total: u32 = tracker.loaded * 2;
    let mut i: usize = 0;
    proof {
        assert(zip_status(tracker.loading@, st@) =~= start);
    }
    while i < tracker.loading.len()
        invariant
            st@.len() == tracker.loading@.len(),
            tracker.loading@.len() <= n0,
            i <= tracker.loading@.len(),
            tracker.loaded == old(tracker).loaded,
            2 * old(tracker).loaded + 2 * n0 <= u32::MAX,
            current <= 2 * ((n0 - tracker.loading@.len()) + i),
            total == 2 * tracker.loaded + 2 * ((n0 - tracker.loading@.len()) + i),
            sweep(zip_status(tracker.loading@, st@), i as int, current as int) == sweep(start, 0, 0),
            start == zip_status(old(tracker).loading_view(), statuses@),
        decreases tracker.loading@.len() - i,
    {
        let status = st[i];
        let ghost z = zip_status(tracker.loading@, st@);
        assert(z[i as int] == (tracker.loading@[i as int], status));
        proof {
            assert(z.map_values(|p: (u64, AssetStatus)| p.0) =~= tracker.loading@);
        }
        let score: u32 = if status.load == LoadState::Failed || status.dependencies == LoadState::Failed {
            return Err(AssetLoadError::Failed);
        } else if status.load == LoadState::NotLoaded || status.dependencies == LoadState::NotLoaded {
            return Err(AssetLoadError::HandleDropped);
        } else if status.load == LoadState::Loaded && status.dependencies == LoadState::Loaded {
            2
        } else if status.load == LoadState::Loaded || status.dependencies == LoadState::Loaded {
            1
        } else {
            0
        };
        current = current + score;
        total = total + 2;
        if score == 2 {
            let ghost ids = tracker.loading@;
            let ghost sts = st@;
            tracker.loading.swap_remove(i);
            st.swap_remove(i);
            proof {
                assert(zip_status(tracker.loading@, st@) =~= z.update(i as int, z.last()).drop_last());
            }
        } else {
            i = i + 1;
        }
    }
    proof {
        let z = zip_status(tracker.loading@, st@);
        assert(z.map_values(|p: (u64, AssetStatus)| p.0) =~= tracker.loading@);
    }
    Ok((current, total))
}

/// Something that can rename the asset identifiers it holds.
pub trait MapAssetIds {
    fn map_asset_ids<M: AssetIdMapper>(&mut self, mapper: &mut M);
}

/// A renaming of asset identifiers.
pub trait AssetIdMapper: Sized {
    /// Whether the mapper, in the state `before`, may rename `id` to `to` and end in the state
    /// `after`: each mapper may say what its renaming is; by default, it says nothing.
    open spec fn renames(before: Self, id: u64, to: u64, after: Self) -> bool {
        true
    }

    fn map(&mut self, id: u64) -> (to: u64)
        ensures
            Self::renames(*old(self), id, to, *final(self)),
    ;
}

/// An asset identifier.
#[derive(Debug, Clone, Copy, PartialEq, Eq, Structural)]
pub struct AssetId(pub u64);

impl MapAssetIds for AssetId {
    /// The identifier becomes the mapper's new name for it.
    fn map_asset_ids<M: AssetIdMapper>(&mut self, mapper: &mut M)
        ensures
            M::renames(*old(mapper), old(self).0, final(self).0, *final(mapper)),
    {
        self.0 = mapper.map(self.0);
    }
}

} // verus!
