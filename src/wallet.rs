use vstd::prelude::*;
use crate::note::AssetId;
use crate::state::{BlockRow, State};

verus! {

/// The wallet service: read access to the committed state.
pub struct WalletApp {
    pub state: State,
}

/// The last height a block range request covers: the current height when
/// none is asked for (zero), else the lower of the two.
pub open spec fn range_end(current: u64, requested: u64) -> u64 {
    if requested == 0 {
        current
    } else if requested < current {
        requested
    } else {
        current
    }
}

impl WalletApp {
    pub fn new(state: State) -> (r: WalletApp)
        ensures
            r.state == state,
    {
        WalletApp { state }
    }

    /// The height of the newest block, zero before the first.
    pub fn height(&self) -> (r: u64)
        ensures
            self.state.blocks@.len() == 0 ==> r == 0,
            self.state.blocks@.len() > 0 ==> r == self.state.blocks@.last().height,
    {
        match self.state.latest_block_info() {
            Some(b) => b.height,
            None => 0,
        }
    }

    /// The last height a request for blocks up to `end_height` covers.
    pub fn end_height(&self, end_height: u64) -> (r: u64)
        ensures
            self.state.blocks@.len() == 0 ==> r == range_end(0, end_height),
            self.state.blocks@.len() > 0 ==> r == range_end(self.state.blocks@.last().height, end_height),
    {
        let current = self.height();
        if end_height == 0 {
            current
        } else if end_height < current {
            end_height
        } else {
            current
        }
    }

    /// The committed blocks with heights from `start_height` to the end of
    /// the request, oldest first.
    pub fn compact_block_range(&self, start_height: u64, end_height: u64) -> (r: Vec<BlockRow>)
        ensures
            ({
                let last = if self.state.blocks@.len() == 0 {
                    range_end(0, end_height)
                } else {
                    range_end(self.state.blocks@.last().height, end_height)
                };
                r@ == self.state.blocks@.filter(
                    |b: BlockRow| start_height <= b.height && b.height <= last,
                )
            }),
    {
        let last = self.end_height(end_height);
        let ghost keep = |b: BlockRow| start_height <= b.height && b.height <= last;
        let mut out: Vec<BlockRow> = Vec::new();
        let n = self.state.blocks.len();
        let mut i: usize = 0;
        while i < n
            invariant
                n == self.state.blocks@.len(),
                i <= n,
                keep == (|b: BlockRow| start_height <= b.height && b.height <= last),
                out@ == self.state.blocks@.take(i as int).filter(keep),
            decreases n - i,
        {
            let b = self.state.blocks[i];
            proof {
                let t = self.state.blocks@.take(i + 1);
                assert(t.drop_last() =~= self.state.blocks@.take(i as int));
                reveal(Seq::filter);
            }
            if start_height <= b.height && b.height <= last {
                out.push(b);
            }
            i = i + 1;
        }
        assert(self.state.blocks@.take(n as int) =~= self.state.blocks@);
        out
    }

    /// The denomination registered for `asset_id`, if any.
    pub fn asset_lookup(&self, asset_id: AssetId) -> (r: Option<String>)
        ensures
            r is None <==> forall|k: int|
                0 <= k < self.state.assets@.len() ==> (#[trigger] self.state.assets@[k]).0 != asset_id,
            r is Some ==> exists|k: int|
                0 <= k < self.state.assets@.len() && (#[trigger] self.state.assets@[k]).0 == asset_id
                    && r->0@ == self.state.assets@[k].1@,
    {
        let n = self.state.assets.len();
        let mut i: usize = 0;
        while i < n
            invariant
                n == self.state.assets@.len(),
                i <= n,
                forall|k: int| 0 <= k < i ==> (#[trigger] self.state.assets@[k]).0 != asset_id,
            decreases n - i,
        {
            if self.state.assets[i].0 == asset_id {
                let d = self.state.assets[i].1.clone();
                assert(self.state.assets@[i as int].0 == asset_id);
                return Some(d);
            }
            i = i + 1;
        }
        None
    }
}

} // verus!
