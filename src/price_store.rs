use vstd::prelude::*;

use crate::address::Address;

verus! {

/// The most observations kept for one (source, asset) pair.
pub const MAX_HISTORY: usize = 10;

/// One price observation.
#[derive(Clone, Copy, Debug, PartialEq, Eq, Structural)]
pub struct PriceData {
    pub price: i128,
    pub timestamp: u64,
}

impl PriceData {
    pub fn new(price: i128, timestamp: u64) -> (r: PriceData)
        ensures
            r.price == price,
            r.timestamp == timestamp,
    {
        PriceData { price, timestamp }
    }
}

/// An asset that prices are quoted for.
#[derive(Clone, Copy, Debug, PartialEq, Eq, Structural)]
pub enum Asset {
    Stellar(Address),
}

/// A history is keyed by its source and its asset.
pub type PriceKey = (u32, Asset);

/// The history stored under `k`, empty where there is none.
pub open spec fn history(m: Map<PriceKey, Seq<PriceData>>, k: PriceKey) -> Seq<PriceData> {
    if m.contains_key(k) {
        m[k]
    } else {
        Seq::empty()
    }
}

/// Appends `p`, first evicting the oldest observation when the history is full.
pub open spec fn push_capped(h: Seq<PriceData>, p: PriceData) -> Seq<PriceData> {
    if h.len() >= MAX_HISTORY {
        h.drop_first().push(p)
    } else {
        h.push(p)
    }
}

/// Whether `p` lies in the closed window `[start, end]`.
pub open spec fn within(p: PriceData, start: u64, end: u64) -> bool {
    start <= p.timestamp && p.timestamp <= end
}

/// The observations of `h` inside `[start, end]`, in stored order.
pub open spec fn in_window(h: Seq<PriceData>, start: u64, end: u64) -> Seq<PriceData> {
    h.filter(|p: PriceData| within(p, start, end))
}

/// The `n` most recent observations of `h` (all of them where there are fewer), oldest first.
pub open spec fn last_n(h: Seq<PriceData>, n: nat) -> Seq<PriceData> {
    if n >= h.len() {
        h
    } else {
        h.subrange(h.len() - n, h.len() as int)
    }
}

/// Whether a removal with these bounds keeps `p`: it is later than `start`, or
/// earlier than `end`, for whichever bound is given.
pub open spec fn survives(p: PriceData, start: Option<u64>, end: Option<u64>) -> bool {
    (match start {
        Some(t) => t < p.timestamp,
        None => false,
    }) || (match end {
        Some(t) => p.timestamp < t,
        None => false,
    })
}

/// The observations of `h` that a removal with these bounds keeps.
pub open spec fn survivors(h: Seq<PriceData>, start: Option<u64>, end: Option<u64>) -> Seq<PriceData> {
    h.filter(|p: PriceData| survives(p, start, end))
}

/// Whether a removal filter applies to the history under `k`: an empty list
/// of sources (of assets) matches every source (asset).
pub open spec fn selected(sources: Seq<u32>, assets: Seq<Asset>, k: PriceKey) -> bool {
    (sources.len() == 0 || sources.contains(k.0)) && (assets.len() == 0 || assets.contains(k.1))
}

/// The store after removing, from every selected history, the observations
/// that do not survive; histories left empty are dropped.
pub open spec fn pruned(
    m: Map<PriceKey, Seq<PriceData>>,
    sources: Seq<u32>,
    assets: Seq<Asset>,
    start: Option<u64>,
    end: Option<u64>,
) -> Map<PriceKey, Seq<PriceData>> {
    Map::new(
        |k: PriceKey|
            m.contains_key(k) && (!selected(sources, assets, k) || survivors(m[k], start, end).len()
                > 0),
        |k: PriceKey|
            if selected(sources, assets, k) {
                survivors(m[k], start, end)
            } else {
                m[k]
            },
    )
}

proof fn lemma_window_step(h: Seq<PriceData>, j: int, start: u64, end: u64)
    requires
        0 <= j < h.len(),
    ensures
        in_window(h.subrange(0, j + 1), start, end) == if within(h[j], start, end) {
            in_window(h.subrange(0, j), start, end).push(h[j])
        } else {
            in_window(h.subrange(0, j), start, end)
        },
{
    reveal(Seq::filter);
    assert(h.subrange(0, j + 1).drop_last() =~= h.subrange(0, j));
}

proof fn lemma_survivors_step(h: Seq<PriceData>, j: int, start: Option<u64>, end: Option<u64>)
    requires
        0 <= j < h.len(),
    ensures
        survivors(h.subrange(0, j + 1), start, end) == if survives(h[j], start, end) {
            survivors(h.subrange(0, j), start, end).push(h[j])
        } else {
            survivors(h.subrange(0, j), start, end)
        },
{
    reveal(Seq::filter);
    assert(h.subrange(0, j + 1).drop_last() =~= h.subrange(0, j));
}

proof fn lemma_survivors_len(h: Seq<PriceData>, start: Option<u64>, end: Option<u64>)
    ensures
        survivors(h, start, end).len() <= h.len(),
{
    h.lemma_filter_len(|p: PriceData| survives(p, start, end));
}

fn is_u32_in_vec(source: u32, sources: &Vec<u32>) -> (r: bool)
    ensures
        r == sources@.contains(source),
{
    let mut i: usize = 0;
    while i < sources.len()
        invariant
            i <= sources@.len(),
            forall|j: int| 0 <= j < i ==> sources@[j] != source,
        decreases sources@.len() - i,
    {
        if sources[i] == source {
            return true;
        }
        i += 1;
    }
    false
}

fn is_asset_in_vec(asset: Asset, assets: &Vec<Asset>) -> (r: bool)
    ensures
        r == assets@.contains(asset),
{
    let mut i: usize = 0;
    while i < assets.len()
        invariant
            i <= assets@.len(),
            forall|j: int| 0 <= j < i ==> assets@[j] != asset,
        decreases assets@.len() - i,
    {
        if assets[i] == asset {
            return true;
        }
        i += 1;
    }
    false
}

/// The history of one (source, asset) pair.
struct Series {
    source: u32,
    asset: Asset,
    prices: Vec<PriceData>,
}

impl Series {
    spec fn key(&self) -> PriceKey {
        (self.source, self.asset)
    }
}

/// Bounded price histories, keyed by source and asset. Each pair's history
/// is a first-in first-out queue of at most `MAX_HISTORY` observations;
/// `self@` maps every pair that has observations to its history.
pub struct PriceStore {
    series: Vec<Series>,
    model: Ghost<Map<PriceKey, Seq<PriceData>>>,
}

impl View for PriceStore {
    type V = Map<PriceKey, Seq<PriceData>>;

    closed spec fn view(&self) -> Map<PriceKey, Seq<PriceData>> {
        self.model@
    }
}

impl PriceStore {
    /// Keys are unique, every stored history holds between one and
    /// `MAX_HISTORY` observations, and the model maps exactly the stored keys.
    pub closed spec fn wf(&self) -> bool {
        &&& forall|i: int, j: int|
            0 <= i < j < self.series@.len() ==> #[trigger] self.series@[i].key()
                != #[trigger] self.series@[j].key()
        &&& forall|i: int|
            0 <= i < self.series@.len() ==> {
                let s = #[trigger] self.series@[i];
                &&& 0 < s.prices@.len() <= MAX_HISTORY
                &&& self.model@.contains_key(s.key())
                &&& self.model@[s.key()] == s.prices@
            }
        &&& forall|k: PriceKey|
            #[trigger] self.model@.contains_key(k) ==> exists|i: int|
                0 <= i < self.series@.len() && #[trigger] self.series@[i].key() == k
    }

    /// Every stored history is non-empty and holds at most `MAX_HISTORY` observations.
    pub proof fn lemma_histories_bounded(&self)
        requires
            self.wf(),
        ensures
            forall|k: PriceKey|
                #[trigger] self@.contains_key(k) ==> 0 < self@[k].len() <= MAX_HISTORY,
    {
        assert forall|k: PriceKey| #[trigger] self@.contains_key(k) implies 0 < self@[k].len()
            <= MAX_HISTORY by {
            let i = choose|i: int| 0 <= i < self.series@.len() && self.series@[i].key() == k;
            assert(self.series@[i].key() == k);
        }
    }

    pub fn new() -> (r: PriceStore)
        ensures
            r.wf(),
            r@ == Map::<PriceKey, Seq<PriceData>>::empty(),
    {
        PriceStore { series: Vec::new(), model: Ghost(Map::empty()) }
    }

    /// The position of the history under `(source, asset)`, if there is one.
    fn find(&self, source: u32, asset: Asset) -> (r: Option<usize>)
        requires
            self.wf(),
        ensures
            match r {
                Some(i) => i < self.series@.len() && self.series@[i as int].key() == (source, asset),
                None => !self@.contains_key((source, asset)),
            },
    {
        let mut i: usize = 0;
        while i < self.series.len()
            invariant
                self.wf(),
                i <= self.series@.len(),
                forall|j: int| 0 <= j < i ==> #[trigger] self.series@[j].key() != (source, asset),
            decreases self.series@.len() - i,
        {
            if self.series[i].source == source && self.series[i].asset == asset {
                return Some(i);
            }
            i += 1;
        }
        None
    }

    /// The observations under `(source, asset)` with `start <= timestamp <= end`, in stored order.
    pub fn range_query(&self, source: u32, asset: Asset, start: u64, end: u64) -> (r: Vec<PriceData>)
        requires
            self.wf(),
        ensures
            r@ == in_window(history(self@, (source, asset)), start, end),
    {
        let mut out: Vec<PriceData> = Vec::new();
        match self.find(source, asset) {
            None => {
                proof {
                    reveal(Seq::filter);
                }
            },
            Some(i) => {
                let prices = &self.series[i].prices;
                let ghost h = prices@;
                let mut j: usize = 0;
                while j < prices.len()
                    invariant
                        h == prices@,
                        j <= h.len(),
                        out@ == in_window(h.subrange(0, j as int), start, end),
                    decreases h.len() - j,
                {
                    proof {
                        lemma_window_step(h, j as int, start, end);
                    }
                    let p = prices[j];
                    if start <= p.timestamp && p.timestamp <= end {
                        out.push(p);
                    }
                    j += 1;
                }
                assert(h.subrange(0, h.len() as int) =~= h);
            },
        }
        out
    }

    /// The `n` most recent observations under `(source, asset)`, oldest first;
    /// all of them where fewer are stored.
    pub fn last_n(&self, source: u32, asset: Asset, n: u32) -> (r: Vec<PriceData>)
        requires
            self.wf(),
        ensures
            r@ == last_n(history(self@, (source, asset)), n as nat),
    {
        let mut out: Vec<PriceData> = Vec::new();
        match self.find(source, asset) {
            None => {},
            Some(i) => {
                let prices = &self.series[i].prices;
                let ghost h = prices@;
                let len = prices.len();
                let first: usize = if (n as usize) < len {
                    len - n as usize
                } else {
                    0
                };
                let mut j: usize = first;
                while j < len
                    invariant
                        h == prices@,
                        len == h.len(),
                        first <= j <= len,
                        out@ == h.subrange(first as int, j as int),
                    decreases len - j,
                {
                    out.push(prices[j]);
                    j += 1;
                    assert(out@ =~= h.subrange(first as int, j as int));
                }
                assert(out@ =~= last_n(h, n as nat));
            },
        }
        out
    }

    /// Removes, from every history that the filter selects, the observations
    /// that do not survive the bounds; histories left empty are dropped.
    pub fn prune(
        &mut self,
        sources: &Vec<u32>,
        assets: &Vec<Asset>,
        start: Option<u64>,
        end: Option<u64>,
    )
        requires
            old(self).wf(),
        ensures
            final(self).wf(),
            final(self)@ == pruned(old(self)@, sources@, assets@, start, end),
    {
        let ghost m0 = self@;
        let ghost target = pruned(m0, sources@, assets@, start, end);
        let ghost orig = self.series@;
        proof {
            assert forall|i: int| 0 <= i < orig.len() implies m0.contains_key(#[trigger] orig[i].key())
                && m0[orig[i].key()] == orig[i].prices@ by {
                assert(self.series@[i] == orig[i]);
            }
        }
        let mut rest: Vec<Series> = Vec::new();
        std::mem::swap(&mut rest, &mut self.series);
        let mut kept: Vec<Series> = Vec::new();
        let ghost mut done: int = 0;
        while rest.len() > 0
            invariant
                target == pruned(m0, sources@, assets@, start, end),
                forall|k: PriceKey| #[trigger] m0.contains_key(k) ==> exists|i: int|
                    0 <= i < orig.len() && #[trigger] orig[i].key() == k,
                0 <= done <= orig.len(),
                rest@ == orig.subrange(done, orig.len() as int),
                forall|i: int, j: int| 0 <= i < j < orig.len() ==> #[trigger] orig[i].key() != #[trigger] orig[j].key(),
                forall|i: int| 0 <= i < orig.len() ==> m0.contains_key(#[trigger] orig[i].key())
                    && m0[orig[i].key()] == orig[i].prices@,
                forall|i: int, j: int| 0 <= i < j < kept@.len() ==> #[trigger] kept@[i].key() != #[trigger] kept@[j].key(),
                forall|j: int, i: int| 0 <= j < kept@.len() && done <= i < orig.len() ==> #[trigger] kept@[j].key() != #[trigger] orig[i].key(),
                forall|j: int| 0 <= j < kept@.len() ==> {
                    let s = #[trigger] kept@[j];
                    &&& 0 < s.prices@.len() <= MAX_HISTORY
                    &&& target.contains_key(s.key())
                    &&& target[s.key()] == s.prices@
                },
                forall|i: int| 0 <= i < done && #[trigger] target.contains_key(orig[i].key()) ==> exists|j: int|
                    0 <= j < kept@.len() && #[trigger] kept@[j].key() == orig[i].key(),
                forall|i: int| 0 <= i < orig.len() ==> 0 < (#[trigger] orig[i]).prices@.len() <= MAX_HISTORY,
            decreases rest@.len(),
        {
            let s = rest.remove(0);
            assert(s == orig[done]);
            let ghost k = s.key();
            let ghost before = kept@;
            let chosen = (sources.len() == 0 || is_u32_in_vec(s.source, sources)) && (assets.len() == 0
                || is_asset_in_vec(s.asset, assets));
            assert(chosen == selected(sources@, assets@, k));
            assert(m0.contains_key(k) && m0[k] == s.prices@);
            if !chosen {
                kept.push(s);
                assert(target.contains_key(k));
            } else {
                let mut survived: Vec<PriceData> = Vec::new();
                let ghost h = s.prices@;
                let mut j: usize = 0;
                while j < s.prices.len()
                    invariant
                        h == s.prices@,
                        j <= h.len(),
                        survived@ == survivors(h.subrange(0, j as int), start, end),
                    decreases h.len() - j,
                {
                    proof {
                        lemma_survivors_step(h, j as int, start, end);
                    }
                    let p = s.prices[j];
                    let stays = match start {
                        Some(t) => t < p.timestamp,
                        None => false,
                    } || match end {
                        Some(t) => p.timestamp < t,
                        None => false,
                    };
                    if stays {
                        survived.push(p);
                    }
                    j += 1;
                }
                assert(h.subrange(0, h.len() as int) =~= h);
                proof {
                    lemma_survivors_len(h, start, end);
                }
                assert(survived@ == survivors(m0[k], start, end));
                if survived.len() > 0 {
                    kept.push(Series { source: s.source, asset: s.asset, prices: survived });
                    assert(target.contains_key(k));
                } else {
                    assert(!target.contains_key(k));
                }
            }
            assert(target.contains_key(k) ==> kept@.len() == before.len() + 1 && kept@.last().key() == k);
            assert(!target.contains_key(k) ==> kept@ == before);
            proof {
                assert forall|i: int| 0 <= i < done + 1 && #[trigger] target.contains_key(orig[i].key()) implies exists|j: int|
                    0 <= j < kept@.len() && #[trigger] kept@[j].key() == orig[i].key() by {
                    if i < done {
                        let j = choose|j: int| 0 <= j < before.len() && before[j].key() == orig[i].key();
                        assert(kept@[j] == before[j]);
                    } else {
                        assert(orig[i].key() == k);
                        assert(kept@[kept@.len() - 1].key() == k);
                    }
                }
                done = done + 1;
                assert(rest@ =~= orig.subrange(done, orig.len() as int));
            }
        }
        assert(done == orig.len());
        self.series = kept;
        self.model = Ghost(target);
        proof {
            assert forall|k: PriceKey| #[trigger] self.model@.contains_key(k) implies exists|j: int|
                0 <= j < self.series@.len() && #[trigger] self.series@[j].key() == k by {
                assert(m0.contains_key(k));
                let i = choose|i: int| 0 <= i < orig.len() && orig[i].key() == k;
                assert(target.contains_key(orig[i].key()));
                let j = choose|j: int| 0 <= j < kept@.len() && kept@[j].key() == orig[i].key();
                assert(self.series@[j].key() == k);
            }
        }
    }

    /// The distinct sources that hold at least one history.
    pub fn sources(&self) -> (r: Vec<u32>)
        requires
            self.wf(),
        ensures
            r@.no_duplicates(),
            forall|s: u32| r@.contains(s) <==> exists|a: Asset| #[trigger] self@.contains_key((s, a)),
    {
        let mut out: Vec<u32> = Vec::new();
        let mut i: usize = 0;
        while i < self.series.len()
            invariant
                self.wf(),
                i <= self.series@.len(),
                out@.no_duplicates(),
                forall|s: u32| out@.contains(s) <==> exists|j: int| 0 <= j < i && (#[trigger] self.series@[j]).source == s,
            decreases self.series@.len() - i,
        {
            let source = self.series[i].source;
            let ghost prev = out@;
            if !is_u32_in_vec(source, &out) {
                out.push(source);
                assert(out@[out@.len() - 1] == source);
                assert forall|x| prev.contains(x) implies out@.contains(x) by {
                    let k = choose|k: int| 0 <= k < prev.len() && prev[k] == x;
                    assert(out@[k] == x);
                }
            }
            assert(out@.contains(source));
            proof {
                assert forall|s: u32| out@.contains(s) implies exists|j: int| 0 <= j < i + 1 && (#[trigger] self.series@[j]).source == s by {
                    if s == source {
                        assert(self.series@[i as int].source == s);
                    } else {
                        assert(prev.contains(s));
                    }
                }
                assert forall|s: u32| (exists|j: int| 0 <= j < i + 1 && (#[trigger] self.series@[j]).source == s) implies out@.contains(s) by {
                    let j = choose|j: int| 0 <= j < i + 1 && (#[trigger] self.series@[j]).source == s;
                    if j < i {
                        assert(prev.contains(s));
                    }
                }
            }
            i += 1;
        }
        proof {
            assert forall|s: u32| out@.contains(s) <==> exists|a: Asset| #[trigger] self@.contains_key((s, a)) by {
                if out@.contains(s) {
                    let j = choose|j: int| 0 <= j < self.series@.len() && (#[trigger] self.series@[j]).source == s;
                    assert(self@.contains_key((s, self.series@[j].asset)));
                }
                if exists|a: Asset| #[trigger] self@.contains_key((s, a)) {
                    let a = choose|a: Asset| #[trigger] self@.contains_key((s, a));
                    let j = choose|j: int| 0 <= j < self.series@.len() && #[trigger] self.series@[j].key() == (s, a);
                    assert(self.series@[j].source == s);
                }
            }
        }
        out
    }

    /// The distinct assets that hold at least one history, over all sources.
    pub fn assets(&self) -> (r: Vec<Asset>)
        requires
            self.wf(),
        ensures
            r@.no_duplicates(),
            forall|a: Asset| r@.contains(a) <==> exists|s: u32| #[trigger] self@.contains_key((s, a)),
    {
        let mut out: Vec<Asset> = Vec::new();
        let mut i: usize = 0;
        while i < self.series.len()
            invariant
                self.wf(),
                i <= self.series@.len(),
                out@.no_duplicates(),
                forall|a: Asset| out@.contains(a) <==> exists|j: int| 0 <= j < i && (#[trigger] self.series@[j]).asset == a,
            decreases self.series@.len() - i,
        {
            let asset = self.series[i].asset;
            let ghost prev = out@;
            if !is_asset_in_vec(asset, &out) {
                out.push(asset);
                assert(out@[out@.len() - 1] == asset);
                assert forall|x| prev.contains(x) implies out@.contains(x) by {
                    let k = choose|k: int| 0 <= k < prev.len() && prev[k] == x;
                    assert(out@[k] == x);
                }
            }
            assert(out@.contains(asset));
            proof {
                assert forall|a: Asset| out@.contains(a) implies exists|j: int| 0 <= j < i + 1 && (#[trigger] self.series@[j]).asset == a by {
                    if a == asset {
                        assert(self.series@[i as int].asset == a);
                    } else {
                        assert(prev.contains(a));
                    }
                }
                assert forall|a: Asset| (exists|j: int| 0 <= j < i + 1 && (#[trigger] self.series@[j]).asset == a) implies out@.contains(a) by {
                    let j = choose|j: int| 0 <= j < i + 1 && (#[trigger] self.series@[j]).asset == a;
                    if j < i {
                        assert(prev.contains(a));
                    }
                }
            }
            i += 1;
        }
        proof {
            assert forall|a: Asset| out@.contains(a) <==> exists|s: u32| #[trigger] self@.contains_key((s, a)) by {
                if out@.contains(a) {
                    let j = choose|j: int| 0 <= j < self.series@.len() && (#[trigger] self.series@[j]).asset == a;
                    assert(self@.contains_key((self.series@[j].source, a)));
                }
                if exists|s: u32| #[trigger] self@.contains_key((s, a)) {
                    let s = choose|s: u32| #[trigger] self@.contains_key((s, a));
                    let j = choose|j: int| 0 <= j < self.series@.len() && #[trigger] self.series@[j].key() == (s, a);
                    assert(self.series@[j].asset == a);
                }
            }
        }
        out
    }

    /// Records an observation of `asset` from `source`; a full history first
    /// loses its oldest observation.
    pub fn insert(&mut self, source: u32, asset: Asset, price: i128, timestamp: u64)
        requires
            old(self).wf(),
        ensures
            final(self).wf(),
            final(self)@ == old(self)@.insert(
                (source, asset),
                push_capped(history(old(self)@, (source, asset)), PriceData { price, timestamp }),
            ),
    {
        let entry = PriceData { price, timestamp };
        let ghost key = (source, asset);
        let ghost updated = push_capped(history(self@, key), entry);
        let ghost before = self.series@;
        let ghost mut pos: int = before.len() as int;
        match self.find(source, asset) {
            Some(i) => {
                proof { pos = i as int; }
                let mut s = self.series.remove(i);
                assert(s.prices@ == history(self@, key));
                if s.prices.len() >= MAX_HISTORY {
                    s.prices.remove(0);
                }
                s.prices.push(entry);
                assert(s.prices@ =~= updated);
                self.series.insert(i, s);
                assert(self.series@ =~= before.update(i as int, s));
            },
            None => {
                let mut prices = Vec::new();
                prices.push(entry);
                self.series.push(Series { source, asset, prices });
                assert(self.series@.last().prices@ =~= updated);
            },
        }
        self.model = Ghost(self.model@.insert(key, updated));
        proof {
            let n = self.series@.len();
            assert forall|k: PriceKey| #[trigger] self.model@.contains_key(k) implies exists|i: int|
                0 <= i < n && #[trigger] self.series@[i].key() == k by {
                if k != key {
                    let i = choose|i: int| 0 <= i < before.len() && before[i].key() == k;
                    assert(self.series@[i].key() == k);
                } else {
                    assert(self.series@[pos].key() == k);
                }
            }
        }
    }
}

/// The history after recording each of `ps` in turn, starting from `h`.
pub open spec fn push_all(h: Seq<PriceData>, ps: Seq<PriceData>) -> Seq<PriceData>
    decreases ps.len(),
{
    if ps.len() == 0 {
        h
    } else {
        push_capped(push_all(h, ps.drop_last()), ps.last())
    }
}

/// Recording any run of observations into an empty history keeps exactly
/// the last `MAX_HISTORY` of them, in order: the oldest are evicted first.
pub proof fn lemma_retention(ps: Seq<PriceData>)
    ensures
        push_all(Seq::empty(), ps) == last_n(ps, MAX_HISTORY as nat),
    decreases ps.len(),
{
    if ps.len() > 0 {
        let rest = ps.drop_last();
        lemma_retention(rest);
        if rest.len() < MAX_HISTORY {
            assert(rest.push(ps.last()) =~= ps);
        } else {
            let kept = rest.subrange(rest.len() - MAX_HISTORY, rest.len() as int);
            assert(kept.drop_first().push(ps.last()) =~= ps.subrange(
                ps.len() - MAX_HISTORY,
                ps.len() as int,
            ));
        }
    }
}

/// Asking for more observations than are stored returns all of them, unpadded.
pub proof fn lemma_last_n_all(h: Seq<PriceData>, n: nat)
    requires
        n >= h.len(),
    ensures
        last_n(h, n) == h,
        last_n(h, n).len() == h.len(),
{
}

/// Removing without bounds drops every selected history entirely.
pub proof fn lemma_prune_unbounded_clears(
    m: Map<PriceKey, Seq<PriceData>>,
    sources: Seq<u32>,
    assets: Seq<Asset>,
    k: PriceKey,
)
    requires
        selected(sources, assets, k),
    ensures
        !pruned(m, sources, assets, None, None).contains_key(k),
{
    if m.contains_key(k) {
        let h = m[k];
        let f = survivors(h, None, None);
        if f.len() > 0 {
            h.lemma_filter_pred(|p: PriceData| survives(p, None, None), 0);
            assert(false);
        }
    }
}

/// Removing with only an end bound keeps, in a selected history, exactly the
/// observations stamped strictly before that bound; one stamped at the bound
/// itself is removed.
pub proof fn lemma_prune_end_only(
    m: Map<PriceKey, Seq<PriceData>>,
    sources: Seq<u32>,
    assets: Seq<Asset>,
    end: u64,
    k: PriceKey,
)
    requires
        m.contains_key(k),
        selected(sources, assets, k),
    ensures
        forall|p: PriceData|
            #[trigger] history(pruned(m, sources, assets, None, Some(end)), k).contains(p) <==> (
            m[k].contains(p) && p.timestamp < end),
{
    let h = m[k];
    let pred = |p: PriceData| survives(p, None, Some(end));
    let after = pruned(m, sources, assets, None, Some(end));
    assert forall|p: PriceData| #[trigger] history(after, k).contains(p) <==> (h.contains(p)
        && p.timestamp < end) by {
        if history(after, k).contains(p) {
            assert(h.filter(pred).contains(p));
            h.lemma_filter_contains_rev(pred, p);
            let i = choose|i: int| 0 <= i < h.filter(pred).len() && h.filter(pred)[i] == p;
            h.lemma_filter_pred(pred, i);
        }
        if h.contains(p) && p.timestamp < end {
            let i = choose|i: int| 0 <= i < h.len() && h[i] == p;
            h.lemma_filter_contains(pred, i);
            assert(h.filter(pred).len() > 0);
        }
    }
}

/// Recording and removing never leave an empty history behind, so the
/// sources and assets that a store lists always have observations.
pub proof fn lemma_histories_stay_nonempty(
    m: Map<PriceKey, Seq<PriceData>>,
    k: PriceKey,
    p: PriceData,
    sources: Seq<u32>,
    assets: Seq<Asset>,
    start: Option<u64>,
    end: Option<u64>,
)
    requires
        forall|x: PriceKey| #[trigger] m.contains_key(x) ==> m[x].len() > 0,
    ensures
        forall|x: PriceKey| #[trigger]
            m.insert(k, push_capped(history(m, k), p)).contains_key(x) ==> m.insert(
                k,
                push_capped(history(m, k), p),
            )[x].len() > 0,
        forall|x: PriceKey| #[trigger]
            pruned(m, sources, assets, start, end).contains_key(x) ==> pruned(
                m,
                sources,
                assets,
                start,
                end,
            )[x].len() > 0,
{
}

} // verus!
