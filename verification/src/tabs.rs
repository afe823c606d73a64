use vstd::prelude::*;

verus! {

/// The tab stops of a terminal: columns, kept in strictly increasing order.
#[derive(Debug)]
pub struct Tabs {
    tabs: Vec<usize>,
}

/// Each element is smaller than the one after it.
pub open spec fn increasing(tabs: Seq<usize>) -> bool {
    forall|i: int, j: int| 0 <= i < j < tabs.len() ==> tabs[i] < tabs[j]
}

/// How many of the stops lie strictly before `pos`.
pub open spec fn stops_before(tabs: Seq<usize>, pos: int) -> nat
    decreases tabs.len(),
{
    if tabs.len() == 0 {
        0
    } else {
        stops_before(tabs.drop_last(), pos) + if tabs.last() < pos {
            1nat
        } else {
            0nat
        }
    }
}

/// The stops of a fresh terminal `cols` wide: every eighth column from 8 on.
pub open spec fn initial_stops(cols: usize) -> Seq<usize> {
    Seq::new(
        if cols == 0 {
            0nat
        } else {
            ((cols - 1) / 8) as nat
        },
        |i: int| (8 * (i + 1)) as usize,
    )
}

/// The stops with `pos` among them.
pub open spec fn with_stop(tabs: Seq<usize>, pos: usize) -> Seq<usize> {
    if tabs.contains(pos) {
        tabs
    } else {
        tabs.insert(stops_before(tabs, pos as int) as int, pos)
    }
}

/// The stops without `pos`.
pub open spec fn without_stop(tabs: Seq<usize>, pos: usize) -> Seq<usize> {
    if tabs.contains(pos) {
        tabs.remove(stops_before(tabs, pos as int) as int)
    } else {
        tabs
    }
}

/// The stops that lie before `cols`.
pub open spec fn stops_below(tabs: Seq<usize>, cols: usize) -> Seq<usize> {
    tabs.take(stops_before(tabs, cols as int) as int)
}

/// The `n`-th stop strictly before `pos`, counted from the nearest.
pub open spec fn stop_before(tabs: Seq<usize>, pos: usize, n: usize) -> Option<usize> {
    let k = stops_before(tabs, pos as int);
    if 1 <= n <= k {
        Some(tabs[k - n])
    } else {
        None
    }
}

/// The `n`-th stop strictly after `pos`, counted from the nearest.
pub open spec fn stop_after(tabs: Seq<usize>, pos: usize, n: usize) -> Option<usize> {
    let i = stops_before(tabs, pos + 1) + n - 1;
    if 1 <= n && i < tabs.len() {
        Some(tabs[i])
    } else {
        None
    }
}

/// In increasing stops, the count of those before `pos` is the index that
/// splits them into the smaller ones and the rest.
pub proof fn lemma_stops_before_is_split(tabs: Seq<usize>, pos: int, k: int)
    requires
        0 <= k <= tabs.len(),
        forall|i: int| 0 <= i < k ==> tabs[i] < pos,
        forall|i: int| k <= i < tabs.len() ==> tabs[i] >= pos,
    ensures
        stops_before(tabs, pos) == k,
    decreases tabs.len(),
{
    if tabs.len() > 0 {
        let front = tabs.drop_last();
        if k == tabs.len() {
            lemma_stops_before_is_split(front, pos, k - 1);
        } else {
            lemma_stops_before_is_split(front, pos, k);
        }
    }
}

/// Setting a stop keeps the order, and adds `pos` and nothing else.
pub proof fn lemma_with_stop(tabs: Seq<usize>, pos: usize)
    requires
        increasing(tabs),
    ensures
        increasing(with_stop(tabs, pos)),
        forall|t: usize| with_stop(tabs, pos).contains(t) <==> tabs.contains(t) || t == pos,
{
    let k = lemma_split_exists(tabs, pos as int);
    let r = with_stop(tabs, pos);
    if !tabs.contains(pos) {
        assert(r == tabs.insert(k, pos));
        assert forall|i: int, j: int| 0 <= i < j < r.len() implies r[i] < r[j] by {
            if j < k {
            } else if j == k {
            } else {
                assert(r[j] == tabs[j - 1]);
                assert(tabs[j - 1] >= pos);
                assert(tabs[j - 1] != pos);
            }
        }
        assert forall|t: usize| r.contains(t) <==> tabs.contains(t) || t == pos by {
            if r.contains(t) {
                let i = choose|i: int| 0 <= i < r.len() && r[i] == t;
                if i < k {
                    assert(tabs[i] == t);
                } else if i > k {
                    assert(tabs[i - 1] == t);
                }
            }
            if tabs.contains(t) {
                let i = choose|i: int| 0 <= i < tabs.len() && tabs[i] == t;
                if i < k {
                    assert(r[i] == t);
                } else {
                    assert(r[i + 1] == t);
                }
            }
            if t == pos {
                assert(r[k] == t);
            }
        }
    }
}

/// Clearing a stop keeps the order, and takes `pos` away and nothing else.
pub proof fn lemma_without_stop(tabs: Seq<usize>, pos: usize)
    requires
        increasing(tabs),
    ensures
        increasing(without_stop(tabs, pos)),
        forall|t: usize| without_stop(tabs, pos).contains(t) <==> tabs.contains(t) && t != pos,
{
    let k = lemma_split_exists(tabs, pos as int);
    let r = without_stop(tabs, pos);
    if tabs.contains(pos) {
        let p = choose|i: int| 0 <= i < tabs.len() && tabs[i] == pos;
        assert(p == k) by {
            if p < k {
            } else if p > k {
                assert(tabs[k] >= pos);
            }
        }
        assert(r == tabs.remove(k));
        assert forall|t: usize| r.contains(t) <==> tabs.contains(t) && t != pos by {
            if r.contains(t) {
                let i = choose|i: int| 0 <= i < r.len() && r[i] == t;
                if i < k {
                    assert(tabs[i] == t);
                } else {
                    assert(tabs[i + 1] == t);
                }
            }
            if tabs.contains(t) && t != pos {
                let i = choose|i: int| 0 <= i < tabs.len() && tabs[i] == t;
                if i < k {
                    assert(r[i] == t);
                } else {
                    assert(r[i - 1] == t);
                }
            }
        }
    }
}

/// Increasing stops split at the count of those before `pos`.
pub proof fn lemma_split_exists(tabs: Seq<usize>, pos: int) -> (k: int)
    requires
        increasing(tabs),
    ensures
        k == stops_before(tabs, pos),
        0 <= k <= tabs.len(),
        forall|i: int| 0 <= i < k ==> tabs[i] < pos,
        forall|i: int| k <= i < tabs.len() ==> tabs[i] >= pos,
    decreases tabs.len(),
{
    if tabs.len() == 0 {
        0
    } else {
        let front = tabs.drop_last();
        let k0 = lemma_split_exists(front, pos);
        assert(forall|i: int| 0 <= i < front.len() ==> front[i] == tabs[i]);
        if tabs.last() < pos {
            assert(k0 == front.len()) by {
                if k0 < front.len() {
                    assert(front[k0] >= pos);
                    assert(tabs[k0] < tabs[tabs.len() - 1]);
                }
            }
            k0 + 1
        } else {
            k0
        }
    }
}

impl View for Tabs {
    type V = Seq<usize>;

    closed spec fn view(&self) -> Seq<usize> {
        self.tabs@
    }
}

impl Tabs {
    /// The stops are in strictly increasing order.
    pub open spec fn wf(&self) -> bool {
        increasing(self@)
    }

    pub fn new(cols: usize) -> (r: Self)
        ensures
            r.wf(),
            r@ == initial_stops(cols),
    {
        let mut tabs: Vec<usize> = Vec::new();
        let mut t: usize = 0;
        while cols - t > 8
            invariant
                t == 8 * tabs@.len(),
                t <= cols,
                cols == 0 || t < cols,
                forall|i: int| 0 <= i < tabs@.len() ==> tabs@[i] == 8 * (i + 1),
            decreases cols - t,
        {
            t = t + 8;
            tabs.push(t);
        }
        assert(tabs@ =~= initial_stops(cols));
        Tabs { tabs }
    }

    /// The count of the stops strictly before `pos`, which is where `pos`
    /// stands or would stand.
    fn position(&self, pos: usize) -> (k: usize)
        requires
            self.wf(),
        ensures
            k == stops_before(self@, pos as int),
            k <= self@.len(),
            forall|i: int| 0 <= i < k ==> self@[i] < pos,
            forall|i: int| k <= i < self@.len() ==> self@[i] >= pos,
            self@.contains(pos) <==> (k < self@.len() && self@[k as int] == pos),
    {
        let mut k: usize = 0;
        while k < self.tabs.len() && self.tabs[k] < pos
            invariant
                k <= self.tabs.len(),
                forall|i: int| 0 <= i < k ==> self.tabs@[i] < pos,
            decreases self.tabs.len() - k,
        {
            k = k + 1;
        }
        proof {
            assert forall|i: int| k <= i < self.tabs@.len() implies self.tabs@[i] >= pos by {
                if i > k {
                    assert(self.tabs@[k as int] < self.tabs@[i]);
                }
            }
            lemma_stops_before_is_split(self.tabs@, pos as int, k as int);
        }
        k
    }

    pub fn set(&mut self, pos: usize)
        requires
            old(self).wf(),
        ensures
            final(self).wf(),
            final(self)@ == with_stop(old(self)@, pos),
    {
        let k = self.position(pos);
        proof {
            lemma_with_stop(self@, pos);
        }
        if !(k < self.tabs.len() && self.tabs[k] == pos) {
            self.tabs.insert(k, pos);
        }
    }

    pub fn unset(&mut self, pos: usize)
        requires
            old(self).wf(),
        ensures
            final(self).wf(),
            final(self)@ == without_stop(old(self)@, pos),
    {
        let k = self.position(pos);
        proof {
            lemma_without_stop(self@, pos);
        }
        if k < self.tabs.len() && self.tabs[k] == pos {
            self.tabs.remove(k);
        }
    }

    pub fn clear(&mut self)
        ensures
            final(self).wf(),
            final(self)@ == Seq::<usize>::empty(),
    {
        self.tabs.clear();
    }

    /// Drops the stops that do not lie before `cols`.
    pub fn contract(&mut self, cols: usize)
        requires
            old(self).wf(),
        ensures
            final(self).wf(),
            final(self)@ == stops_below(old(self)@, cols),
            forall|i: int| 0 <= i < final(self)@.len() ==> final(self)@[i] < cols,
    {
        let k = self.position(cols);
        self.tabs.truncate(k);
    }

    pub fn before(&self, pos: usize, n: usize) -> (r: Option<usize>)
        requires
            self.wf(),
        ensures
            r == stop_before(self@, pos, n),
    {
        let k = self.position(pos);
        if 1 <= n && n <= k {
            Some(self.tabs[k - n])
        } else {
            None
        }
    }

    pub fn after(&self, pos: usize, n: usize) -> (r: Option<usize>)
        requires
            self.wf(),
        ensures
            r == stop_after(self@, pos, n),
    {
        let mut k: usize = 0;
        while k < self.tabs.len() && self.tabs[k] <= pos
            invariant
                k <= self.tabs.len(),
                forall|i: int| 0 <= i < k ==> self.tabs@[i] <= pos,
            decreases self.tabs.len() - k,
        {
            k = k + 1;
        }
        proof {
            assert forall|i: int| k <= i < self.tabs@.len() implies self.tabs@[i] >= pos + 1 by {
                if i > k {
                    assert(self.tabs@[k as int] < self.tabs@[i]);
                }
            }
            lemma_stops_before_is_split(self.tabs@, pos + 1, k as int);
        }
        if 1 <= n && n - 1 < self.tabs.len() - k {
            Some(self.tabs[k + (n - 1)])
        } else {
            None
        }
    }
}

} // verus!
