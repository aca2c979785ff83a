//! The overlay's numbers: how long the last frames took, and how many rows were
//! drawn.
use crate::text;
use vstd::prelude::*;

verus! {

/// How many frames are remembered.
pub const RING: usize = 120;

/// How few of them say nothing yet.
pub const ENOUGH: usize = 8;

/// Whether the overlay is on, given what its variable in the environment holds:
/// anything but `0`.
pub fn enabled(value: Option<&str>) -> (r: bool)
    ensures
        r == (value is Some && value.unwrap()@ != "0"@),
{
    match value {
        Some(v) => !text::same(v, "0"),
        None => false,
    }
}

/// The times between frames, and what the last load brought.
#[derive(Debug)]
pub struct Stats {
    /// Nanoseconds between two frames; the oldest is overwritten first.
    pub ring: Vec<u64>,
    /// How many there have been.
    pub n: usize,
    pub total_rows: usize,
    pub load: String,
}

/// The times that stand for how the frames go, in nanoseconds.
#[derive(Clone, Copy, Debug, PartialEq, Eq, Structural)]
pub struct FrameTimes {
    pub p50: u64,
    pub p99: u64,
    pub best: u64,
}

/// Some times, shortest first.
pub open spec fn in_order(times: Seq<u64>) -> Seq<u64> {
    times.sort_by(|a: u64, b: u64| a <= b)
}

/// The times that stand for `times`: the middle one, the one that ninety-nine in
/// a hundred stay within, and the shortest.
pub open spec fn stands_for(times: Seq<u64>) -> FrameTimes {
    let v = in_order(times);
    FrameTimes {
        p50: v[times.len() as int / 2],
        p99: v[times.len() as int * 99 / 100],
        best: v[0],
    }
}

fn sorted(times: &[u64]) -> (out: Vec<u64>)
    ensures
        out@ == in_order(times@),
        out@.len() == times@.len(),
{
    let ghost leq = |a: u64, b: u64| a <= b;
    let mut out: Vec<u64> = Vec::new();
    let mut i: usize = 0;
    assert(times@.take(0) =~= seq![]);
    while i < times.len()
        invariant
            i <= times@.len(),
            out@.len() == i,
            forall|a: int, b: int| 0 <= a < b < out@.len() ==> out@[a] <= out@[b],
            out@.to_multiset() == times@.take(i as int).to_multiset(),
        decreases times@.len() - i,
    {
        let t: u64 = times[i];
        let mut k: usize = out.len();
        while k > 0 && out[k - 1] > t
            invariant
                k <= out@.len(),
                forall|b: int| k <= b < out@.len() ==> out@[b] > t,
            decreases k,
        {
            k -= 1;
        }
        let ghost was = out@;
        out.insert(k, t);
        proof {
            broadcast use vstd::seq_lib::to_multiset_insert, vstd::seq_lib::to_multiset_build;

            assert(times@.take(i + 1) =~= times@.take(i as int).push(t));
            assert(out@ == was.insert(k as int, t));
            assert forall|a: int, b: int| 0 <= a < b < out@.len() implies out@[a] <= out@[b] by {
                if a < k && b > k {
                    assert(was[a] <= was[b - 1]);
                } else if a < k && b == k {
                    assert(was[a] <= was[k - 1]);
                } else if a == k {
                    assert(was[b - 1] > t);
                } else if a > k {
                    assert(was[a - 1] <= was[b - 1]);
                }
            }
        }
        i += 1;
    }
    proof {
        assert(times@.take(i as int) =~= times@);
        times@.lemma_sort_by_ensures(leq);
        vstd::seq_lib::lemma_sorted_unique(out@, in_order(times@), leq);
    }
    out
}

impl Stats {
    /// What every instance keeps.
    pub open spec fn wf(&self) -> bool {
        self.ring@.len() == RING
    }

    /// The times that are remembered.
    pub open spec fn window(&self) -> Seq<u64> {
        self.ring@.take(
            if self.n < RING {
                self.n as int
            } else {
                RING as int
            },
        )
    }

    /// What is remembered of every time there has been: the latest ones, each in
    /// its slot.
    pub open spec fn remembers(&self, history: Seq<u64>) -> bool {
        &&& self.n == history.len()
        &&& forall|i: int|
            0 <= i < history.len() && history.len() <= i + RING ==> (#[trigger] self.ring@[i % (
            RING as int)]) == history[i]
    }

    /// No frames yet.
    pub fn new(total_rows: usize, load: String) -> (r: Stats)
        ensures
            r.wf(),
            r.n == 0,
            r.total_rows == total_rows,
            r.load == load,
    {
        let mut ring: Vec<u64> = Vec::new();
        let mut i: usize = 0;
        while i < RING
            invariant
                i <= RING,
                ring@.len() == i,
            decreases RING - i,
        {
            ring.push(0);
            i += 1;
        }
        Stats { ring, n: 0, total_rows, load }
    }

    /// The rows were made anew.
    pub fn reloaded(&mut self, total_rows: usize, load: String)
        ensures
            *final(self) == (Stats { total_rows, load, ..*old(self) }),
    {
        self.total_rows = total_rows;
        self.load = load;
    }

    /// A frame, `since` the one before. The first has none before it.
    pub fn tick(&mut self, since: Option<u64>)
        requires
            old(self).wf(),
            old(self).n < usize::MAX,
        ensures
            final(self).wf(),
            final(self).total_rows == old(self).total_rows,
            final(self).load == old(self).load,
            match since {
                Some(t) => final(self).n == old(self).n + 1 && final(self).ring@
                    == old(self).ring@.update((old(self).n % RING) as int, t),
                None => final(self).n == old(self).n && final(self).ring == old(self).ring,
            },
    {
        if let Some(t) = since {
            let at: usize = self.n % RING;
            self.ring.set(at, t);
            self.n = self.n + 1;
        }
    }

    /// How the remembered frames went. None while there are too few to say.
    pub fn frames(&self) -> (r: Option<FrameTimes>)
        requires
            self.wf(),
        ensures
            r == if self.window().len() < ENOUGH {
                None
            } else {
                Some(stands_for(self.window()))
            },
    {
        let count: usize = if self.n < RING {
            self.n
        } else {
            RING
        };
        if count < ENOUGH {
            return None;
        }
        let times = vstd::slice::slice_subrange(self.ring.as_slice(), 0, count);
        assert(times@ =~= self.window());
        let v = sorted(times);
        Some(FrameTimes { p50: v[count / 2], p99: v[count * 99 / 100], best: v[0] })
    }

    /// How many rows were drawn, and how many there are.
    pub fn rows(&self, drawn: usize) -> (r: String)
        ensures
            r@ == "rows "@ + text::right_aligned(text::decimal(drawn as nat), 4) + " drawn / "@
                + text::right_aligned(text::decimal(self.total_rows as nat), 9) + " total"@,
    {
        let mut out = "rows ".to_owned();
        text::push_right_aligned(&mut out, text::decimal_text(drawn).as_str(), 4);
        out.append(" drawn / ");
        text::push_right_aligned(&mut out, text::decimal_text(self.total_rows).as_str(), 9);
        out.append(" total");
        out
    }
}

/// The ring holds the latest times of a history: once it is full, each new time
/// takes the place of the oldest.
pub proof fn the_ring_keeps_the_latest(before: Stats, after: Stats, history: Seq<u64>, t: u64)
    requires
        before.wf(),
        before.remembers(history),
        after.n == before.n + 1,
        after.ring@ == before.ring@.update((before.n % RING) as int, t),
    ensures
        after.remembers(history.push(t)),
{
    assert forall|i: int| 0 <= i < history.len() + 1 && history.len() + 1 <= i + RING implies (
    #[trigger] after.ring@[i % (RING as int)]) == history.push(t)[i] by {
        if i < history.len() {
            assert(before.ring@[i % (RING as int)] == history[i]);
            assert(i % (RING as int) != history.len() % (RING as nat));
        }
    }
}

/// The best time is the shortest of them; the middle one is no shorter, and the
/// one that nearly all stay within is no shorter than that.
pub proof fn the_best_is_the_shortest(times: Seq<u64>)
    requires
        times.len() > 0,
    ensures
        times.contains(stands_for(times).best),
        forall|i: int| 0 <= i < times.len() ==> stands_for(times).best <= #[trigger] times[i],
        stands_for(times).best <= stands_for(times).p50 <= stands_for(times).p99,
{
    broadcast use vstd::seq_lib::group_to_multiset_ensures;

    let leq = |a: u64, b: u64| a <= b;
    let v = in_order(times);
    times.lemma_sort_by_ensures(leq);
    times.to_multiset_ensures();
    v.to_multiset_ensures();
    let half = times.len() as int / 2;
    let most = times.len() as int * 99 / 100;
    assert(0 <= half <= most < times.len());
    assert(leq(v[0], v[half]) && leq(v[half], v[most])) by {
        assert(half == most || half < most);
        assert(0 == half || 0 < half);
    }
    assert(v.to_multiset().contains(v[0]));
    assert(times.to_multiset().contains(v[0]));
    assert forall|i: int| 0 <= i < times.len() implies v[0] <= #[trigger] times[i] by {
        assert(times.to_multiset().contains(times[i]));
        assert(v.contains(times[i]));
        let k = choose|k: int| 0 <= k < v.len() && v[k] == times[i];
        assert(leq(v[0], v[k]));
    }
}

} // verus!
