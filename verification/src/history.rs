//! Historical metrics engine: fixed-capacity ring buffers of samples for
//! CPU, memory, network and disk, viewed through 5 m, 15 m and 1 h windows.

use std::collections::HashMap;
use std::collections::VecDeque;

use vstd::prelude::*;

verus! {

broadcast use vstd::std_specs::hash::group_hash_axioms;

// ── Ring buffer ─────────────────────────────────────────────────────────────

/// A fixed-capacity ring buffer backed by a `VecDeque`: pushing at capacity
/// drops the oldest sample. A new or cleared buffer holds `capacity` copies
/// of its fill value.
pub struct RingBuffer<T> {
    buf: VecDeque<T>,
    capacity: usize,
    fill: T,
}

/// The samples after `value` is pushed onto `s` in a buffer of capacity
/// `cap`: the oldest sample is dropped when the buffer is at capacity.
pub open spec fn ring_push<T>(s: Seq<T>, cap: nat, value: T) -> Seq<T> {
    if s.len() >= cap && s.len() > 0 {
        s.drop_first().push(value)
    } else {
        s.push(value)
    }
}

/// The last `n` samples of `s`, or all of them when there are fewer.
pub open spec fn last_n_of<T>(s: Seq<T>, n: nat) -> Seq<T> {
    if s.len() > n {
        s.subrange(s.len() - n, s.len() as int)
    } else {
        s
    }
}

impl<T> View for RingBuffer<T> {
    type V = Seq<T>;

    /// The samples, oldest first.
    closed spec fn view(&self) -> Seq<T> {
        self.buf@
    }
}

impl<T: Copy> RingBuffer<T> {
    /// The capacity the buffer was made with.
    pub closed spec fn spec_capacity(&self) -> nat {
        self.capacity as nat
    }

    /// The value that fills a new or cleared buffer and that `latest`
    /// returns when the buffer is empty.
    pub closed spec fn fill_value(&self) -> T {
        self.fill
    }

    /// A buffer of `capacity` samples, each equal to `fill`.
    pub fn new(capacity: usize, fill: T) -> (r: Self)
        ensures
            r@ == Seq::new(capacity as nat, |_i: int| fill),
            r.spec_capacity() == capacity,
            r.fill_value() == fill,
    {
        let mut buf: VecDeque<T> = VecDeque::with_capacity(capacity);
        let mut i: usize = 0;
        while i < capacity
            invariant
                i <= capacity,
                buf@ == Seq::new(i as nat, |_i: int| fill),
            decreases capacity - i,
        {
            buf.push_back(fill);
            i += 1;
            assert(buf@ =~= Seq::new(i as nat, |_i: int| fill));
        }
        RingBuffer { buf, capacity, fill }
    }

    /// Pushes a new value, dropping the oldest when at capacity.
    pub fn push(&mut self, value: T)
        ensures
            final(self)@ == ring_push(old(self)@, old(self).spec_capacity(), value),
            final(self).spec_capacity() == old(self).spec_capacity(),
            final(self).fill_value() == old(self).fill_value(),
    {
        if self.buf.len() >= self.capacity {
            self.buf.pop_front();
        }
        self.buf.push_back(value);
    }

    /// All values, oldest first.
    pub fn as_slice(&self) -> (r: Vec<T>)
        ensures
            r@ == self@,
    {
        let mut out: Vec<T> = Vec::new();
        let mut i: usize = 0;
        while i < self.buf.len()
            invariant
                i <= self.buf@.len(),
                out@ == self.buf@.take(i as int),
            decreases self.buf@.len() - i,
        {
            out.push(self.buf[i]);
            i += 1;
            assert(out@ =~= self.buf@.take(i as int));
        }
        assert(self.buf@.take(self.buf@.len() as int) =~= self.buf@);
        out
    }

    /// The `n` most recent values, oldest first (all of them when there are
    /// fewer than `n`).
    pub fn last_n(&self, n: usize) -> (r: Vec<T>)
        ensures
            r@ == last_n_of(self@, n as nat),
    {
        let len = self.buf.len();
        let skip = len.saturating_sub(n);
        let mut out: Vec<T> = Vec::new();
        let mut i: usize = skip;
        while i < len
            invariant
                skip <= i <= len,
                len == self.buf@.len(),
                out@ == self.buf@.subrange(skip as int, i as int),
            decreases len - i,
        {
            out.push(self.buf[i]);
            i += 1;
            assert(out@ =~= self.buf@.subrange(skip as int, i as int));
        }
        assert(skip == 0 ==> self.buf@.subrange(0, len as int) =~= self.buf@);
        out
    }

    /// The most recent value, or the fill value when the buffer is empty.
    pub fn latest(&self) -> (r: T)
        ensures
            self@.len() > 0 ==> r == self@.last(),
            self@.len() == 0 ==> r == self.fill_value(),
    {
        let len = self.buf.len();
        if len > 0 {
            self.buf[len - 1]
        } else {
            self.fill
        }
    }

    /// The number of values held.
    pub fn len(&self) -> (r: usize)
        ensures
            r == self@.len(),
    {
        self.buf.len()
    }

    /// The capacity the buffer was made with.
    pub fn capacity(&self) -> (r: usize)
        ensures
            r == self.spec_capacity(),
    {
        self.capacity
    }

    /// Resets the buffer to `capacity` copies of the fill value.
    pub fn clear(&mut self)
        ensures
            final(self)@ == Seq::new(old(self).spec_capacity(), |_i: int| old(self).fill_value()),
            final(self).spec_capacity() == old(self).spec_capacity(),
            final(self).fill_value() == old(self).fill_value(),
    {
        self.buf.clear();
        let mut i: usize = 0;
        while i < self.capacity
            invariant
                i <= self.capacity,
                self.capacity == old(self).capacity,
                self.fill == old(self).fill,
                self.buf@ == Seq::new(i as nat, |_i: int| self.fill),
            decreases self.capacity - i,
        {
            self.buf.push_back(self.fill);
            i += 1;
            assert(self.buf@ =~= Seq::new(i as nat, |_i: int| self.fill));
        }
    }
}

/// A buffer that holds as many values as its capacity keeps that length
/// through every push, the pushed value becomes the latest, and exactly the
/// oldest value is dropped.
pub proof fn ring_push_at_capacity<T>(s: Seq<T>, cap: nat, value: T)
    requires
        s.len() == cap,
        cap > 0,
    ensures
        ring_push(s, cap, value).len() == cap,
        ring_push(s, cap, value).last() == value,
        ring_push(s, cap, value).drop_last() == s.drop_first(),
{
    assert(ring_push(s, cap, value).drop_last() =~= s.drop_first());
}

/// The window over a buffer is the suffix of the requested length: it never
/// holds more than `n` values, and it ends with the latest value.
pub proof fn last_n_is_suffix<T>(s: Seq<T>, n: nat)
    ensures
        last_n_of(s, n).len() == if s.len() > n {
            n
        } else {
            s.len()
        },
        forall|i: int|
            0 <= i < last_n_of(s, n).len() ==> #[trigger] last_n_of(s, n)[i] == s[s.len()
                - last_n_of(s, n).len() + i],
{
}

// ── Time window ─────────────────────────────────────────────────────────────

/// Supported history time windows.
#[derive(Debug, Clone, Copy, PartialEq, Eq, Structural)]
pub enum HistoryWindow {
    FiveMin,
    FifteenMin,
    OneHour,
}

/// The name shown for window `w`.
pub open spec fn window_label(w: HistoryWindow) -> Seq<char> {
    match w {
        HistoryWindow::FiveMin => "5m"@,
        HistoryWindow::FifteenMin => "15m"@,
        HistoryWindow::OneHour => "1h"@,
    }
}

/// The window that follows `w` when the history key is pressed again.
pub open spec fn window_after(w: HistoryWindow) -> HistoryWindow {
    match w {
        HistoryWindow::FiveMin => HistoryWindow::FifteenMin,
        HistoryWindow::FifteenMin => HistoryWindow::OneHour,
        HistoryWindow::OneHour => HistoryWindow::FiveMin,
    }
}

/// The length of window `w` in minutes.
pub open spec fn window_minutes(w: HistoryWindow) -> nat {
    match w {
        HistoryWindow::FiveMin => 5,
        HistoryWindow::FifteenMin => 15,
        HistoryWindow::OneHour => 60,
    }
}

impl HistoryWindow {
    /// The window's display name.
    pub fn label(self) -> (r: &'static str)
        ensures
            r@ == window_label(self),
    {
        match self {
            Self::FiveMin => "5m",
            Self::FifteenMin => "15m",
            Self::OneHour => "1h",
        }
    }

    /// The next window in the cycle 5m → 15m → 1h.
    pub fn next(self) -> (r: Self)
        ensures
            r == window_after(self),
    {
        match self {
            Self::FiveMin => Self::FifteenMin,
            Self::FifteenMin => Self::OneHour,
            Self::OneHour => Self::FiveMin,
        }
    }

    /// Number of samples the window spans at two samples per second.
    pub fn sample_count(self) -> (r: usize)
        ensures
            r == window_minutes(self) * 60 * 2,
    {
        match self {
            Self::FiveMin => 600,
            Self::FifteenMin => 1800,
            Self::OneHour => 7200,
        }
    }
}

/// The history key cycles through the three windows, and each window spans
/// its length in minutes at two samples per second, never more than the
/// buffers keep.
pub proof fn window_cycle(w: HistoryWindow)
    ensures
        window_after(window_after(window_after(w))) == w,
        window_after(w) != w,
        window_after(window_after(w)) != w,
        window_minutes(w) * 60 * 2 <= MAX_HISTORY,
{
}

// ── Metrics history store ───────────────────────────────────────────────────

/// Samples kept per series: one hour at two samples per second.
pub const MAX_HISTORY: usize = 7200;

/// Samples kept per process: one minute of sparkline.
pub const PROCESS_HISTORY_LEN: usize = 120;

/// All historical series, each in a ring buffer sized for the longest
/// window, plus short per-process CPU histories.
pub struct MetricsHistory<T> {
    /// Global CPU usage history.
    pub cpu_global: RingBuffer<T>,
    /// Per-core CPU usage histories (one ring per core).
    pub cpu_per_core: Vec<RingBuffer<T>>,
    /// Memory usage ratio.
    pub memory_ratio: RingBuffer<T>,
    /// Swap usage ratio.
    pub swap_ratio: RingBuffer<T>,
    /// Network RX speed (bytes/sec).
    pub net_rx: RingBuffer<T>,
    /// Network TX speed (bytes/sec).
    pub net_tx: RingBuffer<T>,
    /// Disk read speed (bytes/sec).
    pub disk_read: RingBuffer<T>,
    /// Disk write speed (bytes/sec).
    pub disk_write: RingBuffer<T>,
    /// Current view window.
    pub window: HistoryWindow,
    /// Per-process CPU history (PID → ring buffer).
    pub process_cpu: HashMap<u32, RingBuffer<T>>,
    /// The value new buffers are filled with.
    pub zero: T,
}

impl<T> MetricsHistory<T> {
    /// Whether `self` and `other` hold the same samples and per-process
    /// histories, whatever their windows.
    pub open spec fn same_samples(&self, other: &Self) -> bool {
        &&& self.cpu_global == other.cpu_global
        &&& self.cpu_per_core == other.cpu_per_core
        &&& self.memory_ratio == other.memory_ratio
        &&& self.swap_ratio == other.swap_ratio
        &&& self.net_rx == other.net_rx
        &&& self.net_tx == other.net_tx
        &&& self.disk_read == other.disk_read
        &&& self.disk_write == other.disk_write
        &&& self.process_cpu == other.process_cpu
        &&& self.zero == other.zero
    }
}

impl<T: Copy> MetricsHistory<T> {
    /// Fresh histories for `num_cores` cores, every buffer holding
    /// `MAX_HISTORY` copies of `zero`, the window at five minutes and no
    /// per-process history.
    pub fn new(num_cores: usize, zero: T) -> (r: Self)
        ensures
            r.cpu_global@ == Seq::new(MAX_HISTORY as nat, |_i: int| zero),
            r.memory_ratio@ == Seq::new(MAX_HISTORY as nat, |_i: int| zero),
            r.swap_ratio@ == Seq::new(MAX_HISTORY as nat, |_i: int| zero),
            r.net_rx@ == Seq::new(MAX_HISTORY as nat, |_i: int| zero),
            r.net_tx@ == Seq::new(MAX_HISTORY as nat, |_i: int| zero),
            r.disk_read@ == Seq::new(MAX_HISTORY as nat, |_i: int| zero),
            r.disk_write@ == Seq::new(MAX_HISTORY as nat, |_i: int| zero),
            r.cpu_global.spec_capacity() == MAX_HISTORY && r.cpu_global.fill_value() == zero,
            r.memory_ratio.spec_capacity() == MAX_HISTORY && r.memory_ratio.fill_value() == zero,
            r.swap_ratio.spec_capacity() == MAX_HISTORY && r.swap_ratio.fill_value() == zero,
            r.net_rx.spec_capacity() == MAX_HISTORY && r.net_rx.fill_value() == zero,
            r.net_tx.spec_capacity() == MAX_HISTORY && r.net_tx.fill_value() == zero,
            r.disk_read.spec_capacity() == MAX_HISTORY && r.disk_read.fill_value() == zero,
            r.disk_write.spec_capacity() == MAX_HISTORY && r.disk_write.fill_value() == zero,
            r.cpu_per_core@.len() == num_cores,
            forall|i: int|
                0 <= i < num_cores ==> (#[trigger] r.cpu_per_core@[i])@ == Seq::new(
                    MAX_HISTORY as nat,
                    |_i: int| zero,
                ) && r.cpu_per_core@[i].spec_capacity() == MAX_HISTORY
                    && r.cpu_per_core@[i].fill_value() == zero,
            r.window == HistoryWindow::FiveMin,
            r.process_cpu@ == Map::<u32, RingBuffer<T>>::empty(),
            r.zero == zero,
    {
        let mut cpu_per_core: Vec<RingBuffer<T>> = Vec::new();
        let mut i: usize = 0;
        while i < num_cores
            invariant
                i <= num_cores,
                cpu_per_core@.len() == i,
                forall|k: int|
                    0 <= k < i ==> (#[trigger] cpu_per_core@[k])@ == Seq::new(
                        MAX_HISTORY as nat,
                        |_i: int| zero,
                    ) && cpu_per_core@[k].spec_capacity() == MAX_HISTORY
                        && cpu_per_core@[k].fill_value() == zero,
            decreases num_cores - i,
        {
            cpu_per_core.push(RingBuffer::new(MAX_HISTORY, zero));
            i += 1;
        }
        MetricsHistory {
            cpu_global: RingBuffer::new(MAX_HISTORY, zero),
            cpu_per_core,
            memory_ratio: RingBuffer::new(MAX_HISTORY, zero),
            swap_ratio: RingBuffer::new(MAX_HISTORY, zero),
            net_rx: RingBuffer::new(MAX_HISTORY, zero),
            net_tx: RingBuffer::new(MAX_HISTORY, zero),
            disk_read: RingBuffer::new(MAX_HISTORY, zero),
            disk_write: RingBuffer::new(MAX_HISTORY, zero),
            window: HistoryWindow::FiveMin,
            process_cpu: HashMap::new(),
            zero,
        }
    }

    /// Records a CPU sample for process `pid`, starting its history with
    /// `PROCESS_HISTORY_LEN` zeros when it has none.
    pub fn record_process_cpu(&mut self, pid: u32, cpu: T)
        ensures
            final(self).process_cpu@.dom() == old(self).process_cpu@.dom().insert(pid),
            final(self).process_cpu@[pid]@ == ring_push(
                if old(self).process_cpu@.contains_key(pid) {
                    old(self).process_cpu@[pid]@
                } else {
                    Seq::new(PROCESS_HISTORY_LEN as nat, |_i: int| old(self).zero)
                },
                if old(self).process_cpu@.contains_key(pid) {
                    old(self).process_cpu@[pid].spec_capacity()
                } else {
                    PROCESS_HISTORY_LEN as nat
                },
                cpu,
            ),
            final(self).process_cpu@[pid].spec_capacity() == if old(self).process_cpu@.contains_key(
                pid,
            ) {
                old(self).process_cpu@[pid].spec_capacity()
            } else {
                PROCESS_HISTORY_LEN as nat
            },
            final(self).process_cpu@[pid].fill_value() == if old(self).process_cpu@.contains_key(
                pid,
            ) {
                old(self).process_cpu@[pid].fill_value()
            } else {
                old(self).zero
            },
            forall|k: u32|
                k != pid && #[trigger] old(self).process_cpu@.contains_key(k)
                    ==> final(self).process_cpu@[k] == old(self).process_cpu@[k],
            final(self).cpu_global == old(self).cpu_global,
            final(self).cpu_per_core == old(self).cpu_per_core,
            final(self).memory_ratio == old(self).memory_ratio,
            final(self).swap_ratio == old(self).swap_ratio,
            final(self).net_rx == old(self).net_rx,
            final(self).net_tx == old(self).net_tx,
            final(self).disk_read == old(self).disk_read,
            final(self).disk_write == old(self).disk_write,
            final(self).window == old(self).window,
            final(self).zero == old(self).zero,
    {
        match self.process_cpu.remove(&pid) {
            Some(ring) => {
                let mut ring = ring;
                ring.push(cpu);
                self.process_cpu.insert(pid, ring);
            },
            None => {
                let mut ring = RingBuffer::new(PROCESS_HISTORY_LEN, self.zero);
                ring.push(cpu);
                self.process_cpu.insert(pid, ring);
            },
        }
        assert(self.process_cpu@.dom() =~= old(self).process_cpu@.dom().insert(pid));
    }

    /// Drops the histories of processes whose PID is not in `active_pids`.
    pub fn prune_processes(&mut self, active_pids: &[u32])
        ensures
            final(self).process_cpu@ == old(self).process_cpu@.restrict(active_pids@.to_set()),
            final(self).cpu_global == old(self).cpu_global,
            final(self).cpu_per_core == old(self).cpu_per_core,
            final(self).memory_ratio == old(self).memory_ratio,
            final(self).swap_ratio == old(self).swap_ratio,
            final(self).net_rx == old(self).net_rx,
            final(self).net_tx == old(self).net_tx,
            final(self).disk_read == old(self).disk_read,
            final(self).disk_write == old(self).disk_write,
            final(self).window == old(self).window,
            final(self).zero == old(self).zero,
    {
        let ghost orig = self.process_cpu@;
        let mut kept: HashMap<u32, RingBuffer<T>> = HashMap::new();
        let mut i: usize = 0;
        while i < active_pids.len()
            invariant
                i <= active_pids.len(),
                kept@ == orig.restrict(active_pids@.take(i as int).to_set()),
                self.process_cpu@ == orig.remove_keys(active_pids@.take(i as int).to_set()),
                self.cpu_global == old(self).cpu_global,
                self.cpu_per_core == old(self).cpu_per_core,
                self.memory_ratio == old(self).memory_ratio,
                self.swap_ratio == old(self).swap_ratio,
                self.net_rx == old(self).net_rx,
                self.net_tx == old(self).net_tx,
                self.disk_read == old(self).disk_read,
                self.disk_write == old(self).disk_write,
                self.window == old(self).window,
                self.zero == old(self).zero,
            decreases active_pids.len() - i,
        {
            let pid = active_pids[i];
            let ghost before = active_pids@.take(i as int).to_set();
            let ghost after = active_pids@.take(i as int + 1).to_set();
            assert(after =~= before.insert(pid)) by {
                let t = active_pids@.take(i as int);
                assert(active_pids@.take(i as int + 1) =~= t.push(pid));
                assert forall|x: u32| after.contains(x) <==> before.contains(x) || x == pid by {
                    if t.contains(x) {
                        let k = choose|k: int| 0 <= k < t.len() && t[k] == x;
                        assert(t.push(pid)[k] == x);
                    }
                    if x == pid {
                        assert(t.push(pid)[t.len() as int] == x);
                    }
                    if t.push(pid).contains(x) {
                        let k = choose|k: int| 0 <= k < t.len() + 1 && t.push(pid)[k] == x;
                        if k < t.len() {
                            assert(t[k] == x);
                        }
                    }
                }
            }
            match self.process_cpu.remove(&pid) {
                Some(ring) => {
                    kept.insert(pid, ring);
                },
                None => {},
            }
            assert(kept@ =~= orig.restrict(after));
            assert(self.process_cpu@ =~= orig.remove_keys(after));
            i += 1;
        }
        assert(active_pids@.take(active_pids@.len() as int) =~= active_pids@);
        self.process_cpu = kept;
    }

    /// The values of `ring` that the current window covers.
    pub fn windowed_data(&self, ring: &RingBuffer<T>) -> (r: Vec<T>)
        ensures
            r@ == last_n_of(ring@, window_minutes(self.window) * 60 * 2),
    {
        ring.last_n(self.window.sample_count())
    }

    /// Records one sample per core; samples for cores beyond the histories
    /// kept are ignored.
    pub fn record_cpu_cores(&mut self, per_core: &[T])
        ensures
            final(self).cpu_per_core@.len() == old(self).cpu_per_core@.len(),
            forall|i: int|
                0 <= i < old(self).cpu_per_core@.len() ==> (#[trigger] final(self).cpu_per_core@[i])@ == if i < per_core@.len() {
                    ring_push(
                        old(self).cpu_per_core@[i]@,
                        old(self).cpu_per_core@[i].spec_capacity(),
                        per_core@[i],
                    )
                } else {
                    old(self).cpu_per_core@[i]@
                },
            forall|i: int|
                0 <= i < old(self).cpu_per_core@.len() ==> (#[trigger] final(self).cpu_per_core@[i]).spec_capacity() == old(self).cpu_per_core@[i].spec_capacity(),
            final(self).cpu_global == old(self).cpu_global,
            final(self).memory_ratio == old(self).memory_ratio,
            final(self).swap_ratio == old(self).swap_ratio,
            final(self).net_rx == old(self).net_rx,
            final(self).net_tx == old(self).net_tx,
            final(self).disk_read == old(self).disk_read,
            final(self).disk_write == old(self).disk_write,
            final(self).window == old(self).window,
            final(self).process_cpu == old(self).process_cpu,
            final(self).zero == old(self).zero,
    {
        let mut i: usize = 0;
        let n = self.cpu_per_core.len();
        while i < per_core.len()
            invariant
                i <= per_core@.len(),
                n == old(self).cpu_per_core@.len(),
                self.cpu_per_core@.len() == n,
                forall|k: int|
                    0 <= k < n ==> (#[trigger] self.cpu_per_core@[k])@ == if k < i && k
                        < per_core@.len() {
                        ring_push(
                            old(self).cpu_per_core@[k]@,
                            old(self).cpu_per_core@[k].spec_capacity(),
                            per_core@[k],
                        )
                    } else {
                        old(self).cpu_per_core@[k]@
                    },
                forall|k: int|
                    0 <= k < n ==> (#[trigger] self.cpu_per_core@[k]).spec_capacity() == old(self).cpu_per_core@[k].spec_capacity(),
                self.cpu_global == old(self).cpu_global,
                self.memory_ratio == old(self).memory_ratio,
                self.swap_ratio == old(self).swap_ratio,
                self.net_rx == old(self).net_rx,
                self.net_tx == old(self).net_tx,
                self.disk_read == old(self).disk_read,
                self.disk_write == old(self).disk_write,
                self.window == old(self).window,
                self.process_cpu == old(self).process_cpu,
                self.zero == old(self).zero,
            decreases per_core@.len() - i,
        {
            if i < n {
                self.cpu_per_core[i].push(per_core[i]);
            }
            i += 1;
        }
    }
}

} // verus!
