//! Cutting a stream of sample chunks into disjoint windows of a fixed size.
use vstd::prelude::*;

verus! {

/// Default number of samples in one analysis window.
pub const DEFAULT_WINDOW_SIZE: usize = 512;

/// The complete windows of `n` samples that `s` splits into, in order.
pub open spec fn windows_of<S>(s: Seq<S>, n: nat) -> Seq<Seq<S>>
    decreases s.len(),
{
    if n == 0 || s.len() < n {
        Seq::empty()
    } else {
        seq![s.take(n as int)] + windows_of(s.skip(n as int), n)
    }
}

/// What is left of `s` after its complete windows of `n` samples.
pub open spec fn leftover_of<S>(s: Seq<S>, n: nat) -> Seq<S>
    decreases s.len(),
{
    if n == 0 || s.len() < n {
        s
    } else {
        leftover_of(s.skip(n as int), n)
    }
}

/// Windows and leftover after one more sample.
proof fn lemma_windows_push<S>(s: Seq<S>, x: S, n: nat)
    requires
        n > 0,
    ensures
        leftover_of(s, n).len() < n,
        leftover_of(s, n).len() + 1 == n ==> windows_of(s.push(x), n) == windows_of(s, n).push(
            leftover_of(s, n).push(x),
        ) && leftover_of(s.push(x), n) == Seq::<S>::empty(),
        leftover_of(s, n).len() + 1 < n ==> windows_of(s.push(x), n) == windows_of(s, n)
            && leftover_of(s.push(x), n) == leftover_of(s, n).push(x),
    decreases s.len(),
{
    if s.len() < n {
        if s.len() + 1 == n {
            assert(s.push(x).skip(n as int) =~= Seq::<S>::empty());
            assert(s.push(x).take(n as int) =~= s.push(x));
            let e = Seq::<S>::empty();
            assert(windows_of(e, n) == Seq::<Seq<S>>::empty());
            assert(leftover_of(e, n) == e);
            assert(windows_of(s.push(x), n) == seq![s.push(x).take(n as int)] + windows_of(
                s.push(x).skip(n as int),
                n,
            ));
            assert(leftover_of(s.push(x), n) == leftover_of(s.push(x).skip(n as int), n));
            assert(windows_of(s, n) == Seq::<Seq<S>>::empty());
            assert(leftover_of(s, n) == s);
            assert(windows_of(s.push(x), n) =~= windows_of(s, n).push(s.push(x)));
        }
    } else {
        assert(s.push(x).skip(n as int) =~= s.skip(n as int).push(x));
        assert(s.push(x).take(n as int) =~= s.take(n as int));
        lemma_windows_push(s.skip(n as int), x, n);
        if leftover_of(s, n).len() + 1 == n {
            assert(windows_of(s.push(x), n) =~= windows_of(s, n).push(leftover_of(s, n).push(x)));
        }
    }
}

/// Cutting `s` into windows of `n` samples is exact: every window holds `n`
/// samples, the windows followed by the leftover give back `s` with nothing
/// lost or repeated, there are `s.len() / n` windows, and `s.len() % n`
/// samples are left over.
pub proof fn lemma_windows_exact<S>(s: Seq<S>, n: nat)
    requires
        n > 0,
    ensures
        forall|i: int|
            0 <= i < windows_of(s, n).len() ==> (#[trigger] windows_of(s, n)[i]).len() == n,
        windows_of(s, n).flatten() + leftover_of(s, n) == s,
        windows_of(s, n).len() == s.len() / n,
        leftover_of(s, n).len() == s.len() % n,
    decreases s.len(),
{
    lemma_windows_count(s, n);
    vstd::arithmetic::div_mod::lemma_fundamental_div_mod_converse(
        s.len() as int,
        n as int,
        windows_of(s, n).len() as int,
        leftover_of(s, n).len() as int,
    );
    if s.len() >= n {
        let rest = s.skip(n as int);
        lemma_windows_exact(rest, n);
        let w = windows_of(s, n);
        assert(w.first() == s.take(n as int));
        assert(w.drop_first() =~= windows_of(rest, n));
        assert(w.flatten() == s.take(n as int) + windows_of(rest, n).flatten());
        assert(s =~= s.take(n as int) + rest);
        assert(w.flatten() + leftover_of(s, n) =~= s);
    }
}

/// Windows times their size, plus the leftover, account for every sample.
proof fn lemma_windows_count<S>(s: Seq<S>, n: nat)
    requires
        n > 0,
    ensures
        windows_of(s, n).len() * n + leftover_of(s, n).len() == s.len(),
        leftover_of(s, n).len() < n,
    decreases s.len(),
{
    if s.len() >= n {
        let rest = s.skip(n as int);
        lemma_windows_count(rest, n);
        vstd::arithmetic::mul::lemma_mul_is_distributive_add_other_way(
            n as int,
            1,
            windows_of(rest, n).len() as int,
        );
    }
}

/// Feeding `a` and then `b` emits the same windows, and leaves the same
/// samples buffered, as feeding `a + b` at once.
pub proof fn lemma_feed_split<S>(a: Seq<S>, b: Seq<S>, n: nat)
    requires
        n > 0,
    ensures
        windows_of(a, n) + windows_of(leftover_of(a, n) + b, n) == windows_of(a + b, n),
        leftover_of(leftover_of(a, n) + b, n) == leftover_of(a + b, n),
    decreases a.len(),
{
    if a.len() < n {
        assert(windows_of(a, n) + windows_of(leftover_of(a, n) + b, n) =~= windows_of(a + b, n));
    } else {
        let rest = a.skip(n as int);
        lemma_feed_split(rest, b, n);
        assert((a + b).take(n as int) =~= a.take(n as int));
        assert((a + b).skip(n as int) =~= rest + b);
        assert(windows_of(a, n) + windows_of(leftover_of(a, n) + b, n) =~= windows_of(a + b, n));
    }
}

/// Windows emitted by an assembler, fresh and of window size `n`, that is fed
/// `chunks` one after another.
pub open spec fn stream_windows<S>(chunks: Seq<Seq<S>>, n: nat) -> Seq<Seq<S>>
    decreases chunks.len(),
{
    if chunks.len() == 0 {
        Seq::empty()
    } else {
        stream_windows(chunks.drop_last(), n) + windows_of(
            stream_leftover(chunks.drop_last(), n) + chunks.last(),
            n,
        )
    }
}

/// Samples left buffered in an assembler, fresh and of window size `n`, that
/// is fed `chunks` one after another.
pub open spec fn stream_leftover<S>(chunks: Seq<Seq<S>>, n: nat) -> Seq<S>
    decreases chunks.len(),
{
    if chunks.len() == 0 {
        Seq::empty()
    } else {
        leftover_of(stream_leftover(chunks.drop_last(), n) + chunks.last(), n)
    }
}

/// Feeding a stream chunk by chunk into a fresh assembler emits exactly the
/// windows of the whole stream, in order, with no sample lost or repeated at a
/// chunk boundary, and leaves `total % n` samples buffered and not emitted.
pub proof fn lemma_stream_windowing<S>(chunks: Seq<Seq<S>>, n: nat)
    requires
        n > 0,
    ensures
        stream_windows(chunks, n) == windows_of(chunks.flatten(), n),
        stream_leftover(chunks, n) == leftover_of(chunks.flatten(), n),
        stream_windows(chunks, n).flatten() + stream_leftover(chunks, n) == chunks.flatten(),
        stream_leftover(chunks, n).len() == chunks.flatten().len() % n,
    decreases chunks.len(),
{
    if chunks.len() == 0 {
        let e = Seq::<S>::empty();
        assert(windows_of(e, n) == Seq::<Seq<S>>::empty());
        assert(leftover_of(e, n) == e);
    } else {
        let prev = chunks.drop_last();
        lemma_stream_windowing(prev, n);
        assert(chunks =~= prev.push(chunks.last()));
        prev.lemma_flatten_push(chunks.last());
        lemma_feed_split(prev.flatten(), chunks.last(), n);
    }
    lemma_windows_exact(chunks.flatten(), n);
}

/// Gathers samples, chunk by chunk, into disjoint windows of a fixed size.
pub struct WindowAssembler<S> {
    window_size: usize,
    pending: Vec<S>,
}

impl<S> WindowAssembler<S> {
    #[verifier::type_invariant]
    spec fn inv(&self) -> bool {
        0 < self.window_size && self.pending@.len() < self.window_size
    }

    /// Number of samples in each window.
    pub closed spec fn window_len(&self) -> nat {
        self.window_size as nat
    }

    /// Samples received that do not yet fill a window, oldest first.
    pub closed spec fn buffered(&self) -> Seq<S> {
        self.pending@
    }
}

impl<S: Copy> WindowAssembler<S> {
    /// An assembler with nothing buffered that emits windows of `window_size` samples.
    pub fn new(window_size: usize) -> (r: Self)
        requires
            window_size > 0,
        ensures
            r.window_len() == window_size,
            r.buffered() == Seq::<S>::empty(),
    {
        WindowAssembler { window_size, pending: Vec::new() }
    }

    /// Number of samples in each window.
    pub fn window_size(&self) -> (r: usize)
        ensures
            r == self.window_len(),
            r > 0,
    {
        proof {
            use_type_invariant(self);
        }
        self.window_size
    }

    /// Number of samples buffered towards the next window.
    pub fn buffered_len(&self) -> (r: usize)
        ensures
            r == self.buffered().len(),
            r < self.window_len(),
    {
        proof {
            use_type_invariant(self);
        }
        self.pending.len()
    }

    /// Drops the samples buffered towards the next window, without emitting them.
    pub fn reset(&mut self)
        ensures
            final(self).window_len() == old(self).window_len(),
            final(self).buffered() == Seq::<S>::empty(),
    {
        proof {
            use_type_invariant(&*self);
        }
        self.pending = Vec::new();
    }

    /// Appends `chunk` to the buffered samples and hands out, in order, every
    /// window that is now complete; what does not fill a window stays buffered.
    pub fn feed(&mut self, chunk: &[S]) -> (windows: Vec<Vec<S>>)
        ensures
            final(self).window_len() == old(self).window_len(),
            windows@.map_values(|w: Vec<S>| w@) == windows_of(
                old(self).buffered() + chunk@,
                old(self).window_len(),
            ),
            final(self).buffered() == leftover_of(
                old(self).buffered() + chunk@,
                old(self).window_len(),
            ),
    {
        proof {
            use_type_invariant(&*self);
        }
        let n = self.window_size;
        let ghost start = self.pending@;
        let mut buf: Vec<S> = Vec::new();
        std::mem::swap(&mut buf, &mut self.pending);
        let mut windows: Vec<Vec<S>> = Vec::new();
        proof {
            assert(start =~= start + chunk@.take(0));
            lemma_leftover_short(start, n as nat);
        }
        let mut j: usize = 0;
        while j < chunk.len()
            invariant
                n == self.window_size,
                0 < n,
                self.pending@ == Seq::<S>::empty(),
                j <= chunk@.len(),
                buf@.len() < n,
                windows@.map_values(|w: Vec<S>| w@) == windows_of(start + chunk@.take(j as int), n as nat),
                buf@ == leftover_of(start + chunk@.take(j as int), n as nat),
            decreases chunk.len() - j,
        {
            let x = chunk[j];
            let ghost seen = start + chunk@.take(j as int);
            proof {
                assert(start + chunk@.take(j + 1) =~= seen.push(x));
                lemma_windows_push(seen, x, n as nat);
            }
            buf.push(x);
            if buf.len() == n {
                let mut full: Vec<S> = Vec::new();
                std::mem::swap(&mut full, &mut buf);
                let ghost before = windows@;
                windows.push(full);
                proof {
                    assert(windows@.map_values(|w: Vec<S>| w@) =~= before.map_values(
                        |w: Vec<S>| w@,
                    ).push(full@));
                }
            }
            j = j + 1;
        }
        proof {
            assert(chunk@.take(j as int) =~= chunk@);
        }
        self.pending = buf;
        windows
    }
}

/// A sequence shorter than a window is all leftover.
proof fn lemma_leftover_short<S>(s: Seq<S>, n: nat)
    requires
        s.len() < n,
    ensures
        windows_of(s, n) == Seq::<Seq<S>>::empty(),
        leftover_of(s, n) == s,
{
}

/// Size of an analysis window, with the padding that the estimator uses for
/// overlap in its correlation: always half the window.
#[derive(Clone, Copy, Debug, PartialEq, Eq)]
pub struct WindowShape {
    window_size: usize,
}

impl WindowShape {
    #[verifier::type_invariant]
    spec fn inv(&self) -> bool {
        self.window_size > 0
    }

    /// Number of samples in a window.
    pub closed spec fn size_spec(&self) -> nat {
        self.window_size as nat
    }

    /// A shape of `window_size` samples.
    pub fn new(window_size: usize) -> (r: WindowShape)
        requires
            window_size > 0,
        ensures
            r.size_spec() == window_size,
    {
        WindowShape { window_size }
    }

    /// Number of samples in a window.
    pub fn window_size(&self) -> (r: usize)
        ensures
            r == self.size_spec(),
            r > 0,
    {
        proof {
            use_type_invariant(self);
        }
        self.window_size
    }

    /// Padding used by the estimator: half the window, rounded down.
    pub fn padding_size(&self) -> (r: usize)
        ensures
            r == self.size_spec() / 2,
    {
        self.window_size / 2
    }

    /// An assembler, with nothing buffered, for windows of this shape.
    pub fn assembler<S: Copy>(&self) -> (r: WindowAssembler<S>)
        ensures
            r.window_len() == self.size_spec(),
            r.buffered() == Seq::<S>::empty(),
    {
        WindowAssembler::new(self.window_size())
    }
}

impl Default for WindowShape {
    /// The default shape: windows of 512 samples, padded by 256.
    fn default() -> (r: WindowShape)
        ensures
            r.size_spec() == DEFAULT_WINDOW_SIZE,
    {
        WindowShape { window_size: DEFAULT_WINDOW_SIZE }
    }
}

} // verus!
