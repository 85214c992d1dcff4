//! An iterator over `N` elements of a sequence at a time.
use vstd::prelude::*;

verus! {

/// An iterator over `N` elements of a sequence of items at a time.
///
/// The chunks do not overlap. If `N` does not divide the number of items,
/// then the last up to `N-1` items are not returned as a chunk; they become
/// the remainder once the iterator is exhausted.
pub struct ArrayChunks<T, const N: usize> {
    items: Vec<T>,
    position: usize,
    remainder: Option<Vec<T>>,
}

impl<T, const N: usize> ArrayChunks<T, N> {
    #[verifier::type_invariant]
    spec fn inv(self) -> bool {
        &&& N != 0
        &&& self.position <= self.items@.len()
        &&& (self.remainder matches Some(v) ==> v@.len() < N)
    }

    /// The items that the iterator has not pulled yet.
    pub closed spec fn spec_remaining(&self) -> Seq<T> {
        self.items@.subrange(
            if self.position <= self.items@.len() { self.position as int } else { self.items@.len() as int },
            self.items@.len() as int,
        )
    }

    /// The items left over after the iterator was exhausted, if it was.
    pub closed spec fn spec_remainder(&self) -> Option<Seq<T>> {
        match self.remainder {
            Some(v) => Some(v@),
            None => None,
        }
    }

    /// Creates an iterator over chunks of `N` of the given items.
    pub fn new(iter: Vec<T>) -> (r: Self)
        requires
            N != 0,
        ensures
            r.spec_remaining() == iter@,
            r.spec_remainder() is None,
    {
        let r = ArrayChunks { items: iter, position: 0, remainder: None };
        assert(r.spec_remaining() =~= r.items@);
        r
    }

    /// Returns the items of the original sequence that are not going to be
    /// returned as a chunk; set once the iterator is exhausted. It holds at
    /// most `N-1` items.
    pub fn into_remainder(self) -> (r: Option<Vec<T>>)
        ensures
            match r {
                Some(v) => self.spec_remainder() == Some(v@) && v@.len() < N,
                None => self.spec_remainder() is None,
            },
    {
        proof {
            use_type_invariant(&self);
        }
        self.remainder
    }

    /// The number of chunks that the iterator will still return.
    pub fn len(&self) -> (r: usize)
        ensures
            r == self.spec_remaining().len() / (N as nat),
    {
        proof {
            use_type_invariant(self);
        }
        (self.items.len() - self.position) / N
    }

    /// Lower and upper bounds of the number of chunks that the iterator will
    /// still return; both are exact.
    pub fn size_hint(&self) -> (r: (usize, Option<usize>))
        ensures
            r.0 == self.spec_remaining().len() / (N as nat),
            r.1 == Some(r.0),
    {
        let n = self.len();
        (n, Some(n))
    }

    /// Consumes the iterator and returns the number of chunks it would return.
    pub fn count(self) -> (r: usize)
        ensures
            r == self.spec_remaining().len() / (N as nat),
    {
        self.len()
    }
}

impl<T: Copy, const N: usize> ArrayChunks<T, N> {
    /// Returns the next chunk of `N` items. When fewer than `N` items are
    /// left, they are pulled, kept as the remainder unless a remainder was
    /// already kept, and `None` is returned.
    pub fn next(&mut self) -> (r: Option<[T; N]>)
        ensures
            next_step(*old(self), *final(self), r),
    {
        proof {
            use_type_invariant(&*self);
        }
        let mut taken = ArrayChunks { items: Vec::new(), position: 0, remainder: None };
        std::mem::swap(&mut taken, self);
        let ArrayChunks { items, mut position, remainder } = taken;
        let ghost old_remaining = items@.subrange(position as int, items@.len() as int);
        let result = next_chunk::<T, N>(&items, &mut position);
        let (out, new_remainder) = match result {
            Ok(chunk) => (Some(chunk), remainder),
            Err(rest) => {
                let kept = match remainder {
                    Some(r) => Some(r),
                    None => Some(rest),
                };
                (None, kept)
            },
        };
        *self = ArrayChunks { items, position, remainder: new_remainder };
        proof {
            assert(self.spec_remaining() =~= items@.subrange(position as int, items@.len() as int));
            if old_remaining.len() >= N {
                assert(self.spec_remaining() =~= old_remaining.skip(N as int));
                assert(out->0@ =~= old_remaining.take(N as int));
            }
        }
        out
    }
}

/// What one call of `next` does: with at least `N` items left it returns the
/// first `N` of them and keeps the rest; otherwise it returns `None`, pulls
/// the items left and keeps them as the remainder, unless a remainder was
/// already kept.
pub open spec fn next_step<T, const N: usize>(
    old: ArrayChunks<T, N>,
    new: ArrayChunks<T, N>,
    r: Option<[T; N]>,
) -> bool {
    &&& old.spec_remaining().len() >= N ==> {
        &&& r matches Some(chunk) && chunk@ == old.spec_remaining().take(N as int)
        &&& new.spec_remaining() == old.spec_remaining().skip(N as int)
        &&& new.spec_remainder() == old.spec_remainder()
    }
    &&& old.spec_remaining().len() < N ==> {
        &&& r is None
        &&& new.spec_remaining().len() == 0
        &&& new.spec_remainder() == match old.spec_remainder() {
            Some(rem) => Some(rem),
            None => Some(old.spec_remaining()),
        }
    }
}

/// The items of the chunks among `outs`, in order.
pub open spec fn chunks_concat<T, const N: usize>(outs: Seq<Option<[T; N]>>) -> Seq<T>
    decreases outs.len(),
{
    if outs.len() == 0 {
        Seq::empty()
    } else {
        chunks_concat(outs.drop_last()) + match outs.last() {
            Some(chunk) => chunk@,
            None => Seq::empty(),
        }
    }
}

proof fn lemma_run_prefix<T, const N: usize>(
    states: Seq<ArrayChunks<T, N>>,
    outs: Seq<Option<[T; N]>>,
    q: int,
    i: int,
)
    requires
        N != 0,
        states.len() == outs.len() + 1,
        0 <= i <= q < outs.len(),
        states[0].spec_remainder() is None,
        forall|j: int| 0 <= j < outs.len() ==> #[trigger] next_step(states[j], states[j + 1], outs[j]),
        forall|j: int| 0 <= j < q ==> (#[trigger] outs[j]) is Some,
    ensures
        i * N <= states[0].spec_remaining().len(),
        states[i].spec_remaining() == states[0].spec_remaining().skip(i * N),
        states[i].spec_remainder() is None,
        chunks_concat(outs.take(i)) == states[0].spec_remaining().take(i * N),
    decreases i,
{
    let s = states[0].spec_remaining();
    if i == 0 {
        assert(i * N == 0) by (nonlinear_arith)
            requires
                i == 0,
        ;
        assert(s.skip(0) =~= s);
        assert(outs.take(0) =~= Seq::<Option<[T; N]>>::empty());
        assert(s.take(0) =~= Seq::<T>::empty());
    } else {
        let k = i - 1;
        lemma_run_prefix(states, outs, q, k);
        assert(next_step(states[k], states[k + 1], outs[k]));
        assert(outs[k] is Some);
        let rem = states[k].spec_remaining();
        assert(rem.len() >= N);
        assert(i * N == k * N + N) by (nonlinear_arith)
            requires
                i == k + 1,
        ;
        let chunk = outs[k]->0;
        assert(chunk@ == rem.take(N as int));
        assert(states[i].spec_remaining() =~= s.skip(i * N));
        assert(outs.take(i).drop_last() =~= outs.take(k));
        assert(s.take(i * N) =~= s.take(k * N) + rem.take(N as int));
    }
}

/// A run of `next` calls on a fresh iterator returns the items of the
/// original sequence in consecutive, non-overlapping chunks of `N`, as many
/// chunks as `N` fits into the number of items; the first `None` then keeps
/// the rest, fewer than `N` items, as the remainder, and every later call
/// returns `None` and keeps that remainder.
pub proof fn lemma_chunks_run<T, const N: usize>(
    states: Seq<ArrayChunks<T, N>>,
    outs: Seq<Option<[T; N]>>,
    q: int,
)
    requires
        N != 0,
        states.len() == outs.len() + 1,
        0 <= q < outs.len(),
        states[0].spec_remainder() is None,
        forall|j: int| 0 <= j < outs.len() ==> #[trigger] next_step(states[j], states[j + 1], outs[j]),
        forall|j: int| 0 <= j < q ==> (#[trigger] outs[j]) is Some,
        outs[q] is None,
    ensures
        q == (states[0].spec_remaining().len() as int) / (N as int),
        chunks_concat(outs.take(q)) == states[0].spec_remaining().take(q * N),
        forall|j: int| q <= j < outs.len() ==> (#[trigger] outs[j]) is None,
        forall|j: int|
            q < j <= outs.len() ==> #[trigger] states[j].spec_remainder() == Some(
                states[0].spec_remaining().skip(q * N),
            ),
        states[0].spec_remaining().skip(q * N).len() < N,
{
    let s = states[0].spec_remaining();
    lemma_run_prefix(states, outs, q, q);
    assert(next_step(states[q], states[q + 1], outs[q]));
    let rest = states[q].spec_remaining();
    assert(rest.len() < N);
    let len = s.len() as int;
    let n = N as int;
    assert(q == len / n) by (nonlinear_arith)
        requires
            0 <= q * n <= len,
            len - q * n < n,
            n > 0,
            q >= 0,
    ;
    assert forall|j: int| q < j <= outs.len() implies #[trigger] states[j].spec_remainder() == Some(s.skip(q * N)) && states[j].spec_remaining().len() == 0 by {
        lemma_run_tail(states, outs, q, j);
    }
    assert forall|j: int| q <= j < outs.len() implies (#[trigger] outs[j]) is None by {
        if j > q {
            lemma_run_tail(states, outs, q, j);
        }
        assert(next_step(states[j], states[j + 1], outs[j]));
    }
}

proof fn lemma_run_tail<T, const N: usize>(
    states: Seq<ArrayChunks<T, N>>,
    outs: Seq<Option<[T; N]>>,
    q: int,
    j: int,
)
    requires
        N != 0,
        states.len() == outs.len() + 1,
        0 <= q < j <= outs.len(),
        states[q].spec_remaining().len() < N,
        states[q].spec_remainder() is None,
        forall|i: int| 0 <= i < outs.len() ==> #[trigger] next_step(states[i], states[i + 1], outs[i]),
    ensures
        states[j].spec_remainder() == Some(states[q].spec_remaining()),
        states[j].spec_remaining().len() == 0,
    decreases j,
{
    let i = j - 1;
    assert(next_step(states[i], states[i + 1], outs[i]));
    if j > q + 1 {
        lemma_run_tail(states, outs, q, j - 1);
    }
}

/// Pulls `N` items of `items` from `position` on and returns them as an
/// array. When fewer than `N` items are left, pulls them all and returns them
/// as `Err`.
fn next_chunk<T: Copy, const N: usize>(items: &Vec<T>, position: &mut usize) -> (r: Result<[T; N], Vec<T>>)
    requires
        N != 0,
        *old(position) <= items@.len(),
    ensures
        *final(position) <= items@.len(),
        items@.len() - *old(position) >= N ==> {
            &&& r matches Ok(chunk) && chunk@ == items@.subrange(*old(position) as int, *old(position) + N)
            &&& *final(position) == *old(position) + N
        },
        items@.len() - *old(position) < N ==> {
            &&& r matches Err(rest) && rest@ == items@.subrange(*old(position) as int, items@.len() as int)
            &&& *final(position) == items@.len()
        },
{
    let start = *position;
    if items.len() - start < N {
        let mut rest: Vec<T> = Vec::new();
        let mut i = start;
        while i < items.len()
            invariant
                start <= i <= items@.len(),
                rest@ == items@.subrange(start as int, i as int),
            decreases items@.len() - i,
        {
            rest.push(items[i]);
            i += 1;
            assert(rest@ =~= items@.subrange(start as int, i as int));
        }
        *position = items.len();
        return Err(rest);
    }
    let mut chunk: [T; N] = [items[start]; N];
    let mut i: usize = 0;
    while i < N
        invariant
            start + N <= items.len(),
            i <= N,
            forall|k: int| 0 <= k < i ==> #[trigger] chunk@[k] == items@[start + k],
        decreases N - i,
    {
        chunk[i] = items[start + i];
        i += 1;
    }
    proof {
        assert(chunk@ =~= items@.subrange(start as int, start + N));
    }
    *position = start + N;
    Ok(chunk)
}

} // verus!
