//! Copying runs of audio samples. The crate never computes with a sample, so
//! everything that carries samples is generic in their type.

use vstd::prelude::*;

verus! {

/// Appends `source[from..to]` to `target`.
pub fn append_range<S: Copy>(target: &mut Vec<S>, source: &[S], from: usize, to: usize)
    requires
        from <= to <= source@.len(),
    ensures
        final(target)@ == old(target)@ + source@.subrange(from as int, to as int),
{
    let ghost before = target@;
    let mut i: usize = from;
    assert(before + source@.subrange(from as int, from as int) == before);
    while i < to
        invariant
            from <= i <= to <= source@.len(),
            target@ == before + source@.subrange(from as int, i as int),
        decreases to - i,
    {
        target.push(source[i]);
        i += 1;
        assert(target@ == before + source@.subrange(from as int, i as int));
    }
}

/// Appends all of `source` to `target`.
pub fn append_all<S: Copy>(target: &mut Vec<S>, source: &[S])
    ensures
        final(target)@ == old(target)@ + source@,
{
    append_range(target, source, 0, source.len());
    assert(source@.subrange(0, source@.len() as int) == source@);
}

/// A copy of `source[from..to]`.
pub fn copy_range<S: Copy>(source: &[S], from: usize, to: usize) -> (r: Vec<S>)
    requires
        from <= to <= source@.len(),
    ensures
        r@ == source@.subrange(from as int, to as int),
{
    let mut r: Vec<S> = Vec::new();
    append_range(&mut r, source, from, to);
    r
}

/// Removes the first `n` samples.
pub fn drop_front<S: Copy>(v: &mut Vec<S>, n: usize)
    requires
        n <= old(v)@.len(),
    ensures
        final(v)@ == old(v)@.skip(n as int),
{
    let rest = copy_range(v.as_slice(), n, v.len());
    assert(rest@ == v@.skip(n as int));
    *v = rest;
}

/// Removes samples from the front until at most `max` are left.
pub fn keep_last<S: Copy>(v: &mut Vec<S>, max: usize)
    ensures
        final(v)@ == last_of(old(v)@, max as int),
{
    if v.len() > max {
        let excess: usize = v.len() - max;
        drop_front(v, excess);
    }
}

/// The last `max` elements of `s`, or all of them where there are fewer.
pub open spec fn last_of<S>(s: Seq<S>, max: int) -> Seq<S> {
    if s.len() > max {
        s.skip(s.len() - max)
    } else {
        s
    }
}

} // verus!
