use vstd::prelude::*;

verus! {

/// `p` occurs as a contiguous substring of `h`.
pub open spec fn contains_seq(h: Seq<char>, p: Seq<char>) -> bool {
    exists|k: int|
        0 <= k && k + p.len() <= h.len() && #[trigger] h.subrange(k, k + p.len() as int) == p
}

/// The text `h` with every occurrence of the non-empty pattern `p` replaced
/// by `s`, scanning left to right without overlap; an empty pattern leaves
/// the text unchanged.
pub open spec fn replaced(h: Seq<char>, p: Seq<char>, s: Seq<char>) -> Seq<char>
    decreases h.len(),
{
    if p.len() == 0 || h.len() == 0 {
        h
    } else if p.len() <= h.len() && h.subrange(0, p.len() as int) == p {
        s + replaced(h.skip(p.len() as int), p, s)
    } else {
        seq![h[0]] + replaced(h.skip(1), p, s)
    }
}

/// A text without any occurrence of the pattern is left unchanged by
/// replacement.
pub proof fn lemma_replace_absent(h: Seq<char>, p: Seq<char>, s: Seq<char>)
    requires
        p.len() > 0,
        !contains_seq(h, p),
    ensures
        replaced(h, p, s) == h,
    decreases h.len(),
{
    if h.len() == 0 {
    } else if p.len() <= h.len() && h.subrange(0, p.len() as int) == p {
        assert(0 + p.len() <= h.len() && h.subrange(0, 0 + p.len() as int) == p);
        assert(contains_seq(h, p));
    } else {
        assert forall|k: int|
            0 <= k && k + p.len() <= h.skip(1).len() implies #[trigger] h.skip(1).subrange(
            k,
            k + p.len() as int,
        ) != p by {
            assert(h.skip(1).subrange(k, k + p.len() as int) =~= h.subrange(
                k + 1,
                k + 1 + p.len() as int,
            ));
        }
        assert(!contains_seq(h.skip(1), p));
        lemma_replace_absent(h.skip(1), p, s);
        assert(seq![h[0]] + h.skip(1) =~= h);
    }
}

/// Appends all characters of `src` to `dst`.
pub fn append_chars(dst: &mut Vec<char>, src: &Vec<char>)
    ensures
        final(dst)@ == old(dst)@ + src@,
{
    let mut i: usize = 0;
    while i < src.len()
        invariant
            i <= src@.len(),
            dst@ == old(dst)@ + src@.take(i as int),
        decreases src@.len() - i,
    {
        dst.push(src[i]);
        proof {
            assert(src@.take(i as int).push(src@[i as int]) =~= src@.take(i + 1));
        }
        i = i + 1;
    }
    proof {
        assert(src@.take(src@.len() as int) =~= src@);
    }
}

/// The characters of `h` starting at `i` begin with `p`.
fn matches_at(h: &Vec<char>, i: usize, p: &Vec<char>) -> (r: bool)
    requires
        i + p@.len() <= h@.len(),
    ensures
        r == (h@.subrange(i as int, i as int + p@.len() as int) == p@),
{
    let hl = h.len();
    let mut j: usize = 0;
    while j < p.len()
        invariant
            j <= p@.len(),
            i + p@.len() <= h@.len(),
            hl == h@.len(),
            forall|k: int| 0 <= k < j ==> h@[i + k] == p@[k],
        decreases p@.len() - j,
    {
        if h[i + j] != p[j] {
            proof {
                assert(h@.subrange(i as int, i as int + p@.len() as int)[j as int] == h@[i + j]);
            }
            return false;
        }
        j = j + 1;
    }
    proof {
        assert(h@.subrange(i as int, i as int + p@.len() as int) =~= p@);
    }
    true
}

/// Substring search: decides `contains_seq` on concrete character vectors.
pub fn contains_chars(h: &Vec<char>, p: &Vec<char>) -> (r: bool)
    ensures
        r == contains_seq(h@, p@),
{
    if p.len() == 0 {
        proof {
            assert(0 + p@.len() <= h@.len() && h@.subrange(0, 0 + p@.len() as int) =~= p@);
        }
        return true;
    }
    if p.len() > h.len() {
        proof {
            assert forall|k: int| !(0 <= k && k + p@.len() <= h@.len() && #[trigger] h@.subrange(
                k,
                k + p@.len() as int,
            ) == p@) by {}
        }
        return false;
    }
    let last = h.len() - p.len();
    let mut i: usize = 0;
    while i <= last
        invariant
            1 <= p@.len() <= h@.len(),
            last == h@.len() - p@.len(),
            h@.len() <= usize::MAX,
            i <= last + 1,
            forall|k: int| 0 <= k < i ==> #[trigger] h@.subrange(k, k + p@.len() as int) != p@,
        decreases last + 1 - i,
    {
        if matches_at(h, i, p) {
            proof {
                assert(0 <= i as int && i as int + p@.len() <= h@.len() && h@.subrange(
                    i as int,
                    i as int + p@.len() as int,
                ) == p@);
            }
            return true;
        }
        i = i + 1;
    }
    proof {
        assert forall|k: int|
            0 <= k && k + p@.len() <= h@.len() implies #[trigger] h@.subrange(
            k,
            k + p@.len() as int,
        ) != p@ by {
            assert(k < i);
        }
    }
    false
}

/// Left-to-right, non-overlapping replacement of `p` by `s` in `h`, exactly
/// as `replaced` states it.
pub fn replace_all(h: &Vec<char>, p: &Vec<char>, s: &Vec<char>) -> (r: Vec<char>)
    ensures
        r@ == replaced(h@, p@, s@),
{
    let mut out: Vec<char> = Vec::new();
    if p.len() == 0 {
        append_chars(&mut out, h);
        return out;
    }
    let mut i: usize = 0;
    proof {
        assert(h@.skip(0) =~= h@);
    }
    while i < h.len()
        invariant
            p@.len() >= 1,
            i <= h@.len(),
            replaced(h@, p@, s@) == out@ + replaced(h@.skip(i as int), p@, s@),
        decreases h@.len() - i,
    {
        let ghost tail = h@.skip(i as int);
        if h.len() - i >= p.len() && matches_at(h, i, p) {
            proof {
                assert(tail.subrange(0, p@.len() as int) =~= h@.subrange(
                    i as int,
                    i as int + p@.len() as int,
                ));
                assert(tail.skip(p@.len() as int) =~= h@.skip(i as int + p@.len() as int));
                assert(replaced(tail, p@, s@) == s@ + replaced(
                    h@.skip(i as int + p@.len() as int),
                    p@,
                    s@,
                ));
            }
            append_chars(&mut out, s);
            i = i + p.len();
        } else {
            proof {
                if p@.len() <= tail.len() {
                    assert(tail.subrange(0, p@.len() as int) =~= h@.subrange(
                        i as int,
                        i as int + p@.len() as int,
                    ));
                }
                assert(tail[0] == h@[i as int]);
                assert(tail.skip(1) =~= h@.skip(i as int + 1));
                assert(replaced(tail, p@, s@) == seq![h@[i as int]] + replaced(
                    h@.skip(i as int + 1),
                    p@,
                    s@,
                ));
            }
            out.push(h[i]);
            i = i + 1;
        }
    }
    proof {
        assert(h@.skip(h@.len() as int) =~= Seq::<char>::empty());
        assert(replaced(Seq::<char>::empty(), p@, s@) == Seq::<char>::empty());
        assert(out@ + Seq::<char>::empty() =~= out@);
    }
    out
}

/// Character-for-character equality of two vectors.
pub fn eq_chars(a: &Vec<char>, b: &Vec<char>) -> (r: bool)
    ensures
        r == (a@ == b@),
{
    if a.len() != b.len() {
        return false;
    }
    let mut i: usize = 0;
    while i < a.len()
        invariant
            a@.len() == b@.len(),
            i <= a@.len(),
            forall|k: int| 0 <= k < i ==> a@[k] == b@[k],
        decreases a@.len() - i,
    {
        if a[i] != b[i] {
            return false;
        }
        i = i + 1;
    }
    proof {
        assert(a@ =~= b@);
    }
    true
}

/// Relies on str::chars: a string's characters, in order; the view of a
/// string slice is exactly that character sequence.
#[verifier::external_body]
pub fn chars_of(s: &str) -> (r: Vec<char>)
    ensures
        r@ == s@,
{
    s.chars().collect()
}

/// Relies on the FromIterator impl of String for char: collecting characters
/// builds the string whose view is that character sequence.
#[verifier::external_body]
pub fn string_of(v: &Vec<char>) -> (r: String)
    ensures
        r@ == v@,
{
    v.iter().collect()
}

} // verus!
