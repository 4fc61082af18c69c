use vstd::prelude::*;

verus! {

/// Index of the first path separator in `p`, or `p.len()` if there is
/// none.
pub open spec fn first_sep(p: Seq<u8>) -> int
    decreases p.len(),
{
    if p.len() == 0 {
        0
    } else if p[0] == ('/' as u8) {
        0
    } else {
        1 + first_sep(p.skip(1))
    }
}

proof fn lemma_first_sep_bounds(p: Seq<u8>)
    ensures
        0 <= first_sep(p) <= p.len(),
        forall|m: int| 0 <= m < first_sep(p) ==> p[m] != ('/' as u8),
        first_sep(p) < p.len() ==> p[first_sep(p)] == ('/' as u8),
    decreases p.len(),
{
    if p.len() != 0 && p[0] != ('/' as u8) {
        lemma_first_sep_bounds(p.skip(1));
        assert forall|m: int| 0 <= m < first_sep(p) implies p[m] != ('/' as u8) by {
            if m > 0 {
                assert(p.skip(1)[m - 1] == p[m]);
            }
        }
        if first_sep(p) < p.len() {
            assert(p.skip(1)[first_sep(p) - 1] == p[first_sep(p)]);
        }
    }
}

/// If `p[start..end]` is a maximal separator-free run (it ends at the
/// end of `p` or at a separator), the first separator of `p.skip(start)`
/// stands at `end - start`.
proof fn lemma_first_sep_of_run(p: Seq<u8>, start: int, end: int)
    requires
        0 <= start <= end <= p.len(),
        forall|m: int| start <= m < end ==> p[m] != ('/' as u8),
        end < p.len() ==> p[end] == ('/' as u8),
    ensures
        first_sep(p.skip(start)) == end - start,
    decreases end - start,
{
    let s = p.skip(start);
    if start == end {
        if end < p.len() {
            assert(s[0] == p[end]);
        }
    } else {
        assert(s[0] == p[start]);
        assert(s.skip(1) =~= p.skip(start + 1));
        lemma_first_sep_of_run(p, start + 1, end);
    }
}

/// The slash-separated components of a path: maximal non-empty runs of
/// non-separator bytes.  Empty components from redundant, leading or
/// trailing separators do not appear.
pub open spec fn components_of(p: Seq<u8>) -> Seq<Seq<u8>>
    decreases p.len(),
    via components_of_dec
{
    if p.len() == 0 {
        seq![]
    } else if p[0] == ('/' as u8) {
        components_of(p.skip(1))
    } else {
        seq![p.take(first_sep(p))] + components_of(p.skip(first_sep(p)))
    }
}

#[via_fn]
proof fn components_of_dec(p: Seq<u8>) {
    if p.len() != 0 && p[0] != ('/' as u8) {
        lemma_first_sep_bounds(p);
    }
}

/// The terminal path component of a stored name: what follows the last
/// separator, or the whole name if it has none.
pub open spec fn terminal(n: Seq<u8>) -> Seq<u8>
    decreases n.len(),
    via terminal_dec
{
    if first_sep(n) >= n.len() {
        n
    } else {
        terminal(n.skip(first_sep(n) + 1))
    }
}

#[via_fn]
proof fn terminal_dec(n: Seq<u8>) {
    lemma_first_sep_bounds(n);
}

/// If everything from `s` on is separator-free and `s` is either the
/// start of the name or preceded by a separator, the terminal component
/// is `n.skip(s)`.
proof fn lemma_terminal_after_last_sep(n: Seq<u8>, s: int)
    requires
        0 <= s <= n.len(),
        forall|m: int| s <= m < n.len() ==> n[m] != ('/' as u8),
        s > 0 ==> n[s - 1] == ('/' as u8),
    ensures
        terminal(n) == n.skip(s),
    decreases n.len(),
{
    lemma_first_sep_bounds(n);
    let k = first_sep(n);
    if k >= n.len() {
        assert(s == 0) by {
            if s > 0 {
                assert(n[s - 1] != ('/' as u8));
            }
        }
        assert(n.skip(0) =~= n);
    } else {
        assert(n[k] == ('/' as u8));
        assert(k < s);
        let n2 = n.skip(k + 1);
        lemma_terminal_after_last_sep(n2, s - (k + 1));
        assert(n2.skip(s - (k + 1)) =~= n.skip(s));
    }
}

/// Split a path into its slash-separated components.
pub fn split_path(p: &Vec<u8>) -> (r: Vec<Vec<u8>>)
    ensures
        r@.map_values(|c: Vec<u8>| c@) == components_of(p@),
{
    let n = p.len();
    let mut comps: Vec<Vec<u8>> = Vec::new();
    proof {
        assert(p@.skip(0) =~= p@);
        assert(comps@.map_values(|c: Vec<u8>| c@) + components_of(p@.skip(0)) =~= components_of(
            p@,
        ));
    }
    let mut i: usize = 0;
    while i < n
        invariant
            n == p@.len(),
            i <= n,
            comps@.map_values(|c: Vec<u8>| c@) + components_of(p@.skip(i as int))
                == components_of(p@),
        decreases n - i,
    {
        if p[i] == ('/' as u8) {
            proof {
                assert(p@.skip(i as int).skip(1) =~= p@.skip(i + 1 as int));
            }
            i = i + 1;
        } else {
            let start = i;
            let mut comp: Vec<u8> = Vec::new();
            while i < n && p[i] != ('/' as u8)
                invariant
                    n == p@.len(),
                    start <= i <= n,
                    comp@ == p@.subrange(start as int, i as int),
                    forall|m: int| start <= m < i ==> p@[m] != ('/' as u8),
                decreases n - i,
            {
                comp.push(p[i]);
                proof {
                    assert(p@.subrange(start as int, i + 1 as int) =~= p@.subrange(
                        start as int,
                        i as int,
                    ) + seq![p@[i as int]]);
                }
                i = i + 1;
            }
            proof {
                lemma_first_sep_of_run(p@, start as int, i as int);
                let s = p@.skip(start as int);
                assert(s.take(i - start as int) =~= p@.subrange(start as int, i as int));
                assert(s.skip(i - start as int) =~= p@.skip(i as int));
                assert(components_of(s) == seq![comp@] + components_of(p@.skip(i as int)));
            }
            let ghost old_comps = comps@;
            comps.push(comp);
            proof {
                assert(comps@.map_values(|c: Vec<u8>| c@) =~= old_comps.map_values(
                    |c: Vec<u8>| c@,
                ) + seq![comp@]);
            }
        }
    }
    proof {
        assert(p@.skip(n as int) =~= Seq::<u8>::empty());
        assert(comps@.map_values(|c: Vec<u8>| c@) + components_of(p@.skip(n as int)) =~= comps@
            .map_values(|c: Vec<u8>| c@));
    }
    comps
}

/// Whether the terminal path component of `name` equals `comp`.
pub fn component_matches(name: &Vec<u8>, comp: &Vec<u8>) -> (b: bool)
    ensures
        b == (terminal(name@) == comp@),
{
    let n = name.len();
    let mut s: usize = n;
    while s > 0 && name[s - 1] != ('/' as u8)
        invariant
            n == name@.len(),
            s <= n,
            forall|m: int| s <= m < n ==> name@[m] != ('/' as u8),
        decreases s,
    {
        s = s - 1;
    }
    proof {
        lemma_terminal_after_last_sep(name@, s as int);
    }
    if n - s != comp.len() {
        proof {
            assert(terminal(name@).len() == n - s);
        }
        return false;
    }
    let mut k: usize = 0;
    while k < comp.len()
        invariant
            n == name@.len(),
            s <= n,
            comp@.len() == n - s,
            terminal(name@) == name@.skip(s as int),
            k <= comp@.len(),
            forall|m: int| 0 <= m < k ==> name@[s + m] == comp@[m],
        decreases comp.len() - k,
    {
        if name[s + k] != comp[k] {
            proof {
                assert(terminal(name@)[k as int] == name@[s + k]);
            }
            return false;
        }
        k = k + 1;
    }
    proof {
        assert(terminal(name@) =~= comp@);
    }
    true
}

} // verus!
