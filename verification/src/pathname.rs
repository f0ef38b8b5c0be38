use vstd::prelude::*;

verus! {

/// Path separator byte `/`.
pub const SEP: u8 = 47;

/// The byte of the component `.`.
pub const DOT: u8 = 46;

/// The abstract component list of a concrete one.
pub open spec fn views_of(vs: Seq<Vec<u8>>) -> Seq<Seq<u8>> {
    vs.map_values(|v: Vec<u8>| v@)
}

/// Whether a split-off component takes part in resolution. Empty components
/// never do; when `drop_dot` is set, the component `.` is ignored as well.
pub open spec fn spec_keep_component(c: Seq<u8>, drop_dot: bool) -> bool {
    c.len() > 0 && !(drop_dot && c == seq![DOT])
}

/// Components of `p[i..]` that take part in resolution, with `cur` the
/// partial component accumulated so far.
pub open spec fn spec_components_from(p: Seq<u8>, i: int, cur: Seq<u8>, drop_dot: bool) -> Seq<
    Seq<u8>,
>
    decreases p.len() - i,
{
    if i < 0 || i >= p.len() {
        if spec_keep_component(cur, drop_dot) {
            seq![cur]
        } else {
            Seq::empty()
        }
    } else if p[i] == SEP {
        (if spec_keep_component(cur, drop_dot) {
            seq![cur]
        } else {
            Seq::empty()
        }) + spec_components_from(p, i + 1, Seq::empty(), drop_dot)
    } else {
        spec_components_from(p, i + 1, cur.push(p[i]), drop_dot)
    }
}

/// The components of path `p` that take part in resolution: `p` split on
/// `/`, with empty components (and, when `drop_dot` is set, `.` components)
/// removed.
pub open spec fn spec_components(p: Seq<u8>, drop_dot: bool) -> Seq<Seq<u8>> {
    spec_components_from(p, 0, Seq::empty(), drop_dot)
}

/// Every component produced by splitting is non-empty, and `.` never
/// survives when `drop_dot` is set. Repeated separators and `.` segments
/// therefore leave no trace in the component list, which is all that path
/// resolution looks at.
pub proof fn lemma_components_kept(p: Seq<u8>, i: int, cur: Seq<u8>, drop_dot: bool)
    ensures
        forall|k: int|
            0 <= k < spec_components_from(p, i, cur, drop_dot).len() ==> spec_keep_component(
                #[trigger] spec_components_from(p, i, cur, drop_dot)[k],
                drop_dot,
            ),
    decreases p.len() - i,
{
    let cs = spec_components_from(p, i, cur, drop_dot);
    if i < 0 || i >= p.len() {
        assert forall|k: int| 0 <= k < cs.len() implies spec_keep_component(
            cs[k],
            drop_dot,
        ) by {
            assert(cs[k] == cur);
        }
    } else if p[i] == SEP {
        lemma_components_kept(p, i + 1, Seq::empty(), drop_dot);
        let head: Seq<Seq<u8>> = if spec_keep_component(cur, drop_dot) {
            seq![cur]
        } else {
            Seq::empty()
        };
        let tail = spec_components_from(p, i + 1, Seq::empty(), drop_dot);
        assert forall|k: int| 0 <= k < cs.len() implies spec_keep_component(
            cs[k],
            drop_dot,
        ) by {
            if k < head.len() {
                assert(cs[k] == cur);
            } else {
                assert(cs[k] == tail[k - head.len()]);
            }
        }
    } else {
        lemma_components_kept(p, i + 1, cur.push(p[i]), drop_dot);
        let tail = spec_components_from(p, i + 1, cur.push(p[i]), drop_dot);
        assert(cs == tail);
        assert forall|k: int| 0 <= k < cs.len() implies spec_keep_component(
            cs[k],
            drop_dot,
        ) by {
            assert(cs[k] == tail[k]);
        }
    }
}

/// Whether a component takes part in resolution.
pub fn keep_component(c: &Vec<u8>, drop_dot: bool) -> (r: bool)
    ensures
        r == spec_keep_component(c@, drop_dot),
{
    if c.len() == 0 {
        return false;
    }
    if drop_dot && c.len() == 1 && c[0] == DOT {
        proof {
            assert(c@ =~= seq![DOT]);
        }
        return false;
    }
    proof {
        if drop_dot && c@ == seq![DOT] {
            assert(c@.len() == 1 && c@[0] == DOT);
        }
    }
    true
}

/// Split a path on `/`, dropping empty components and, when `drop_dot` is
/// set, `.` components.
pub fn split_path(path: &Vec<u8>, drop_dot: bool) -> (r: Vec<Vec<u8>>)
    ensures
        views_of(r@) == spec_components(path@, drop_dot),
{
    let mut r: Vec<Vec<u8>> = Vec::new();
    let mut cur: Vec<u8> = Vec::new();
    let mut i: usize = 0;
    assert(views_of(r@) =~= Seq::<Seq<u8>>::empty());
    while i < path.len()
        invariant
            i <= path@.len(),
            spec_components(path@, drop_dot) == views_of(r@) + spec_components_from(
                path@,
                i as int,
                cur@,
                drop_dot,
            ),
        decreases path@.len() - i,
    {
        let ghost prev = views_of(r@);
        let ghost curv = cur@;
        let b = path[i];
        if b == SEP {
            if keep_component(&cur, drop_dot) {
                r.push(cur);
                cur = Vec::new();
                assert(views_of(r@) =~= prev + seq![curv]);
            } else {
                cur.clear();
            }
            assert(views_of(r@) + spec_components_from(path@, i + 1, cur@, drop_dot)
                =~= spec_components(path@, drop_dot));
        } else {
            cur.push(b);
        }
        i = i + 1;
    }
    let ghost prev = views_of(r@);
    let ghost curv = cur@;
    if keep_component(&cur, drop_dot) {
        r.push(cur);
        assert(views_of(r@) =~= prev + seq![curv]);
    }
    assert(views_of(r@) =~= spec_components(path@, drop_dot));
    r
}

} // verus!
