//! Which intersection a ray query accepts.
//!
//! Values of the ray parameter `t` appear here as order keys: integers whose
//! order is the order of the parameters they stand for. The geometry that
//! produces them (solving the ray-sphere quadratic) happens elsewhere; this
//! module decides which root of a sphere is taken inside an open window
//! `(t_min, t_max)`, and which object of a scene is the closest hit.
use vstd::prelude::*;

verus! {

broadcast use vstd::seq_lib::to_multiset_contains;

/// The order key of a single-precision float given by its bit pattern:
/// the magnitude bits, negated where the sign bit is set. On floats that are
/// not NaN, keys compare as the floats do, and both zeros get the key 0.
pub open spec fn key_of(bits: u32) -> int {
    if bits >= 0x8000_0000 {
        -((bits - 0x8000_0000) as int)
    } else {
        bits as int
    }
}

/// The order key of the float whose bit pattern is `bits`.
pub fn order_key(bits: u32) -> (r: i64)
    ensures
        r == key_of(bits),
{
    if bits >= 0x8000_0000 {
        -((bits - 0x8000_0000) as i64)
    } else {
        bits as i64
    }
}

/// The two roots of a ray-sphere quadratic, `near` being the smaller one.
#[derive(Clone, Copy, Debug, PartialEq, Eq)]
pub struct Roots {
    pub near: i64,
    pub far: i64,
}

/// The closest hit of a scene query: which object, and at what `t`.
#[derive(Clone, Copy, Debug, PartialEq, Eq)]
pub struct Hit {
    pub index: usize,
    pub t: i64,
}

/// `t` lies strictly between `t_min` and `t_max`.
pub open spec fn inside(t: i64, t_min: i64, t_max: i64) -> bool {
    t_min < t && t < t_max
}

/// The root a sphere reports in the window: the near one where it lies in
/// the window, else the far one where it does, else none.
pub open spec fn accepted(r: Roots, t_min: i64, t_max: i64) -> Option<i64> {
    if inside(r.near, t_min, t_max) {
        Some(r.near)
    } else if inside(r.far, t_min, t_max) {
        Some(r.far)
    } else {
        None
    }
}

/// What one object of a scene reports; `None` stands for an object that
/// the ray misses altogether.
pub open spec fn candidate(c: Option<Roots>, t_min: i64, t_max: i64) -> Option<i64> {
    match c {
        Some(r) => accepted(r, t_min, t_max),
        None => None,
    }
}

/// The smaller of two reported values, where either may be absent.
pub open spec fn nearer(a: Option<i64>, b: Option<i64>) -> Option<i64> {
    match (a, b) {
        (Some(x), Some(y)) => Some(if y < x { y } else { x }),
        (Some(x), None) => Some(x),
        (None, _) => b,
    }
}

/// The smallest `t` that any object of `s` reports in the window.
pub open spec fn nearest(s: Seq<Option<Roots>>, t_min: i64, t_max: i64) -> Option<i64>
    decreases s.len(),
{
    if s.len() == 0 {
        None
    } else {
        nearer(nearest(s.drop_last(), t_min, t_max), candidate(s.last(), t_min, t_max))
    }
}

/// Every object's roots come smallest first.
pub open spec fn all_ordered(s: Seq<Option<Roots>>) -> bool {
    forall|j: int| 0 <= j < s.len() && (#[trigger] s[j]) is Some ==> s[j]->0.near <= s[j]->0.far
}

impl Roots {
    /// The sphere's answer to a query on the window `(t_min, t_max)`.
    pub fn hit(&self, t_min: i64, t_max: i64) -> (r: Option<i64>)
        ensures
            r == accepted(*self, t_min, t_max),
            r matches Some(t) ==> inside(t, t_min, t_max),
    {
        if self.near < t_max && self.near > t_min {
            Some(self.near)
        } else if self.far < t_max && self.far > t_min {
            Some(self.far)
        } else {
            None
        }
    }
}

/// Querying an ordered pair of roots on a window narrowed to end at `c`
/// gives what the wide window gives where that lies before `c`, else nothing.
proof fn lemma_narrowed(r: Roots, t_min: i64, c: i64, t_max: i64)
    requires
        r.near <= r.far,
        c <= t_max,
    ensures
        accepted(r, t_min, c) == (match accepted(r, t_min, t_max) {
            Some(t) => if t < c {
                Some(t)
            } else {
                None
            },
            None => None,
        }),
{
}

/// `nearest` is the least of the values the objects report, and is reported
/// by one of them.
pub proof fn lemma_nearest_is_least(s: Seq<Option<Roots>>, t_min: i64, t_max: i64)
    ensures
        nearest(s, t_min, t_max) is None <==> forall|j: int|
            0 <= j < s.len() ==> (#[trigger] candidate(s[j], t_min, t_max)) is None,
        nearest(s, t_min, t_max) matches Some(m) ==> {
            &&& exists|j: int| 0 <= j < s.len() && #[trigger] candidate(s[j], t_min, t_max) == Some(m)
            &&& forall|j: int|
                0 <= j < s.len() && (#[trigger] candidate(s[j], t_min, t_max)) is Some ==> m
                    <= candidate(s[j], t_min, t_max)->0
        },
    decreases s.len(),
{
    if s.len() > 0 {
        let p = s.drop_last();
        lemma_nearest_is_least(p, t_min, t_max);
        assert forall|j: int| 0 <= j < p.len() implies p[j] == s[j] by {}
        let last = s.len() - 1;
        assert(s[last] == s.last());
        match nearest(s, t_min, t_max) {
            Some(m) => {
                if nearest(p, t_min, t_max) is Some {
                    let jj = choose|j: int|
                        0 <= j < p.len() && #[trigger] candidate(p[j], t_min, t_max) == nearest(
                            p,
                            t_min,
                            t_max,
                        );
                    if candidate(s.last(), t_min, t_max) == Some(m) {
                        assert(candidate(s[last], t_min, t_max) == Some(m));
                    } else {
                        assert(candidate(s[jj], t_min, t_max) == Some(m));
                    }
                } else {
                    assert(candidate(s[last], t_min, t_max) == Some(m));
                }
            },
            None => {},
        }
    }
}

/// Closest-hit selection does not depend on the order of the objects: two
/// scenes that hold the same objects, in any order, give the same nearest
/// `t` on every window.
pub proof fn lemma_nearest_ignores_order(
    a: Seq<Option<Roots>>,
    b: Seq<Option<Roots>>,
    t_min: i64,
    t_max: i64,
)
    requires
        a.to_multiset() == b.to_multiset(),
    ensures
        nearest(a, t_min, t_max) == nearest(b, t_min, t_max),
{
    lemma_nearest_is_least(a, t_min, t_max);
    lemma_nearest_is_least(b, t_min, t_max);
    assert forall|j: int| 0 <= j < a.len() implies b.contains(#[trigger] a[j]) by {
        assert(a.contains(a[j]));
        assert(a.to_multiset().count(a[j]) > 0);
    }
    assert forall|j: int| 0 <= j < b.len() implies a.contains(#[trigger] b[j]) by {
        assert(b.contains(b[j]));
        assert(b.to_multiset().count(b[j]) > 0);
    }
    match (nearest(a, t_min, t_max), nearest(b, t_min, t_max)) {
        (Some(x), Some(y)) => {
            let ja = choose|j: int| 0 <= j < a.len() && #[trigger] candidate(a[j], t_min, t_max) == Some(x);
            let jb = choose|j: int| 0 <= j < b.len() && #[trigger] candidate(b[j], t_min, t_max) == Some(y);
            let kb = choose|k: int| 0 <= k < b.len() && b[k] == a[ja];
            let ka = choose|k: int| 0 <= k < a.len() && a[k] == b[jb];
            assert(candidate(b[kb], t_min, t_max) == Some(x));
            assert(candidate(a[ka], t_min, t_max) == Some(y));
        },
        (Some(x), None) => {
            let ja = choose|j: int| 0 <= j < a.len() && #[trigger] candidate(a[j], t_min, t_max) == Some(x);
            let kb = choose|k: int| 0 <= k < b.len() && b[k] == a[ja];
            assert(candidate(b[kb], t_min, t_max) is Some);
        },
        (None, Some(y)) => {
            let jb = choose|j: int| 0 <= j < b.len() && #[trigger] candidate(b[j], t_min, t_max) == Some(y);
            let ka = choose|k: int| 0 <= k < a.len() && a[k] == b[jb];
            assert(candidate(a[ka], t_min, t_max) is Some);
        },
        (None, None) => {},
    }
}

/// The closest hit among `objects` in the open window `(t_min, t_max)`.
///
/// Each object is asked in turn on the window narrowed to end at the
/// closest `t` found so far, so a later object can only win by being
/// strictly closer; of objects at equal `t` the first one added wins.
pub fn closest_hit(objects: &Vec<Option<Roots>>, t_min: i64, t_max: i64) -> (r: Option<Hit>)
    requires
        all_ordered(objects@),
    ensures
        r is None <==> nearest(objects@, t_min, t_max) is None,
        r matches Some(h) ==> {
            &&& h.index < objects@.len()
            &&& Some(h.t) == nearest(objects@, t_min, t_max)
            &&& candidate(objects@[h.index as int], t_min, t_max) == Some(h.t)
            &&& forall|j: int|
                0 <= j < h.index ==> #[trigger] candidate(objects@[j], t_min, t_max) != Some(h.t)
            &&& inside(h.t, t_min, t_max)
        },
{
    let mut closest: i64 = t_max;
    let mut best: Option<Hit> = None;
    let mut i: usize = 0;
    while i < objects.len()
        invariant
            0 <= i <= objects@.len(),
            all_ordered(objects@),
            best is None ==> closest == t_max && nearest(objects@.take(i as int), t_min, t_max)
                is None,
            best matches Some(h) ==> {
                &&& closest == h.t
                &&& h.index < i
                &&& Some(h.t) == nearest(objects@.take(i as int), t_min, t_max)
                &&& candidate(objects@[h.index as int], t_min, t_max) == Some(h.t)
                &&& forall|j: int|
                    0 <= j < h.index ==> #[trigger] candidate(objects@[j], t_min, t_max) != Some(
                        h.t,
                    )
                &&& inside(h.t, t_min, t_max)
            },
        decreases objects@.len() - i,
    {
        let ghost s = objects@.take(i as int);
        let ghost s1 = objects@.take(i + 1);
        assert(s1.drop_last() =~= s);
        assert(s1.last() == objects@[i as int]);
        proof {
            lemma_nearest_is_least(s, t_min, t_max);
        }
        if let Some(roots) = objects[i] {
            proof {
                lemma_narrowed(roots, t_min, closest, t_max);
            }
            if let Some(t) = roots.hit(t_min, closest) {
                proof {
                    assert forall|j: int| 0 <= j < i implies #[trigger] candidate(
                        objects@[j],
                        t_min,
                        t_max,
                    ) != Some(t) by {
                        assert(s[j] == objects@[j]);
                    }
                }
                closest = t;
                best = Some(Hit { index: i, t });
            }
        }
        i = i + 1;
    }
    assert(objects@.take(objects@.len() as int) =~= objects@);
    best
}

} // verus!
