use vstd::prelude::*;

use vstd::pervasive::unreached;

use crate::sim::SimCollection;

verus! {

/// The offset at which the doubling phase starts probing.
pub const DETECTION_START: u64 = 500;

/// Bound assumed of every in-memory collection: far beyond what a process
/// could hold, and small enough that doubled offsets never overflow a `u64`.
pub const MAX_COLLECTION_SIZE: u64 = 0x4000_0000_0000_0000;

/// State of the search for the size of a collection that offers no count
/// endpoint, driven by single-item page probes: first the probed offset is
/// doubled until an empty page is seen, then the boundary is bisected. A
/// probe that lands on the last item (non-empty, no next page) yields the
/// size as its offset plus the items it returned; a probe at offset 0 ends
/// the bisection with however many items it returned.
pub enum Estimate {
    Expand { left: u64, right: u64 },
    Bisect { left: u64, right: u64 },
    Done { size: u64 },
}

/// The offset the search probes next, as a mathematical integer.
pub open spec fn probe_off(e: Estimate) -> int {
    match e {
        Estimate::Expand { left, right } => right as int,
        Estimate::Bisect { left, right } => left + (right - left) / 2,
        Estimate::Done { .. } => 0,
    }
}

pub open spec fn sat_add(a: u64, b: int) -> u64 {
    if a + b <= u64::MAX { (a + b) as u64 } else { u64::MAX }
}

pub open spec fn sat_double(a: u64) -> u64 {
    if 2 * a <= u64::MAX { (2 * a) as u64 } else { u64::MAX }
}

/// How the search state advances after probing `probe_off` and seeing a
/// single-item page with `page_len` items and next-page flag `has_next`.
pub open spec fn step_spec(e: Estimate, page_len: int, has_next: bool) -> Estimate {
    match e {
        Estimate::Expand { left, right } => {
            if page_len == 0 {
                Estimate::Bisect { left, right }
            } else if !has_next {
                Estimate::Done { size: sat_add(right, page_len) }
            } else {
                Estimate::Expand { left: right, right: sat_double(right) }
            }
        },
        Estimate::Bisect { left, right } => {
            let v = (left + (right - left) / 2) as u64;
            if v == 0 || (page_len > 0 && !has_next) {
                Estimate::Done { size: sat_add(v, page_len) }
            } else if page_len == 0 {
                Estimate::Bisect { left, right: v }
            } else {
                Estimate::Bisect { left: v, right }
            }
        },
        Estimate::Done { .. } => e,
    }
}

impl Estimate {
    pub open spec fn wf(self) -> bool {
        match self {
            Estimate::Expand { left, right } => left <= right,
            Estimate::Bisect { left, right } => left <= right,
            Estimate::Done { .. } => true,
        }
    }

    pub fn start() -> (e: Estimate)
        ensures
            e == (Estimate::Expand { left: 0u64, right: DETECTION_START }),
    {
        Estimate::Expand { left: 0, right: DETECTION_START }
    }

    /// The offset to probe next with a single-item page, or `None` when the
    /// search has finished.
    pub fn probe(&self) -> (r: Option<u64>)
        requires
            self.wf(),
        ensures
            self is Done <==> r is None,
            r matches Some(off) ==> off as int == probe_off(*self),
    {
        match self {
            Estimate::Expand { left: _, right } => Some(*right),
            Estimate::Bisect { left, right } => Some(*left + (*right - *left) / 2),
            Estimate::Done { .. } => None,
        }
    }

    /// Advances the search by one observed page.
    pub fn step(self, page_len: usize, has_next: bool) -> (e: Estimate)
        requires
            self.wf(),
        ensures
            e == step_spec(self, page_len as int, has_next),
            e.wf(),
    {
        match self {
            Estimate::Expand { left, right } => {
                if page_len == 0 {
                    Estimate::Bisect { left, right }
                } else if !has_next {
                    let size = if page_len as u64 <= u64::MAX - right {
                        right + page_len as u64
                    } else {
                        u64::MAX
                    };
                    Estimate::Done { size }
                } else {
                    let doubled = if right <= u64::MAX / 2 { right * 2 } else { u64::MAX };
                    Estimate::Expand { left: right, right: doubled }
                }
            },
            Estimate::Bisect { left, right } => {
                let v = left + (right - left) / 2;
                if v == 0 || (page_len > 0 && !has_next) {
                    let size = if page_len as u64 <= u64::MAX - v {
                        v + page_len as u64
                    } else {
                        u64::MAX
                    };
                    Estimate::Done { size }
                } else if page_len == 0 {
                    Estimate::Bisect { left, right: v }
                } else {
                    Estimate::Bisect { left: v, right }
                }
            },
            Estimate::Done { size } => Estimate::Done { size },
        }
    }

    /// The found size, once the search is done.
    pub fn result(&self) -> (r: Option<u64>)
        ensures
            r == (match *self {
                Estimate::Done { size } => Some(size),
                _ => None::<u64>,
            }),
    {
        match self {
            Estimate::Done { size } => Some(*size),
            _ => None,
        }
    }
}

/// The invariant the search maintains against a collection of size `s`:
/// the left bound sits strictly inside the collection (or at 0), the right
/// bound sits at or beyond its end once bisection starts, and a finished
/// search carries the exact size.
pub open spec fn search_inv(e: Estimate, s: int) -> bool {
    match e {
        Estimate::Expand { left, right } => {
            &&& left == 0 || left + 1 < s
            &&& left <= right
            &&& 500 <= right
            &&& right == 500 || right < 2 * (s - 1)
        },
        Estimate::Bisect { left, right } => {
            &&& s <= right
            &&& left == 0 || left + 1 < s
            &&& left < right
        },
        Estimate::Done { size } => size == s,
    }
}

pub open spec fn rank(e: Estimate) -> int {
    match e {
        Estimate::Expand { .. } => 2,
        Estimate::Bisect { .. } => 1,
        Estimate::Done { .. } => 0,
    }
}

pub open spec fn inner_measure(e: Estimate, s: int) -> int {
    match e {
        Estimate::Expand { left, right } => if right < s { s - right } else { 0 },
        Estimate::Bisect { left, right } => right - left,
        Estimate::Done { .. } => 0,
    }
}

/// One oracle-consistent probe keeps the invariant and shrinks the measure.
proof fn lemma_search_step(e: Estimate, s: int, page_len: int, has_next: bool)
    requires
        search_inv(e, s),
        !(e is Done),
        0 <= s <= MAX_COLLECTION_SIZE,
        page_len == if probe_off(e) < s { 1int } else { 0int },
        has_next == (probe_off(e) + 1 < s),
    ensures
        search_inv(step_spec(e, page_len, has_next), s),
        rank(step_spec(e, page_len, has_next)) < rank(e) || (rank(step_spec(e, page_len,
            has_next)) == rank(e) && inner_measure(step_spec(e, page_len, has_next), s)
            < inner_measure(e, s)),
        inner_measure(e, s) >= 0,
{
    match e {
        Estimate::Expand { left, right } => {
            if page_len == 0 {
                // empty page at `right`: the whole collection sits below it
                assert(s <= right);
                if left != 0 {
                    assert(left + 1 < s <= right);
                }
            } else if !has_next {
                // non-empty page without a next page: `right` is the last
                // item's offset, so the size is one past it
                assert(right == s - 1);
                assert(right + 1 == s <= MAX_COLLECTION_SIZE < u64::MAX);
                assert(step_spec(e, page_len, has_next) == (Estimate::Done {
                    size: (s) as u64 }));
            } else {
                // the collection extends past `right`: double it
                assert(right + 1 < s);
                assert(2 * right < 2 * (s - 1));
                assert(2 * right <= u64::MAX);
                assert(sat_double(right) == (2 * right) as u64);
            }
        },
        Estimate::Bisect { left, right } => {
            let v = left + (right - left) / 2;
            assert(0 <= v < right);
            assert(left <= v);
            if v == left {
                // only possible on the last sliver: `right == left + 1`
                assert((right - left) / 2 == 0);
                assert(right == left + 1);
            }
            let vu = v as u64;
            assert(vu as int == v);
            if vu == 0 {
                // probing offset 0 settles the smallest collections: the
                // page holds the whole collection
                assert(left == 0 && right == 1);
                assert(s <= 1);
                assert(page_len == s);
                assert(step_spec(e, page_len, has_next) == (Estimate::Done {
                    size: (s) as u64 }));
            } else if page_len > 0 && !has_next {
                // `v` is the last item's offset: the size is one past it
                assert(v < s && v + 1 >= s);
                assert(v == s - 1);
                assert(v + 1 == s <= MAX_COLLECTION_SIZE < u64::MAX);
                assert(step_spec(e, page_len, has_next) == (Estimate::Done {
                    size: (s) as u64 }));
            } else if page_len == 0 {
                assert(s <= v);
                assert(v != left) by {
                    if v == left {
                        if left == 0 {
                            assert(vu == 0);
                        } else {
                            assert(left + 1 < s <= v);
                        }
                    }
                }
                assert(left < v);
            } else {
                assert(v + 1 < s);
                assert(v != left) by {
                    if v == left {
                        if left == 0 {
                            assert(vu == 0);
                        } else {
                            assert(right == left + 1);
                            assert(s <= right == left + 1);
                            assert(left + 1 < s);
                        }
                    }
                }
                assert(left < v);
            }
        },
        Estimate::Done { .. } => {},
    }
}

/// Finds how many items a collection holds without a count endpoint, by the
/// exponential-then-binary search over single-item probes, run here against
/// an in-memory collection: the result is the exact collection size. It
/// sizes a progress indicator; the fetch loop terminates on the next-page
/// flag, never on this value.
pub fn detect_last_item(col: &SimCollection) -> (r: u64)
    requires
        col.fail_at is None,
        col.size() <= MAX_COLLECTION_SIZE,
    ensures
        r as int == col.size(),
{
    let ghost s = col.size();
    let mut e = Estimate::start();
    proof {
        assert(search_inv(e, s));
    }
    loop
        invariant
            e.wf(),
            search_inv(e, s),
            s == col.size(),
            col.fail_at is None,
            0 <= s <= MAX_COLLECTION_SIZE,
        ensures
            e is Done,
            search_inv(e, s),
        decreases rank(e), inner_measure(e, s),
    {
        let off = match e.probe() {
            Some(off) => off,
            None => { break; },
        };
        let page = match col.fetch(1, off) {
            Ok(p) => p,
            Err(_) => unreached(),
        };
        proof {
            assert(page.items.deep_view().len() == page.items@.len());
            assert(page.items@.len() == if (off as int) < s { 1int } else { 0int });
            lemma_search_step(e, s, page.items@.len() as int, page.has_next);
        }
        e = e.step(page.items.len(), page.has_next);
    }
    match e {
        Estimate::Done { size } => size,
        _ => unreached(),
    }
}

} // verus!
