use vstd::prelude::*;

use crate::page::{FetchError, ResourcePage};

verus! {

/// A collection held in memory that serves pages exactly the way the remote
/// service does: `fetch(take, skip)` returns the window of `take` items at
/// offset `skip`, and reports a next page while items remain beyond it.
/// When `fail_at` names an offset, the fetch at that offset fails, standing
/// for a transport failure mid-way through a resource.
pub struct SimCollection {
    pub items: Vec<String>,
    pub fail_at: Option<u64>,
}

impl SimCollection {
    /// The serialized text of every item, in collection order.
    pub open spec fn contents(&self) -> Seq<Seq<char>> {
        self.items.deep_view()
    }

    pub open spec fn size(&self) -> int {
        self.items.deep_view().len() as int
    }

    /// One paginated request. The window is clamped to the end of the
    /// collection; the next-page flag is set while `skip + take` has not
    /// reached the end.
    pub fn fetch(&self, take: usize, skip: u64) -> (r: Result<ResourcePage, FetchError>)
        requires
            take >= 1,
        ensures
            (r is Err) == (self.fail_at == Some(skip)),
            r matches Ok(page) ==> {
                &&& page.items.deep_view() == self.contents().subrange(
                    if (skip as int) <= self.size() { skip as int } else { self.size() },
                    if (skip as int + take as int) <= self.size() { skip as int + take as int } else { self.size() },
                )
                &&& page.has_next == ((skip as int + take as int) < self.size())
            },
    {
        match &self.fail_at {
            Some(f) => {
                if *f == skip {
                    return Err(FetchError::Transport);
                }
            },
            None => {},
        }
        let len = self.items.len();
        let mut out: Vec<String> = Vec::new();
        let mut has_next = false;
        if skip < len as u64 {
            let start = skip as usize;
            let count = if take <= len - start { take } else { len - start };
            let mut j: usize = 0;
            while j < count
                invariant
                    j <= count,
                    start + count <= len,
                    len == self.items.len(),
                    out.deep_view() =~= self.contents().subrange(start as int, start as int + j as int),
                decreases count - j,
            {
                let ghost prev = out.deep_view();
                let item = self.items[start + j].clone();
                proof {
                    assert(prev.len() == out@.len());
                }
                out.push(item);
                proof {
                    let sub = self.contents().subrange(
                        start as int, start as int + j as int + 1);
                    assert forall|k: int| 0 <= k < out.deep_view().len()
                        implies out.deep_view()[k] == sub[k] by {
                        if k < j as int {
                            assert(out.deep_view()[k] == prev[k]);
                        } else {
                            assert(out@[k] == self.items@[start as int + j as int]);
                        }
                    }
                    assert(out.deep_view() =~= sub);
                }
                j += 1;
            }
            has_next = len - start > take;
        }
        proof {
            if skip >= len as u64 {
                assert(out.deep_view() =~= self.contents().subrange(self.size(), self.size()));
            }
        }
        Ok(ResourcePage { items: out, has_next })
    }
}

/// One named resource with the collection behind it, for driving a whole
/// backup run against in-memory data.
pub struct SimResource {
    pub name: String,
    pub collection: SimCollection,
}

} // verus!
