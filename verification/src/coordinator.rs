use vstd::prelude::*;

use vstd::pervasive::unreached;

use crate::doc::{doc_prefix_text, document_text, join_comma};
use crate::estimator::MAX_COLLECTION_SIZE;
use crate::sim::{SimCollection, SimResource};
use crate::streamer::{backup_resource, fail_offset, stream_fails};
use crate::writer::{BufferWriter, Writer};

verus! {

/// The shared pool of not-yet-claimed resource names. A name leaves the
/// queue exactly once, claimed from the end, and the queue only shrinks.
pub struct WorkQueue {
    names: Vec<String>,
}

impl WorkQueue {
    /// The names still waiting to be claimed.
    pub closed spec fn pending(&self) -> Seq<Seq<char>> {
        self.names.deep_view()
    }

    pub fn new(names: Vec<String>) -> (q: WorkQueue)
        ensures
            q.pending() == names.deep_view(),
    {
        WorkQueue { names }
    }

    pub fn len(&self) -> (n: usize)
        ensures
            n as int == self.pending().len(),
    {
        proof {
            assert(self.pending().len() == self.names@.len());
        }
        self.names.len()
    }

    /// Claims one resource: removes and returns the last waiting name, or
    /// returns nothing from an empty queue.
    pub fn pop(&mut self) -> (r: Option<String>)
        ensures
            old(self).pending().len() == 0 ==> r is None && final(self).pending()
                == old(self).pending(),
            old(self).pending().len() > 0 ==> (r matches Some(name) && name@
                == old(self).pending().last() && final(self).pending()
                == old(self).pending().drop_last()),
    {
        proof {
            assert(self.pending().len() == self.names@.len());
        }
        let r = self.names.pop();
        proof {
            if old(self).pending().len() > 0 {
                assert forall|k: int| 0 <= k < self.pending().len()
                    implies self.pending()[k] == old(self).pending().drop_last()[k] by {
                    assert(self.names@[k] == old(self).names@[k]);
                }
                assert(self.pending() =~= old(self).pending().drop_last());
            } else {
                assert(self.pending() =~= old(self).pending());
            }
        }
        r
    }
}

/// The resource a claimed name selects: the first in the table whose name
/// matches.
pub open spec fn first_match(table: Seq<SimResource>, name: Seq<char>) -> SimResource
    decreases table.len(),
{
    if table.len() == 0 {
        arbitrary()
    } else if table[0].name@ == name {
        table[0]
    } else {
        first_match(table.drop_first(), name)
    }
}

proof fn lemma_first_match_at(table: Seq<SimResource>, name: Seq<char>, i: int)
    requires
        0 <= i < table.len(),
        table[i].name@ == name,
        forall|j: int| 0 <= j < i ==> table[j].name@ != name,
    ensures
        first_match(table, name) == table[i],
    decreases i,
{
    if i > 0 {
        lemma_first_match_at(table.drop_first(), name, i - 1);
    }
}

/// What streaming one collection leaves in its sink: the complete document,
/// or, when a fetch fails mid-way, the truncated text without the closing
/// suffix.
pub open spec fn resource_output(col: SimCollection, name: Seq<char>) -> Seq<char> {
    if stream_fails(col) {
        doc_prefix_text(name) + join_comma(col.contents().take(fail_offset(col)))
    } else {
        document_text(name, col.contents())
    }
}

/// A whole backup run against in-memory data: a queue is filled with every
/// resource name, then resources are claimed one by one until the queue is
/// empty, each streamed into a sink of its own. Every resource is claimed
/// exactly once: the returned documents hold the names in claim order (the
/// reverse of the table), each with the output of the first table entry of
/// that name. A fetch failure aborts only that resource, leaving its
/// truncated text; the run continues with the next claim.
pub fn backup_all(resources: &Vec<SimResource>, progress: bool) -> (docs: Vec<(String, String)>)
    requires
        progress ==> forall|i: int| 0 <= i < resources@.len()
            ==> (#[trigger] resources@[i]).collection.fail_at is None,
        forall|i: int| 0 <= i < resources@.len() ==> (#[trigger] resources@[i]).collection.size()
            <= MAX_COLLECTION_SIZE,
    ensures
        docs@.len() == resources@.len(),
        forall|i: int| 0 <= i < docs@.len() ==> (#[trigger] docs@[i]).0@
            == resources@[resources@.len() - 1 - i].name@,
        forall|i: int| 0 <= i < docs@.len() ==> (#[trigger] docs@[i]).1@ == resource_output(
            first_match(resources@, docs@[i].0@).collection, docs@[i].0@),
{
    let ghost n = resources@.len();
    let mut names: Vec<String> = Vec::new();
    let mut i: usize = 0;
    while i < resources.len()
        invariant
            i <= resources.len(),
            n == resources@.len(),
            names.deep_view().len() == i as int,
            forall|k: int| 0 <= k < i as int ==> names.deep_view()[k]
                == resources@[k].name@,
        decreases resources.len() - i,
    {
        let ghost prev = names.deep_view();
        names.push(resources[i].name.clone());
        proof {
            assert forall|k: int| 0 <= k < i as int + 1 implies names.deep_view()[k]
                == resources@[k].name@ by {
                if k < i as int {
                    assert(names.deep_view()[k] == prev[k]);
                } else {
                    assert(names@[k] == resources@[k as int].name);
                }
            }
        }
        i += 1;
    }
    let mut q = WorkQueue::new(names);
    let mut docs: Vec<(String, String)> = Vec::new();
    loop
        invariant
            n == resources@.len(),
            progress ==> forall|k: int| 0 <= k < n
                ==> (#[trigger] resources@[k]).collection.fail_at is None,
            forall|k: int| 0 <= k < n ==> (#[trigger] resources@[k]).collection.size()
                <= MAX_COLLECTION_SIZE,
            q.pending().len() + docs@.len() == n,
            forall|k: int| 0 <= k < q.pending().len() ==> q.pending()[k]
                == resources@[k].name@,
            forall|k: int| 0 <= k < docs@.len() ==> (#[trigger] docs@[k]).0@
                == resources@[n - 1 - k].name@,
            forall|k: int| 0 <= k < docs@.len() ==> (#[trigger] docs@[k]).1@ == resource_output(
                first_match(resources@, docs@[k].0@).collection, docs@[k].0@),
        ensures
            q.pending().len() == 0,
        decreases q.pending().len(),
    {
        let ghost pend = q.pending().len() as int;
        let name = match q.pop() {
            Some(name) => name,
            None => { break; },
        };
        proof {
            assert(name@ == resources@[pend - 1].name@);
        }
        let mut j: usize = 0;
        loop
            invariant
                n == resources@.len(),
                j as int <= n,
                name@ == resources@[pend - 1].name@,
                0 < pend <= n,
                forall|k: int| 0 <= k < j as int ==> (#[trigger] resources@[k]).name@ != name@,
            ensures
                j < resources.len(),
                resources@[j as int].name@ == name@,
                forall|k: int| 0 <= k < j as int ==> (#[trigger] resources@[k]).name@ != name@,
            decreases n - j,
        {
            if j == resources.len() {
                proof {
                    assert(resources@[pend - 1].name@ != name@);
                }
                unreached::<()>();
            }
            if resources[j].name.eq(&name) {
                break;
            }
            j += 1;
        }
        proof {
            lemma_first_match_at(resources@, name@, j as int);
        }
        let mut sink = BufferWriter::new();
        let _ = backup_resource(&resources[j].collection, resources[j].name.as_str(),
            &mut sink, progress);
        proof {
            assert(sink.written() =~= resource_output(resources@[j as int].collection,
                name@));
        }
        docs.push((name, sink.out));
    }
    docs
}

/// Which worker claims which resource is immaterial: two claim orders over
/// the same resources produce the same set of (name, output) pairs, since
/// each resource's output depends only on the resource itself.
pub open spec fn resource_doc(r: SimResource) -> (Seq<char>, Seq<char>) {
    (r.name@, resource_output(r.collection, r.name@))
}

pub proof fn lemma_claim_order_immaterial(a: Seq<SimResource>, b: Seq<SimResource>)
    requires
        a.to_set() == b.to_set(),
    ensures
        a.map_values(|r: SimResource| resource_doc(r)).to_set()
            == b.map_values(|r: SimResource| resource_doc(r)).to_set(),
{
    let fa = a.map_values(|r: SimResource| resource_doc(r));
    let fb = b.map_values(|r: SimResource| resource_doc(r));
    assert forall|d: (Seq<char>, Seq<char>)| fa.to_set().contains(d)
        implies fb.to_set().contains(d) by {
        let i = choose|i: int| 0 <= i < fa.len() && fa[i] == d;
        assert(a.to_set().contains(a[i]));
        assert(b.to_set().contains(a[i]));
        let j = choose|j: int| 0 <= j < b.len() && b[j] == a[i];
        assert(fb[j] == d);
        assert(fb.contains(d));
    }
    assert forall|d: (Seq<char>, Seq<char>)| fb.to_set().contains(d)
        implies fa.to_set().contains(d) by {
        let i = choose|i: int| 0 <= i < fb.len() && fb[i] == d;
        assert(b.to_set().contains(b[i]));
        assert(a.to_set().contains(b[i]));
        let j = choose|j: int| 0 <= j < a.len() && a[j] == b[i];
        assert(fa[j] == d);
        assert(fa.contains(d));
    }
    assert(fa.to_set() =~= fb.to_set());
}

} // verus!
