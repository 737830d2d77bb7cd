use vstd::prelude::*;

use vstd::arithmetic::div_mod::{lemma_div_is_ordered, lemma_fundamental_div_mod,
    lemma_mod_bound};

use crate::doc::{chunk_text, doc_chunk, doc_prefix, doc_prefix_text, doc_suffix,
    document_text, join_comma, lemma_join_concat};
use crate::estimator::{detect_last_item, sat_add, MAX_COLLECTION_SIZE};
use crate::page::{FetchError, ResourcePage};
use crate::sim::SimCollection;
use crate::writer::Writer;

verus! {

/// The fixed page size of the full-fetch loop, distinct from the
/// single-item pages the estimator probes with.
pub const CHUNK: usize = 100;

/// The offset of the last page the fetch loop requests from a collection of
/// size `s`.
pub open spec fn last_fetch_offset(s: int) -> int {
    if s == 0 {
        0
    } else {
        100 * ((s - 1) / 100)
    }
}

/// The failing offset of a collection, or -1 when every fetch succeeds.
pub open spec fn fail_offset(col: SimCollection) -> int {
    match col.fail_at {
        Some(f) => f as int,
        None => -1,
    }
}

/// Whether streaming `col` runs into its failing offset: the offset must be
/// one the loop requests.
pub open spec fn stream_fails(col: SimCollection) -> bool {
    &&& fail_offset(col) >= 0
    &&& fail_offset(col) % 100 == 0
    &&& fail_offset(col) <= last_fetch_offset(col.size())
}

/// A multiple of 100 that is at most `x` is at most `100 * (x / 100)`.
proof fn lemma_multiple_below(m: int, x: int)
    requires
        0 <= m,
        m % 100 == 0,
        m <= x,
    ensures
        m <= 100 * (x / 100),
{
    lemma_fundamental_div_mod(m, 100);
    lemma_div_is_ordered(m, x, 100);
}

/// `100 * (x / 100)` sits within the last 100 below `x`.
proof fn lemma_div_window(x: int)
    requires
        0 <= x,
    ensures
        100 * (x / 100) <= x <= 100 * (x / 100) + 99,
{
    lemma_fundamental_div_mod(x, 100);
    lemma_mod_bound(x, 100);
}

/// Streams one resource as a single JSON document into `out`: the prefix
/// naming the resource, every page's items comma-joined, and the closing
/// suffix. When progress reporting is on, the estimator sizes the progress
/// indicator first and an estimate of 0 (an empty collection) skips the
/// fetch loop, which would fetch nothing. A fetch
/// failure aborts the stream at once: the items already written stay, and
/// the closing suffix is never emitted.
pub fn backup_resource<W: Writer>(col: &SimCollection, resource: &str, out: &mut W,
    progress: bool) -> (r: Result<(), FetchError>)
    requires
        progress ==> col.fail_at is None,
        col.size() <= MAX_COLLECTION_SIZE,
    ensures
        r is Err <==> stream_fails(*col),
        r is Ok ==> final(out).written() == old(out).written() + document_text(resource@,
            col.contents()),
        r is Err ==> final(out).written() == old(out).written() + doc_prefix_text(resource@)
            + join_comma(col.contents().take(fail_offset(*col))),
{
    let ghost s = col.size();
    let ghost base = old(out).written();
    let prefix = doc_prefix(resource);
    out.write(prefix.as_str());
    if progress {
        let last = detect_last_item(col);
        if last == 0 {
            let suffix = doc_suffix();
            out.write(suffix.as_str());
            proof {
                assert(col.contents() =~= Seq::<Seq<char>>::empty());
                assert(out.written() =~= base + document_text(resource@, col.contents()));
            }
            return Ok(());
        }
    }
    let total = col.items.len();
    proof {
        assert(total as int == s);
    }
    let mut skip: usize = 0;
    let mut wrote = false;
    let mut failed: Option<FetchError> = None;
    loop
        invariant_except_break
            wrote == (skip > 0),
            failed is None,
            out.written() == base + doc_prefix_text(resource@) + join_comma(
                col.contents().take(skip as int)),
        invariant
            s == col.size(),
            0 <= s <= MAX_COLLECTION_SIZE,
            s == total as int,
            progress ==> col.fail_at is None,
            skip as int % 100 == 0,
            skip as int <= s,
            skip == 0 || (skip as int) < s,
            stream_fails(*col) ==> skip as int <= fail_offset(*col),
        ensures
            failed is Some ==> stream_fails(*col) && out.written() == base
                + doc_prefix_text(resource@) + join_comma(col.contents().take(fail_offset(
                *col))),
            failed is None ==> !stream_fails(*col) && out.written() == base
                + doc_prefix_text(resource@) + join_comma(col.contents()),
        decreases s - skip,
    {
        let ghost taken = col.contents().take(skip as int);
        let page = match col.fetch(CHUNK, skip as u64) {
            Ok(p) => p,
            Err(err) => {
                proof {
                    assert(fail_offset(*col) == skip as int);
                    assert(stream_fails(*col)) by {
                        if s == 0 {
                            assert(skip == 0);
                        } else {
                            assert(skip as int <= s - 1);
                            lemma_multiple_below(skip as int, s - 1);
                        }
                    }
                }
                failed = Some(err);
                break;
            },
        };
        proof {
            assert(col.fail_at != Some(skip as u64));
            assert(page.items.deep_view().len() == page.items@.len());
        }
        let ghost end: int = if skip as int + CHUNK as int <= s { skip as int + CHUNK as int } else { s };
        if page.items.len() == 0 {
            proof {
                assert(end == skip as int);
                assert(s <= skip as int + CHUNK);
                assert(s == skip as int) by {
                    if s != skip as int {
                        assert((skip as int) < s);
                        assert(end > skip as int);
                    }
                }
                assert(col.contents().take(skip as int) =~= col.contents());
                assert(!stream_fails(*col)) by {
                    if stream_fails(*col) {
                        assert(skip as int <= fail_offset(*col));
                        assert(fail_offset(*col) <= last_fetch_offset(s));
                        if s == 0 {
                            assert(fail_offset(*col) == 0);
                            assert(col.fail_at == Some(0u64));
                        } else {
                            assert(skip == 0);
                        }
                    }
                }
            }
            break;
        }
        let chunk = doc_chunk(wrote, &page.items);
        out.write(chunk.as_str());
        proof {
            assert((skip as int) < s);
            lemma_join_concat(taken, page.items.deep_view());
            assert(taken + page.items.deep_view() =~= col.contents().take(end));
            assert(taken.len() == skip as int);
            assert(out.written() =~= base + doc_prefix_text(resource@) + join_comma(
                col.contents().take(end)));
        }
        wrote = true;
        if !page.has_next {
            proof {
                assert(s <= skip as int + CHUNK);
                assert(end == s);
                assert(col.contents().take(s) =~= col.contents());
                assert(!stream_fails(*col)) by {
                    if stream_fails(*col) {
                        let f = fail_offset(*col);
                        assert(skip as int <= f);
                        assert(f <= 100 * ((s - 1) / 100));
                        lemma_div_window(s - 1);
                        assert(100 * ((s - 1) / 100) <= s - 1);
                        assert(s - 1 <= skip as int + 99);
                        assert(100 * ((s - 1) / 100) <= skip as int + 99);
                        lemma_multiple_below(skip as int, s - 1);
                        assert(skip as int <= 100 * ((s - 1) / 100));
                        lemma_fundamental_div_mod(f, 100);
                        lemma_fundamental_div_mod(skip as int, 100);
                        assert(f == 100 * (f / 100));
                        assert(skip as int == 100 * ((skip as int) / 100));
                        assert(f <= skip as int + 99);
                        assert(f / 100 <= (skip as int) / 100) by {
                            if f / 100 > (skip as int) / 100 {
                                assert(f / 100 >= (skip as int) / 100 + 1);
                                assert(100 * (f / 100) >= 100 * ((skip as int) / 100) + 100);
                            }
                        }
                        assert(f <= skip as int);
                        assert(f == skip as int);
                        assert(col.fail_at == Some(skip as u64));
                    }
                }
            }
            break;
        }
        proof {
            assert(skip as int + CHUNK < s);
            assert(s <= col.items@.len());
            if stream_fails(*col) {
                let f = fail_offset(*col);
                assert(skip as int <= f);
                assert(f != skip as int);
                lemma_fundamental_div_mod(f, 100);
                lemma_fundamental_div_mod(skip as int, 100);
                assert(f == 100 * (f / 100));
                assert(skip as int == 100 * ((skip as int) / 100));
                assert(f / 100 >= (skip as int) / 100 + 1) by {
                    if f / 100 <= (skip as int) / 100 {
                        assert(100 * (f / 100) <= 100 * ((skip as int) / 100));
                    }
                }
                assert(skip as int + 100 <= f);
            }
        }
        skip += CHUNK;
    }
    match failed {
        Some(err) => Err(err),
        None => {
            let suffix = doc_suffix();
            out.write(suffix.as_str());
            proof {
                assert(out.written() =~= base + document_text(resource@, col.contents()));
            }
            Ok(())
        },
    }
}

/// The fetch-loop state a caller holds while streaming one resource page
/// by page: the offset to request next and whether an item was written
/// before. It owns every decision of the loop — what text a page appends,
/// when to advance, and when to stop — so that a driver only fetches pages
/// and writes the returned chunks between `doc_prefix` and `doc_suffix`.
pub struct StreamProgress {
    pub skip: u64,
    pub wrote: bool,
    pub done: bool,
}

impl StreamProgress {
    pub fn start() -> (s: StreamProgress)
        ensures
            s.skip == 0,
            !s.wrote,
            !s.done,
    {
        StreamProgress { skip: 0, wrote: false, done: false }
    }

    /// Begins a stream that skips the fetch loop entirely when the
    /// estimate said the collection is empty, as a fetch would return
    /// nothing.
    pub fn start_with_estimate(estimate: u64) -> (s: StreamProgress)
        ensures
            s.skip == 0,
            !s.wrote,
            s.done == (estimate == 0),
    {
        StreamProgress { skip: 0, wrote: false, done: estimate == 0 }
    }

    /// The offset to fetch the next page at, or `None` once the stream is
    /// complete and only the suffix is owed.
    pub fn next_offset(&self) -> (r: Option<u64>)
        ensures
            r == (if self.done { None } else { Some(self.skip) }),
    {
        if self.done {
            None
        } else {
            Some(self.skip)
        }
    }

    /// Consumes one fetched page: returns the text to append, advances the
    /// offset by the chunk size, and ends the stream on an empty page or an
    /// absent next-page flag.
    pub fn step(&mut self, page: &ResourcePage) -> (chunk: String)
        requires
            !old(self).done,
        ensures
            chunk@ == chunk_text(old(self).wrote, page.items.deep_view()),
            final(self).wrote == (old(self).wrote || page.items@.len() > 0),
            final(self).done == (page.items@.len() == 0 || !page.has_next),
            final(self).skip == sat_add(old(self).skip, CHUNK as int),
    {
        let chunk = doc_chunk(self.wrote, &page.items);
        if page.items.len() > 0 {
            self.wrote = true;
        }
        self.done = page.items.len() == 0 || !page.has_next;
        self.skip = if self.skip <= u64::MAX - 100 { self.skip + 100 } else { u64::MAX };
        chunk
    }
}

} // verus!
