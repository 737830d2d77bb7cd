use vstd::prelude::*;

verus! {

/// The inner text of a JSON array holding `items`: the item texts joined by
/// commas, without the enclosing brackets.
pub open spec fn join_comma(items: Seq<Seq<char>>) -> Seq<char>
    decreases items.len(),
{
    if items.len() == 0 {
        Seq::empty()
    } else if items.len() == 1 {
        items[0]
    } else {
        items[0] + ","@ + join_comma(items.drop_first())
    }
}

/// The text appended for one page of items: nothing for an empty page, else
/// the joined items, preceded by a comma when items were written before.
pub open spec fn chunk_text(wrote_before: bool, items: Seq<Seq<char>>) -> Seq<char> {
    if items.len() == 0 {
        Seq::empty()
    } else if wrote_before {
        ","@ + join_comma(items)
    } else {
        join_comma(items)
    }
}

pub open spec fn doc_prefix_text(resource: Seq<char>) -> Seq<char> {
    "{\"type\": \""@ + resource + "\", \"items\": ["@
}

pub open spec fn doc_suffix_text() -> Seq<char> {
    "]}"@
}

/// The complete document emitted for one resource: the prefix naming the
/// resource, the comma-joined items, and the closing suffix.
pub open spec fn document_text(resource: Seq<char>, items: Seq<Seq<char>>) -> Seq<char> {
    doc_prefix_text(resource) + join_comma(items) + doc_suffix_text()
}

/// Emitting items page by page joins them exactly as emitting them at once
/// would: the text of `a + b` is the text of `a` followed by the chunk for
/// `b`, whose leading comma appears if and only if `a` held an item.
pub proof fn lemma_join_concat(a: Seq<Seq<char>>, b: Seq<Seq<char>>)
    ensures
        join_comma(a + b) == join_comma(a) + chunk_text(a.len() > 0, b),
    decreases a.len(),
{
    if a.len() == 0 {
        assert(a + b =~= b);
        assert(join_comma(a) + chunk_text(false, b) =~= join_comma(b));
    } else if b.len() == 0 {
        assert(a + b =~= a);
        assert(join_comma(a) + chunk_text(true, b) =~= join_comma(a));
    } else if a.len() == 1 {
        assert((a + b).len() >= 2);
        assert((a + b)[0] == a[0]);
        assert((a + b).drop_first() =~= b);
        assert(join_comma(a + b) =~= join_comma(a) + chunk_text(true, b));
    } else {
        assert((a + b).len() >= 2);
        assert((a + b)[0] == a[0]);
        assert((a + b).drop_first() =~= a.drop_first() + b);
        lemma_join_concat(a.drop_first(), b);
        assert(a.drop_first().len() > 0);
        assert(join_comma(a + b) =~= join_comma(a) + chunk_text(true, b));
    }
}

/// The items of a sequence of pages, in page-then-intra-page order.
pub open spec fn pages_items(pages: Seq<Seq<Seq<char>>>) -> Seq<Seq<char>>
    decreases pages.len(),
{
    if pages.len() == 0 {
        Seq::empty()
    } else {
        pages[0] + pages_items(pages.drop_first())
    }
}

/// The text written when the pages' chunks are emitted one after another,
/// `wrote_before` saying whether an item was written before the first.
pub open spec fn pages_text(pages: Seq<Seq<Seq<char>>>, wrote_before: bool) -> Seq<char>
    decreases pages.len(),
{
    if pages.len() == 0 {
        Seq::empty()
    } else {
        chunk_text(wrote_before, pages[0]) + pages_text(pages.drop_first(), wrote_before
            || pages[0].len() > 0)
    }
}

pub proof fn lemma_pages_join(prefix: Seq<Seq<char>>, pages: Seq<Seq<Seq<char>>>)
    ensures
        join_comma(prefix + pages_items(pages)) == join_comma(prefix) + pages_text(pages,
            prefix.len() > 0),
    decreases pages.len(),
{
    if pages.len() == 0 {
        assert(prefix + pages_items(pages) =~= prefix);
        assert(join_comma(prefix) + pages_text(pages, prefix.len() > 0) =~= join_comma(
            prefix));
    } else {
        let head = pages[0];
        lemma_join_concat(prefix, head);
        lemma_pages_join(prefix + head, pages.drop_first());
        assert(prefix + pages_items(pages) =~= (prefix + head) + pages_items(
            pages.drop_first()));
        assert(((prefix + head).len() > 0) == (prefix.len() > 0 || head.len() > 0));
        assert(join_comma(prefix + pages_items(pages)) =~= join_comma(prefix) + pages_text(
            pages, prefix.len() > 0));
    }
}

/// For every sequence of pages, of whatever page sizes, emitting the pages
/// chunk by chunk yields one document holding exactly the pages' items, in
/// page-then-intra-page order.
pub proof fn lemma_document_from_pages(resource: Seq<char>, pages: Seq<Seq<Seq<char>>>)
    ensures
        doc_prefix_text(resource) + pages_text(pages, false) + doc_suffix_text()
            == document_text(resource, pages_items(pages)),
{
    lemma_pages_join(Seq::empty(), pages);
    assert(Seq::<Seq<char>>::empty() + pages_items(pages) =~= pages_items(pages));
    assert(pages_text(pages, false) == join_comma(pages_items(pages)));
    assert(doc_prefix_text(resource) + pages_text(pages, false) + doc_suffix_text()
        =~= document_text(resource, pages_items(pages)));
}

/// Builds the literal prefix `{"type": "<resource>", "items": [`.
pub fn doc_prefix(resource: &str) -> (s: String)
    ensures
        s@ == doc_prefix_text(resource@),
{
    let mut s = String::from_str("{\"type\": \"");
    s.append(resource);
    s.append("\", \"items\": [");
    s
}

/// Builds the text appended for one page of items.
pub fn doc_chunk(wrote_before: bool, items: &Vec<String>) -> (s: String)
    ensures
        s@ == chunk_text(wrote_before, items.deep_view()),
{
    let ghost dv = items.deep_view();
    let mut s = String::new();
    if items.len() == 0 {
        return s;
    }
    if wrote_before {
        s.append(",");
    }
    let ghost head = s@;
    let mut i: usize = 0;
    while i < items.len()
        invariant
            i <= items.len(),
            dv == items.deep_view(),
            dv.len() == items.len(),
            s@ == head + join_comma(dv.take(i as int)),
        decreases items.len() - i,
    {
        if i > 0 {
            s.append(",");
        }
        s.append(items[i].as_str());
        proof {
            let pre = dv.take(i as int);
            lemma_join_concat(pre, seq![dv[i as int]]);
            assert(pre + seq![dv[i as int]] =~= dv.take(i as int + 1));
            assert(join_comma(seq![dv[i as int]]) == dv[i as int]);
            if i > 0 {
                assert(chunk_text(true, seq![dv[i as int]]) =~= ","@ + dv[i as int]);
            }
            assert(s@ =~= head + join_comma(dv.take(i as int + 1)));
        }
        i += 1;
    }
    proof {
        assert(dv.take(items.len() as int) =~= dv);
        assert(s@ =~= chunk_text(wrote_before, dv));
    }
    s
}

/// Builds the literal suffix `]}` that closes a document.
pub fn doc_suffix() -> (s: String)
    ensures
        s@ == doc_suffix_text(),
{
    String::from_str("]}")
}

} // verus!
