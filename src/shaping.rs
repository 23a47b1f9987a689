//! Reducing upstream playlist items to `{videoId, title}` summaries.
use vstd::prelude::*;

verus! {

/// The two leaf fields read from one upstream item, each present only where
/// the item holds it as a string.
pub struct ItemFields {
    pub video_id: Option<String>,
    pub title: Option<String>,
}

impl View for ItemFields {
    type V = (Option<Seq<char>>, Option<Seq<char>>);

    open spec fn view(&self) -> Self::V {
        (text_view(self.video_id), text_view(self.title))
    }
}

/// The characters of an optional string.
pub open spec fn text_view(o: Option<String>) -> Option<Seq<char>> {
    match o {
        Some(s) => Some(s@),
        None => None,
    }
}

/// One video of the output list.
pub struct VideoSummary {
    pub video_id: String,
    pub title: String,
}

impl View for VideoSummary {
    type V = (Seq<char>, Seq<char>);

    open spec fn view(&self) -> Self::V {
        (self.video_id@, self.title@)
    }
}

/// An item is kept when it has both fields.
pub open spec fn is_complete(item: (Option<Seq<char>>, Option<Seq<char>>)) -> bool {
    item.0 is Some && item.1 is Some
}

/// The summary of a complete item.
pub open spec fn summary_of(item: (Option<Seq<char>>, Option<Seq<char>>)) -> (Seq<char>, Seq<char>) {
    (item.0->Some_0, item.1->Some_0)
}

/// The summaries of the complete items, in their order.
pub open spec fn kept(items: Seq<(Option<Seq<char>>, Option<Seq<char>>)>) -> Seq<(Seq<char>, Seq<char>)>
    decreases items.len(),
{
    if items.len() == 0 {
        seq![]
    } else {
        let rest = kept(items.drop_last());
        if is_complete(items.last()) {
            rest.push(summary_of(items.last()))
        } else {
            rest
        }
    }
}

pub open spec fn items_view(items: Seq<ItemFields>) -> Seq<(Option<Seq<char>>, Option<Seq<char>>)> {
    items.map_values(|x: ItemFields| x@)
}

pub open spec fn summaries_view(s: Seq<VideoSummary>) -> Seq<(Seq<char>, Seq<char>)> {
    s.map_values(|x: VideoSummary| x@)
}

/// Keeping distributes over concatenation.
pub proof fn lemma_kept_concat(
    a: Seq<(Option<Seq<char>>, Option<Seq<char>>)>,
    b: Seq<(Option<Seq<char>>, Option<Seq<char>>)>,
)
    ensures
        kept(a + b) == kept(a) + kept(b),
    decreases b.len(),
{
    if b.len() == 0 {
        assert(a + b =~= a);
        assert(kept(a) + kept(b) =~= kept(a));
    } else {
        assert((a + b).drop_last() =~= a + b.drop_last());
        lemma_kept_concat(a, b.drop_last());
        assert(kept(a + b) =~= kept(a) + kept(b));
    }
}

/// When every item has both fields, the output has one summary per item, in
/// the same order.
pub proof fn lemma_all_complete_keeps_all(items: Seq<(Option<Seq<char>>, Option<Seq<char>>)>)
    requires
        forall|i: int| 0 <= i < items.len() ==> is_complete(#[trigger] items[i]),
    ensures
        kept(items).len() == items.len(),
        kept(items) == items.map_values(|x: (Option<Seq<char>>, Option<Seq<char>>)| summary_of(x)),
    decreases items.len(),
{
    if items.len() > 0 {
        let d = items.drop_last();
        assert forall|i: int| 0 <= i < d.len() implies is_complete(#[trigger] d[i]) by {
            assert(d[i] == items[i]);
        }
        lemma_all_complete_keeps_all(d);
        assert(is_complete(items[items.len() - 1]));
        assert(kept(items) =~= items.map_values(
            |x: (Option<Seq<char>>, Option<Seq<char>>)| summary_of(x),
        ));
    }
}

/// An item that lacks a field is left out, and the others keep their relative
/// order: the output is that of the list without the item; where all the
/// others are complete, it holds one summary for each of them.
pub proof fn lemma_incomplete_item_dropped(
    items: Seq<(Option<Seq<char>>, Option<Seq<char>>)>,
    k: int,
)
    requires
        0 <= k < items.len(),
        !is_complete(items[k]),
    ensures
        kept(items) == kept(items.remove(k)),
        (forall|i: int| 0 <= i < items.len() && i != k ==> is_complete(#[trigger] items[i]))
            ==> kept(items) == items.remove(k).map_values(
            |x: (Option<Seq<char>>, Option<Seq<char>>)| summary_of(x),
        ),
{
    let a = items.subrange(0, k);
    let b = items.subrange(k + 1, items.len() as int);
    let one = seq![items[k]];
    assert(items =~= a + one + b);
    assert(items.remove(k) =~= a + b);
    lemma_kept_concat(a + one, b);
    lemma_kept_concat(a, one);
    lemma_kept_concat(a, b);
    assert(one.drop_last() =~= Seq::<(Option<Seq<char>>, Option<Seq<char>>)>::empty());
    assert(kept(one.drop_last()) =~= Seq::<(Seq<char>, Seq<char>)>::empty());
    assert(one.last() == items[k]);
    assert(kept(one) =~= Seq::<(Seq<char>, Seq<char>)>::empty());
    assert(kept(a) + kept(one) =~= kept(a));
    if forall|i: int| 0 <= i < items.len() && i != k ==> is_complete(#[trigger] items[i]) {
        let r = items.remove(k);
        assert forall|i: int| 0 <= i < r.len() implies is_complete(#[trigger] r[i]) by {
            if i < k {
                assert(r[i] == items[i]);
            } else {
                assert(r[i] == items[i + 1]);
            }
        }
        lemma_all_complete_keeps_all(r);
    }
}

/// The summaries of the items that have both fields, in upstream order.
pub fn shape_items(items: &Vec<ItemFields>) -> (r: Vec<VideoSummary>)
    ensures
        summaries_view(r@) == kept(items_view(items@)),
{
    let mut out: Vec<VideoSummary> = Vec::new();
    let mut i: usize = 0;
    while i < items.len()
        invariant
            i <= items@.len(),
            summaries_view(out@) == kept(items_view(items@.subrange(0, i as int))),
        decreases items@.len() - i,
    {
        let item = &items[i];
        proof {
            let p = items_view(items@.subrange(0, i as int + 1));
            assert(p.drop_last() =~= items_view(items@.subrange(0, i as int)));
            assert(p.last() == item@);
        }
        match (&item.video_id, &item.title) {
            (Some(v), Some(t)) => {
                out.push(VideoSummary { video_id: v.clone(), title: t.clone() });
            },
            _ => {},
        }
        proof {
            assert(summaries_view(out@) =~= kept(items_view(items@.subrange(0, i as int + 1))));
        }
        i += 1;
    }
    assert(items@.subrange(0, items@.len() as int) =~= items@);
    out
}

} // verus!
