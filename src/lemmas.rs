use vstd::prelude::*;
use crate::render::{fragment, item_markup, markup_items};
use crate::request::{add_text, classified, RequestError, RequestView};
use crate::store::{apply, is_listing, StoreOp};
use crate::text::starts_with;

verus! {

/// The todos and the next id after `ops`, from a new store.
pub open spec fn run(ops: Seq<StoreOp>) -> (Map<u64, Seq<char>>, nat)
    decreases ops.len(),
{
    if ops.len() == 0 {
        (Map::empty(), 1)
    } else {
        apply(run(ops.drop_last()), ops.last())
    }
}

/// How many of `ops` are insertions.
pub open spec fn insertions(ops: Seq<StoreOp>) -> nat
    decreases ops.len(),
{
    if ops.len() == 0 {
        0
    } else {
        insertions(ops.drop_last()) + if ops.last() is Insert {
            1nat
        } else {
            0nat
        }
    }
}

/// Ids are handed out in increasing order from 1, whatever was removed: after
/// `ops` on a new store the next id is one more than the number of
/// insertions, and every stored id lies between 1 and that number (while ids
/// still fit in a `u64`, as `TodoStore::insert` requires).
pub proof fn lemma_ids_count_insertions(ops: Seq<StoreOp>)
    requires
        insertions(ops) < u64::MAX,
    ensures
        run(ops).1 == insertions(ops) + 1,
        forall|id: u64| #[trigger] run(ops).0.contains_key(id) ==> 1 <= id <= insertions(ops),
    decreases ops.len(),
{
    if ops.len() > 0 {
        lemma_ids_count_insertions(ops.drop_last());
    }
}

/// A new store with one text inserted lists exactly that text, under the id
/// that the insertion returned.
pub proof fn lemma_single_insert_listing(id: u64, text: Seq<char>, entries: Seq<(u64, Seq<char>)>)
    requires
        is_listing(entries, Map::<u64, Seq<char>>::empty().insert(id, text)),
    ensures
        entries == seq![(id, text)],
{
    let items = Map::<u64, Seq<char>>::empty().insert(id, text);
    assert(items.contains_key(id));
    let i = choose|i: int| 0 <= i < entries.len() && entries[i].0 == id;
    if entries.len() > 1 {
        let j = if i == 0 { 1int } else { 0int };
        assert(items.contains_key(entries[j].0));
    }
    assert(entries =~= seq![(id, text)]);
}

/// The fragment of a listing is one list item per entry, in order: each holds
/// that entry's text and one delete control for its id, and no two ids agree.
pub proof fn lemma_fragment_items(entries: Seq<(u64, Seq<char>)>, items: Map<u64, Seq<char>>)
    requires
        is_listing(entries, items),
    ensures
        fragment(entries) == markup_items(entries).flatten(),
        markup_items(entries).len() == entries.len(),
        entries.len() == items.dom().len(),
        forall|i: int|
            0 <= i < entries.len() ==> #[trigger] markup_items(entries)[i] == item_markup(
                entries[i].0,
                entries[i].1,
            ) && items.contains_key(entries[i].0),
        forall|i: int, j: int|
            0 <= i < entries.len() && 0 <= j < entries.len() && i != j ==> entries[i].0
                != entries[j].0,
{
    let ids = entries.map_values(|e: (u64, Seq<char>)| e.0);
    assert forall|i: int, j: int| 0 <= i < ids.len() && 0 <= j < ids.len() && i != j implies ids[i]
        != ids[j] by {}
    ids.unique_seq_to_set();
    assert(ids.to_set() =~= items.dom()) by {
        assert forall|id: u64| items.dom().contains(id) implies ids.to_set().contains(id) by {
            let i = choose|i: int| 0 <= i < entries.len() && entries[i].0 == id;
            assert(ids[i] == id);
        }
        assert forall|id: u64| ids.to_set().contains(id) implies items.dom().contains(id) by {
            let i = choose|i: int| 0 <= i < ids.len() && ids[i] == id;
            assert(items.contains_key(entries[i].0));
        }
    }
}

/// A request that begins with `POST /todos HTTP/1.1\r\n` and has a
/// `todo=<text>` line is routed as an add of that text, whatever else it holds;
/// `handle_request` then stores the text under the next id and sends the
/// fragment of the new store.
pub proof fn lemma_add_request_routes(request: Seq<char>)
    requires
        starts_with(request, "POST /todos HTTP/1.1\r\n"@),
        add_text(request) is Some,
    ensures
        classified(request) == Ok::<RequestView, RequestError>(
            RequestView::AddTodo(add_text(request)->Some_0),
        ),
{
    reveal_strlit("POST /todos HTTP/1.1\r\n");
    reveal_strlit("GET / HTTP/1.1\r\n");
    reveal_strlit("GET /todos HTTP/1.1\r\n");
    assert(("POST /todos HTTP/1.1\r\n"@).len() == 22);
    assert(("POST /todos HTTP/1.1\r\n"@)[0] == 'P');
    assert(request.subrange(0, 22)[0] == 'P');
    assert(request[0] == 'P');
    assert(!starts_with(request, "GET / HTTP/1.1\r\n"@)) by {
        if starts_with(request, "GET / HTTP/1.1\r\n"@) {
            assert(request.subrange(0, 16)[0] == 'G');
        }
    }
    assert(!starts_with(request, "GET /todos HTTP/1.1\r\n"@)) by {
        if starts_with(request, "GET /todos HTTP/1.1\r\n"@) {
            assert(request.subrange(0, 21)[0] == 'G');
        }
    }
}

} // verus!
