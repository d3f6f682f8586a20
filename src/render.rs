use std::collections::HashMap;
use vstd::prelude::*;
use vstd::string::StringExecFns;
use crate::store::{entries_of, entries_view, is_listing, text_map};
use crate::text::{decimal, push_decimal};

verus! {

/// The list item of one todo: its text, then a button that deletes it by id.
pub open spec fn item_markup(id: u64, text: Seq<char>) -> Seq<char> {
    "<li>"@ + text + " <button hx-delete=\"/todos/"@ + decimal(id as nat)
        + "\" hx-swap=\"innerHTML\" hx-target=\"#todos\">delete</button></li>\n\n"@
}

/// The list item of each entry, in the entries' order.
pub open spec fn markup_items(entries: Seq<(u64, Seq<char>)>) -> Seq<Seq<char>> {
    entries.map_values(|e: (u64, Seq<char>)| item_markup(e.0, e.1))
}

/// The HTML fragment of `entries`: their list items, one after another.
pub open spec fn fragment(entries: Seq<(u64, Seq<char>)>) -> Seq<char> {
    markup_items(entries).flatten()
}

/// The fragment of `entries`, in their order.
pub fn render_entries(entries: &Vec<(u64, String)>) -> (r: String)
    ensures
        r@ == fragment(entries_view(entries@)),
{
    let ghost es = entries_view(entries@);
    let mut out = String::new();
    let mut i: usize = 0;
    while i < entries.len()
        invariant
            i <= entries.len(),
            es == entries_view(entries@),
            out@ == markup_items(es.subrange(0, i as int)).flatten(),
        decreases entries.len() - i,
    {
        let (id, text) = &entries[i];
        let ghost before = out@;
        out.append("<li>");
        out.append(text.as_str());
        out.append(" <button hx-delete=\"/todos/");
        push_decimal(&mut out, *id);
        out.append("\" hx-swap=\"innerHTML\" hx-target=\"#todos\">delete</button></li>\n\n");
        proof {
            let head = markup_items(es.subrange(0, i as int));
            assert(markup_items(es.subrange(0, i + 1)) =~= head.push(item_markup(*id, text@)));
            head.lemma_flatten_push(item_markup(*id, text@));
            assert(out@ =~= before + item_markup(*id, text@));
        }
        i = i + 1;
    }
    assert(es.subrange(0, es.len() as int) =~= es);
    out
}

/// The fragment of every todo in `todos`, in the map's own order.
pub fn todo_hashmap_to_string(todos: &mut HashMap<u64, String>) -> (r: String)
    ensures
        final(todos)@ == old(todos)@,
        exists|entries: Seq<(u64, Seq<char>)>|
            #[trigger] is_listing(entries, text_map(old(todos)@)) && r@ == fragment(entries),
{
    let entries = entries_of(todos);
    render_entries(&entries)
}

} // verus!
