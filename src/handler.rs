use vstd::prelude::*;
use vstd::string::StringExecFns;
use crate::render::{fragment, render_entries};
use crate::request::{classified, classify, Request, RequestView};
use crate::response::{NOT_FOUND_STATUS, OK_STATUS};
use crate::store::{is_listing, TodoStore};

verus! {

/// What the connection does after a request has been handled.
#[derive(Debug, Clone)]
pub enum Action {
    /// Answer 200 with the home document.
    ServeHome,
    /// Answer 404 with the not-found document.
    ServeNotFound,
    /// Answer 200 with this body.
    Send(String),
    /// Close the connection without an answer.
    Drop,
}

/// The body sent in answer to `GET /todos`, whatever the store holds.
pub open spec fn placeholder() -> Seq<char> {
    "no todos"@
}

/// `a` sends the fragment of some listing of `items`.
pub open spec fn sends_listing(a: Action, items: Map<u64, Seq<char>>) -> bool {
    &&& a is Send
    &&& exists|entries: Seq<(u64, Seq<char>)>|
        #[trigger] is_listing(entries, items) && a->Send_0@ == fragment(entries)
}

/// `s` and `t` hold the same todos and assign the same next id.
pub open spec fn same_store(s: TodoStore, t: TodoStore) -> bool {
    s.items() == t.items() && s.next() == t.next()
}

/// The fragment of every todo in `store`.
fn render_store(store: &TodoStore) -> (r: String)
    requires
        store.wf(),
    ensures
        exists|entries: Seq<(u64, Seq<char>)>|
            #[trigger] is_listing(entries, store.items()) && r@ == fragment(entries),
{
    let entries = store.snapshot();
    render_entries(&entries)
}

/// Handles one request against `store`: classifies it, applies an add or a
/// delete, and says what to answer. A malformed add or delete, and an add when
/// no id is left, change nothing and close the connection.
pub fn handle_request(store: &mut TodoStore, request: &str) -> (a: Action)
    requires
        old(store).wf(),
    ensures
        final(store).wf(),
        match classified(request@) {
            Ok(RequestView::Home) => same_store(*final(store), *old(store)) && a is ServeHome,
            Ok(RequestView::GetTodos) => same_store(*final(store), *old(store)) && a is Send
                && a->Send_0@ == placeholder(),
            Ok(RequestView::AddTodo(t)) => if old(store).next() < u64::MAX {
                &&& final(store).items() == old(store).items().insert(old(store).next(), t)
                &&& final(store).next() == old(store).next() + 1
                &&& sends_listing(a, final(store).items())
            } else {
                same_store(*final(store), *old(store)) && a is Drop
            },
            Ok(RequestView::DeleteTodo(id)) => {
                &&& final(store).items() == old(store).items().remove(id)
                &&& final(store).next() == old(store).next()
                &&& sends_listing(a, final(store).items())
            },
            Ok(RequestView::Unrecognized(_)) => same_store(*final(store), *old(store))
                && a is ServeNotFound,
            Err(_) => same_store(*final(store), *old(store)) && a is Drop,
        },
{
    match classify(request) {
        Ok(Request::Home) => Action::ServeHome,
        Ok(Request::GetTodos) => Action::Send(String::from_str("no todos")),
        Ok(Request::AddTodo(text)) => {
            if store.next_id() == u64::MAX {
                Action::Drop
            } else {
                store.insert(text);
                Action::Send(render_store(store))
            }
        },
        Ok(Request::DeleteTodo(id)) => {
            store.remove(id);
            Action::Send(render_store(store))
        },
        Ok(Request::Unrecognized(_)) => Action::ServeNotFound,
        Err(_) => Action::Drop,
    }
}

/// The status line that answers `a`, or `None` when `a` sends nothing.
pub fn status_line(a: &Action) -> (r: Option<&'static str>)
    ensures
        match a {
            Action::ServeHome | Action::Send(_) => r == Some(OK_STATUS),
            Action::ServeNotFound => r == Some(NOT_FOUND_STATUS),
            Action::Drop => r is None,
        },
{
    match a {
        Action::ServeHome | Action::Send(_) => Some(OK_STATUS),
        Action::ServeNotFound => Some(NOT_FOUND_STATUS),
        Action::Drop => None,
    }
}

} // verus!
