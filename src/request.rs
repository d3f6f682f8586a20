use vstd::prelude::*;
use crate::text::{
    find_char, find_space, is_space, starts_with, lemma_find_char_bounds, lemma_find_space_bounds,
    find_char_in, find_space_in, is_whitespace, starts_with_in,
};

verus! {

/// The line of `s` that starts at `start`: up to the next line feed, less a
/// carriage return just before that line feed.
pub open spec fn line_at(s: Seq<char>, start: nat) -> Seq<char> {
    let e = find_char(s, '\n', start);
    if e < s.len() && start < e && s[e - 1] == '\r' {
        s.subrange(start as int, e - 1)
    } else {
        s.subrange(start as int, e as int)
    }
}

/// The lines of `s` from position `start` on, as `str::lines` yields them.
pub open spec fn lines_from(s: Seq<char>, start: nat) -> Seq<Seq<char>>
    decreases s.len() + 1 - start,
    via lines_from_decreases
{
    if start >= s.len() {
        seq![]
    } else {
        seq![line_at(s, start)] + lines_from(s, find_char(s, '\n', start) + 1)
    }
}

#[via_fn]
proof fn lines_from_decreases(s: Seq<char>, start: nat) {
    if start < s.len() {
        lemma_find_char_bounds(s, '\n', start);
    }
}

/// The lines of `s`, as `str::lines` yields them.
pub open spec fn lines(s: Seq<char>) -> Seq<Seq<char>> {
    lines_from(s, 0)
}

/// What follows the first `=` of a line of the form `todo=<text>`: the text
/// before that `=` is exactly `todo`.
pub open spec fn todo_text(line: Seq<char>) -> Option<Seq<char>> {
    let i = find_char(line, '=', 0);
    if starts_with(line, "todo"@) && i == 4 && i < line.len() {
        Some(line.subrange(i + 1 as int, line.len() as int))
    } else {
        None
    }
}

/// The todo text of the first line in `ls` that holds one.
pub open spec fn first_todo_text(ls: Seq<Seq<char>>) -> Option<Seq<char>>
    decreases ls.len(),
{
    if ls.len() == 0 {
        None
    } else if todo_text(ls[0]) is Some {
        todo_text(ls[0])
    } else {
        first_todo_text(ls.drop_first())
    }
}

/// The text that an add request carries.
pub open spec fn add_text(request: Seq<char>) -> Option<Seq<char>> {
    first_todo_text(lines(request))
}

/// The whitespace-separated tokens of `l` from position `p` on, as
/// `str::split_whitespace` yields them.
pub open spec fn tokens_from(l: Seq<char>, p: nat) -> Seq<Seq<char>>
    decreases l.len() - p,
    via tokens_from_decreases
{
    if p >= l.len() {
        seq![]
    } else if is_space(l[p as int]) {
        tokens_from(l, p + 1)
    } else {
        seq![l.subrange(p as int, find_space(l, p) as int)] + tokens_from(l, find_space(l, p))
    }
}

#[via_fn]
proof fn tokens_from_decreases(l: Seq<char>, p: nat) {
    if p < l.len() && !is_space(l[p as int]) {
        lemma_find_space_bounds(l, p + 1);
    }
}

/// The pieces of `t` between slashes from position `p` on, as `str::split('/')`
/// yields them.
pub open spec fn segments_from(t: Seq<char>, p: nat) -> Seq<Seq<char>>
    decreases t.len() + 1 - p,
    via segments_from_decreases
{
    if p > t.len() {
        seq![]
    } else if find_char(t, '/', p) < t.len() {
        seq![t.subrange(p as int, find_char(t, '/', p) as int)] + segments_from(
            t,
            find_char(t, '/', p) + 1,
        )
    } else {
        seq![t.subrange(p as int, t.len() as int)]
    }
}

#[via_fn]
proof fn segments_from_decreases(t: Seq<char>, p: nat) {
    if p <= t.len() {
        lemma_find_char_bounds(t, '/', p);
    }
}

pub open spec fn is_digit(c: char) -> bool {
    '0' as u32 <= c as u32 <= '9' as u32
}

/// The number that the decimal digits `d` write.
pub open spec fn digits_value(d: Seq<char>) -> nat
    decreases d.len(),
{
    if d.len() == 0 {
        0
    } else {
        digits_value(d.drop_last()) * 10 + (d.last() as u32 - '0' as u32) as nat
    }
}

/// What `str::parse::<u64>` gives: an optional `+`, then one or more decimal
/// digits whose value fits in a `u64`.
pub open spec fn parse_u64(t: Seq<char>) -> Option<u64> {
    if t.len() > 1 && t[0] == '+' {
        parse_digits(t.subrange(1, t.len() as int))
    } else {
        parse_digits(t)
    }
}

/// One or more decimal digits whose value fits in a `u64`.
pub open spec fn parse_digits(d: Seq<char>) -> Option<u64> {
    if d.len() > 0 && (forall|i: int| 0 <= i < d.len() ==> is_digit(#[trigger] d[i]))
        && digits_value(d) <= u64::MAX {
        Some(digits_value(d) as u64)
    } else {
        None
    }
}

/// The first of `gs` that parses as a `u64`.
pub open spec fn first_number(gs: Seq<Seq<char>>) -> Option<u64>
    decreases gs.len(),
{
    if gs.len() == 0 {
        None
    } else if parse_u64(gs[0]) is Some {
        parse_u64(gs[0])
    } else {
        first_number(gs.drop_first())
    }
}

/// The id in a path token that begins with `/todos`.
pub open spec fn token_id(t: Seq<char>) -> Option<u64> {
    if starts_with(t, "/todos"@) {
        first_number(segments_from(t, 0))
    } else {
        None
    }
}

/// The id of the first token of `ts` that holds one.
pub open spec fn first_token_id(ts: Seq<Seq<char>>) -> Option<u64>
    decreases ts.len(),
{
    if ts.len() == 0 {
        None
    } else if token_id(ts[0]) is Some {
        token_id(ts[0])
    } else {
        first_token_id(ts.drop_first())
    }
}

/// The id that a line beginning with `DELETE` names.
pub open spec fn line_id(line: Seq<char>) -> Option<u64> {
    if starts_with(line, "DELETE"@) {
        first_token_id(tokens_from(line, 0))
    } else {
        None
    }
}

/// The id of the first line of `ls` that names one.
pub open spec fn first_line_id(ls: Seq<Seq<char>>) -> Option<u64>
    decreases ls.len(),
{
    if ls.len() == 0 {
        None
    } else if line_id(ls[0]) is Some {
        line_id(ls[0])
    } else {
        first_line_id(ls.drop_first())
    }
}

/// The id that a delete request names.
pub open spec fn delete_id(request: Seq<char>) -> Option<u64> {
    first_line_id(lines(request))
}

/// The end of the line of `request` that starts at `pos`, and the end of its
/// text (before a carriage return that precedes the line feed).
fn line_bounds(request: &str, n: usize, pos: usize) -> (r: (usize, usize))
    requires
        n == request@.len(),
        pos < n,
    ensures
        r.0 == find_char(request@, '\n', pos as nat),
        pos <= r.1 <= r.0 <= n,
        request@.subrange(pos as int, r.1 as int) == line_at(request@, pos as nat),
{
    assert(request@.subrange(0, n as int) =~= request@);
    let e = find_char_in(request, 0, n, '\n', pos);
    if e < n && pos < e && request.get_char(e - 1) == '\r' {
        (e, e - 1)
    } else {
        (e, e)
    }
}

/// The text after `todo=` on the first request line of the form
/// `todo=<text>`, or `None` when there is no such line.
pub fn parse_add_request(request: &str) -> (r: Option<&str>)
    ensures
        match r {
            Some(t) => add_text(request@) == Some(t@),
            None => add_text(request@) is None,
        },
{
    let n = request.unicode_len();
    let mut pos: usize = 0;
    while pos < n
        invariant
            n == request@.len(),
            pos <= n,
            add_text(request@) == first_todo_text(lines_from(request@, pos as nat)),
        decreases n - pos,
    {
        let (e, le) = line_bounds(request, n, pos);
        let ghost line = line_at(request@, pos as nat);
        let ghost rest = lines_from(request@, (e + 1) as nat);
        assert((seq![line] + rest).drop_first() =~= rest);
        assert(lines_from(request@, pos as nat) == seq![line] + rest);
        if starts_with_in(request, pos, le, "todo") {
            let q = find_char_in(request, pos, le, '=', 0);
            if q == 4 && q < le - pos {
                let t = request.substring_char(pos + q + 1, le);
                assert(t@ =~= line.subrange(q + 1, line.len() as int));
                return Some(t);
            }
        }
        if e >= n {
            assert(rest == lines_from(request@, n as nat));
            pos = n;
        } else {
            pos = e + 1;
        }
    }
    None
}

} // verus!

verus! {

proof fn lemma_digits_value_prefix(d: Seq<char>, k: int)
    requires
        0 <= k <= d.len(),
    ensures
        digits_value(d.subrange(0, k)) <= digits_value(d),
    decreases d.len() - k,
{
    if k < d.len() {
        lemma_digits_value_prefix(d, k + 1);
        assert(d.subrange(0, k + 1).drop_last() =~= d.subrange(0, k));
    } else {
        assert(d.subrange(0, k) =~= d);
    }
}

/// `parse_u64` of `s[a..b]`.
fn number_in(s: &str, a: usize, b: usize) -> (r: Option<u64>)
    requires
        a <= b <= s@.len(),
    ensures
        r == parse_u64(s@.subrange(a as int, b as int)),
{
    let ghost t = s@.subrange(a as int, b as int);
    let mut start = a;
    if b - a > 1 && s.get_char(a) == '+' {
        start = a + 1;
    }
    let ghost d = s@.subrange(start as int, b as int);
    assert(t.len() > 1 && t[0] == '+' ==> d =~= t.subrange(1, t.len() as int));
    assert(!(t.len() > 1 && t[0] == '+') ==> d =~= t);
    if start == b {
        return None;
    }
    let mut i = start;
    while i < b
        invariant
            start <= i <= b <= s@.len(),
            d == s@.subrange(start as int, b as int),
            parse_u64(s@.subrange(a as int, b as int)) == parse_digits(d),
            forall|k: int| 0 <= k < i - start ==> is_digit(#[trigger] d[k]),
        decreases b - i,
    {
        let u = s.get_char(i) as u32;
        if !(0x30 <= u && u <= 0x39) {
            assert(!is_digit(d[i - start]));
            return None;
        }
        i = i + 1;
    }
    let mut v: u64 = 0;
    let mut i = start;
    while i < b
        invariant
            start <= i <= b <= s@.len(),
            d == s@.subrange(start as int, b as int),
            parse_u64(s@.subrange(a as int, b as int)) == parse_digits(d),
            forall|k: int| 0 <= k < d.len() ==> is_digit(#[trigger] d[k]),
            v == digits_value(d.subrange(0, i - start)),
        decreases b - i,
    {
        let c = s.get_char(i);
        assert(d[i - start] == c);
        assert(is_digit(d[i - start]));
        let dig = (c as u32 - '0' as u32) as u64;
        assert(d.subrange(0, i - start + 1).drop_last() =~= d.subrange(0, i - start));
        match v.checked_mul(10) {
            Some(m) => match m.checked_add(dig) {
                Some(w) => {
                    v = w;
                },
                None => {
                    proof {
                        lemma_digits_value_prefix(d, i - start + 1);
                    }
                    return None;
                },
            },
            None => {
                proof {
                    lemma_digits_value_prefix(d, i - start + 1);
                }
                return None;
            },
        }
        i = i + 1;
    }
    assert(d.subrange(0, d.len() as int) =~= d);
    Some(v)
}

/// `token_id` of `s[a..b]`.
fn token_id_in(s: &str, a: usize, b: usize) -> (r: Option<u64>)
    requires
        a <= b <= s@.len(),
    ensures
        r == token_id(s@.subrange(a as int, b as int)),
{
    let ghost t = s@.subrange(a as int, b as int);
    if !starts_with_in(s, a, b, "/todos") {
        return None;
    }
    let mut p: usize = 0;
    loop
        invariant
            a <= b <= s@.len(),
            t == s@.subrange(a as int, b as int),
            p <= b - a,
            token_id(t) == first_number(segments_from(t, p as nat)),
        decreases b - a - p,
    {
        let e = find_char_in(s, a, b, '/', p);
        let ghost g = t.subrange(p as int, e as int);
        assert(g =~= s@.subrange(a + p, a + e));
        let v = number_in(s, a + p, a + e);
        if e < b - a {
            let ghost rest = segments_from(t, (e + 1) as nat);
            assert((seq![g] + rest).drop_first() =~= rest);
            if v.is_some() {
                return v;
            }
            p = e + 1;
        } else {
            assert(seq![g].drop_first() =~= Seq::<Seq<char>>::empty());
            assert(first_number(Seq::<Seq<char>>::empty()) is None);
            assert(segments_from(t, p as nat) == seq![g]);
            return v;
        }
    }
}

/// `line_id` of `s[a..b]`.
fn line_id_in(s: &str, a: usize, b: usize) -> (r: Option<u64>)
    requires
        a <= b <= s@.len(),
    ensures
        r == line_id(s@.subrange(a as int, b as int)),
{
    let ghost l = s@.subrange(a as int, b as int);
    if !starts_with_in(s, a, b, "DELETE") {
        return None;
    }
    let mut p: usize = 0;
    while p < b - a
        invariant
            a <= b <= s@.len(),
            l == s@.subrange(a as int, b as int),
            p <= b - a,
            line_id(l) == first_token_id(tokens_from(l, p as nat)),
        decreases b - a - p,
    {
        if is_whitespace(s.get_char(a + p)) {
            p = p + 1;
        } else {
            let e = find_space_in(s, a, b, p);
            proof {
                lemma_find_space_bounds(l, (p + 1) as nat);
            }
            let ghost tok = l.subrange(p as int, e as int);
            let ghost rest = tokens_from(l, e as nat);
            assert((seq![tok] + rest).drop_first() =~= rest);
            assert(tok =~= s@.subrange(a + p, a + e));
            let v = token_id_in(s, a + p, a + e);
            if v.is_some() {
                return v;
            }
            p = e;
        }
    }
    None
}

/// The id in the first `/todos` path token of the first request line that
/// begins with `DELETE` and holds one: the first piece of the token, split on
/// `/`, that parses as a `u64`.
pub fn parse_delete_request(request: &str) -> (r: Option<u64>)
    ensures
        r == delete_id(request@),
{
    let n = request.unicode_len();
    let mut pos: usize = 0;
    while pos < n
        invariant
            n == request@.len(),
            pos <= n,
            delete_id(request@) == first_line_id(lines_from(request@, pos as nat)),
        decreases n - pos,
    {
        let (e, le) = line_bounds(request, n, pos);
        let ghost line = line_at(request@, pos as nat);
        let ghost rest = lines_from(request@, (e + 1) as nat);
        assert((seq![line] + rest).drop_first() =~= rest);
        assert(lines_from(request@, pos as nat) == seq![line] + rest);
        let v = line_id_in(request, pos, le);
        if v.is_some() {
            return v;
        }
        if e >= n {
            assert(rest == lines_from(request@, n as nat));
            pos = n;
        } else {
            pos = e + 1;
        }
    }
    None
}

} // verus!

verus! {

/// What a request asks for.
#[derive(Debug, Clone)]
pub enum Request {
    /// `GET /`: the home document.
    Home,
    /// `GET /todos`: the placeholder text.
    GetTodos,
    /// `POST /todos`: add a todo with this text.
    AddTodo(String),
    /// `DELETE /todos/<id>`: delete the todo with this id.
    DeleteTodo(u64),
    /// Anything else; holds the whole request.
    Unrecognized(String),
}

/// A `Request` with its strings seen as character sequences.
pub enum RequestView {
    Home,
    GetTodos,
    AddTodo(Seq<char>),
    DeleteTodo(u64),
    Unrecognized(Seq<char>),
}

impl View for Request {
    type V = RequestView;

    open spec fn view(&self) -> RequestView {
        match self {
            Request::Home => RequestView::Home,
            Request::GetTodos => RequestView::GetTodos,
            Request::AddTodo(t) => RequestView::AddTodo(t@),
            Request::DeleteTodo(id) => RequestView::DeleteTodo(*id),
            Request::Unrecognized(r) => RequestView::Unrecognized(r@),
        }
    }
}

/// Why a recognised request cannot be carried out.
#[derive(Debug, Clone, Copy, PartialEq, Eq, Structural)]
pub enum RequestError {
    /// An add request with no `todo=<text>` line.
    MissingTodo,
    /// A delete request with no id in its `/todos` path.
    MissingId,
}

/// How `request` is routed: by the literal text it begins with, in this order.
pub open spec fn classified(request: Seq<char>) -> Result<RequestView, RequestError> {
    if starts_with(request, "GET / HTTP/1.1\r\n"@) {
        Ok(RequestView::Home)
    } else if starts_with(request, "GET /todos HTTP/1.1\r\n"@) {
        Ok(RequestView::GetTodos)
    } else if starts_with(request, "POST /todos HTTP/1.1\r\n"@) {
        match add_text(request) {
            Some(t) => Ok(RequestView::AddTodo(t)),
            None => Err(RequestError::MissingTodo),
        }
    } else if starts_with(request, "DELETE /todos"@) {
        match delete_id(request) {
            Some(id) => Ok(RequestView::DeleteTodo(id)),
            None => Err(RequestError::MissingId),
        }
    } else {
        Ok(RequestView::Unrecognized(request))
    }
}

/// Routes `request` by the literal text it begins with and takes out what the
/// operation needs.
pub fn classify(request: &str) -> (r: Result<Request, RequestError>)
    ensures
        match r {
            Ok(q) => classified(request@) == Ok::<RequestView, RequestError>(q@),
            Err(e) => classified(request@) == Err::<RequestView, RequestError>(e),
        },
{
    let n = request.unicode_len();
    assert(request@.subrange(0, n as int) =~= request@);
    if starts_with_in(request, 0, n, "GET / HTTP/1.1\r\n") {
        Ok(Request::Home)
    } else if starts_with_in(request, 0, n, "GET /todos HTTP/1.1\r\n") {
        Ok(Request::GetTodos)
    } else if starts_with_in(request, 0, n, "POST /todos HTTP/1.1\r\n") {
        match parse_add_request(request) {
            Some(t) => Ok(Request::AddTodo(t.to_owned())),
            None => Err(RequestError::MissingTodo),
        }
    } else if starts_with_in(request, 0, n, "DELETE /todos") {
        match parse_delete_request(request) {
            Some(id) => Ok(Request::DeleteTodo(id)),
            None => Err(RequestError::MissingId),
        }
    } else {
        Ok(Request::Unrecognized(request.to_owned()))
    }
}

} // verus!
