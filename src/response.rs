use vstd::prelude::*;
use vstd::string::{StringExecFns, StringSliceAdditionalSpecFns};
use crate::request::digits_value;
use crate::text::{decimal, digit_char, push_decimal};

verus! {

/// The status line of a successful response.
pub const OK_STATUS: &'static str = "HTTP/1.1 200 OK";

/// The status line of a not-found response.
pub const NOT_FOUND_STATUS: &'static str = "HTTP/1.1 404 NOT FOUND";

/// The header that declares a body of `len` bytes, up to the blank line.
pub open spec fn length_header(len: nat) -> Seq<char> {
    "\r\nContent-Length: "@ + decimal(len) + "\r\n\r\n"@
}

/// A response: the status line, a `Content-Length` header that gives the
/// length of `content` in bytes (`str::len`), a blank line, then `content`.
pub fn format_response(status_line: &str, content: &str) -> (r: String)
    ensures
        r@ == status_line@ + length_header(content.len() as nat) + content@,
{
    let mut out = String::from_str(status_line);
    out.append("\r\nContent-Length: ");
    push_decimal(&mut out, content.len() as u64);
    out.append("\r\n\r\n");
    out.append(content);
    assert(out@ =~= status_line@ + length_header(content.len() as nat) + content@);
    out
}

/// The numeral that `Content-Length` carries reads back as the length it was
/// written from.
pub proof fn lemma_decimal_value(n: nat)
    ensures
        digits_value(decimal(n)) == n,
    decreases n,
{
    let d = n % 10;
    assert((digit_char(d) as u32 - '0' as u32) as nat == d);
    if n >= 10 {
        lemma_decimal_value(n / 10);
        assert(decimal(n).drop_last() =~= decimal(n / 10));
    } else {
        assert(decimal(n).drop_last() =~= Seq::<char>::empty());
        assert(digits_value(Seq::<char>::empty()) == 0);
    }
}

} // verus!
