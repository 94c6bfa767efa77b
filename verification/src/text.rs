//! Text helpers shared by the operators.
use vstd::prelude::*;
use vstd::utf8::*;

verus! {

broadcast use encode_utf8_decode_utf8;

/// Compares two strings by their characters.
pub fn same_text(a: &str, b: &str) -> (r: bool)
    ensures
        r == (a@ == b@),
{
    let x = a.as_bytes();
    let y = b.as_bytes();
    proof {
        assert(decode_utf8(x@) == a@);
        assert(decode_utf8(y@) == b@);
    }
    if x.len() != y.len() {
        return false;
    }
    let mut i: usize = 0;
    while i < x.len()
        invariant
            x@.len() == y@.len(),
            x@ == encode_utf8(a@),
            y@ == encode_utf8(b@),
            0 <= i <= x@.len(),
            forall|k: int| 0 <= k < i ==> x@[k] == y@[k],
        decreases x@.len() - i,
    {
        if x[i] != y[i] {
            return false;
        }
        i = i + 1;
    }
    proof {
        assert(x@ =~= y@);
    }
    true
}

/// Rust's debug rendering of a string: the text between double quotes, with
/// quotes, backslashes and control characters escaped.
pub uninterp spec fn debug_rendering(text: Seq<char>) -> Seq<char>;

/// Calls `format!("{:?}", text)` (std's `Debug` for `str`). The result is
/// named by `debug_rendering` of the characters; the escaping rules are not
/// written out here.
#[verifier::external_body]
pub(crate) fn render_debug(text: &str) -> (r: String)
    ensures
        r@ == debug_rendering(text@),
{
    format!("{:?}", text)
}

/// Calls `String::from_utf8`: succeeds exactly on valid UTF-8 and then holds
/// the decoded characters, as std documents.
#[verifier::external_body]
pub(crate) fn utf8_to_string(bytes: Vec<u8>) -> (r: Option<String>)
    ensures
        r is Some <==> valid_utf8(bytes@),
        r matches Some(s) ==> s@ == decode_utf8(bytes@),
{
    String::from_utf8(bytes).ok()
}

} // verus!
