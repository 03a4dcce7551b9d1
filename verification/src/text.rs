//! Small operations on text, stated over sequences of characters.

use vstd::prelude::*;
use vstd::string::StrSliceExecFns;
use vstd::string::StringExecFns;
use vstd::string::StringSliceAdditionalSpecFns;
use vstd::utf8::encode_utf8_decode_utf8;

verus! {

/// Whether two texts hold the same characters.
pub fn same_text(a: &str, b: &str) -> (r: bool)
    ensures
        r == (a@ == b@),
{
    let x = a.as_bytes();
    let y = b.as_bytes();
    proof {
        encode_utf8_decode_utf8(a@);
        encode_utf8_decode_utf8(b@);
    }
    if x.len() != y.len() {
        return false;
    }
    let mut i: usize = 0;
    while i < x.len()
        invariant
            i <= x.len(),
            x.len() == y.len(),
            x@ == a.spec_bytes(),
            y@ == b.spec_bytes(),
            forall|k: int| 0 <= k < i ==> x@[k] == y@[k],
        decreases x.len() - i,
    {
        if x[i] != y[i] {
            return false;
        }
        i = i + 1;
    }
    assert(x@ =~= y@);
    true
}

/// `text` without the characters `mark` that it starts with.
pub open spec fn without_leading(text: Seq<char>, mark: char) -> Seq<char>
    decreases text.len(),
{
    if text.len() > 0 && text[0] == mark {
        without_leading(text.drop_first(), mark)
    } else {
        text
    }
}

/// Removes every `mark` that `text` starts with.
pub fn trim_leading(text: &str, mark: char) -> (r: String)
    ensures
        r@ == without_leading(text@, mark),
{
    let n = text.unicode_len();
    let mut i: usize = 0;
    assert(text@.skip(0) =~= text@);
    while i < n && text.get_char(i) == mark
        invariant
            i <= n,
            n == text@.len(),
            without_leading(text@, mark) == without_leading(text@.skip(i as int), mark),
        decreases n - i,
    {
        assert(text@.skip(i as int).drop_first() =~= text@.skip(i + 1));
        i = i + 1;
    }
    assert(text@.subrange(i as int, n as int) =~= text@.skip(i as int));
    String::from_str(text.substring_char(i, n))
}

/// `text`, followed by `mark` unless it ends with it already.
pub open spec fn closed_with(text: Seq<char>, mark: char) -> Seq<char> {
    if text.len() > 0 && text.last() == mark {
        text
    } else {
        text.push(mark)
    }
}

} // verus!
