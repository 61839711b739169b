//! Copying to the system clipboard with the OSC 52 terminal escape, which works
//! over SSH and inside multiplexers when the terminal supports it.
use crate::b64;
use crate::text;
use vstd::prelude::*;
use vstd::utf8::*;

verus! {

/// The escape sequence that puts `s` into the clipboard: the base64 of its
/// UTF-8 bytes between the OSC 52 introducer and BEL.
pub open spec fn copy_escape(s: Seq<char>) -> Seq<char> {
    "\x1b]52;c;"@ + b64::base64(encode_utf8(s)) + "\x07"@
}

/// The escape sequence that puts `s` into the clipboard.
pub fn copy_to_clipboard(s: &str) -> (r: String)
    ensures
        r@ == copy_escape(s@),
{
    let mut r = text::owned("\x1b]52;c;");
    r.append(b64::base64_encode(s.as_bytes()).as_str());
    r.append("\x07");
    r
}

// ---------------------------------------------------------------------------
// Laws
// ---------------------------------------------------------------------------
/// The clipboard gets the text: what stands between the introducer and the end of
/// the escape sequence decodes to its bytes.
pub proof fn the_clipboard_gets_the_text(s: Seq<char>)
    ensures
        ({
            let all = copy_escape(s);
            let payload = all.subrange(7, all.len() - 1);
            &&& all.take(7) == "\x1b]52;c;"@
            &&& all.last() == '\x07'
            &&& b64::base64_bytes(payload) == encode_utf8(s)
        }),
{
    reveal_strlit("\x1b]52;c;");
    reveal_strlit("\x07");
    let all = copy_escape(s);
    let payload = b64::base64(encode_utf8(s));
    assert(all.subrange(7, all.len() - 1) =~= payload);
    assert(all.take(7) =~= "\x1b]52;c;"@);
    b64::base64_round_trip(encode_utf8(s));
}

} // verus!
