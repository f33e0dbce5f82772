use vstd::prelude::*;

verus! {

/// heapless' string of bounded capacity, in bytes of UTF-8.
#[verifier::external_type_specification]
#[verifier::external_body]
pub struct ExString<const N: usize>(heapless::String<N>);

/// Capacity, in bytes of UTF-8, of every text the library formats or draws.
pub const TEXT_CAPACITY: usize = 60;

/// A text of bounded length, stored without allocation.
pub type Text = heapless::String<60>;

/// The characters of a text.
pub uninterp spec fn text_chars(t: Text) -> Seq<char>;

/// Bytes that a character takes in UTF-8.
pub open spec fn utf8_len(c: char) -> nat {
    if (c as u32) < 0x80 {
        1
    } else if (c as u32) < 0x800 {
        2
    } else if (c as u32) < 0x10000 {
        3
    } else {
        4
    }
}

/// Bytes that the characters take in UTF-8.
pub open spec fn utf8_size(s: Seq<char>) -> nat
    decreases s.len(),
{
    if s.len() == 0 {
        0
    } else {
        utf8_size(s.subrange(0, s.len() - 1)) + utf8_len(s[s.len() - 1])
    }
}

/// Relies on heapless' `String::new`: an empty string.
#[verifier::external_body]
pub fn text_new() -> (r: Text)
    ensures
        text_chars(r) == Seq::<char>::empty(),
{
    heapless::String::new()
}

/// Relies on heapless' `String::push`: the character is appended when its
/// UTF-8 bytes fit in the remaining capacity, and nothing changes otherwise.
#[verifier::external_body]
pub fn text_push(t: &mut Text, c: char) -> (r: bool)
    ensures
        r == (utf8_size(text_chars(*old(t))) + utf8_len(c) <= TEXT_CAPACITY),
        text_chars(*final(t)) == if r { text_chars(*old(t)).push(c) } else { text_chars(*old(t)) },
{
    t.push(c).is_ok()
}

/// Appends a character that fits.
pub fn put(out: &mut Text, c: char)
    requires
        utf8_size(text_chars(*old(out))) + utf8_len(c) <= TEXT_CAPACITY,
    ensures
        text_chars(*final(out)) == text_chars(*old(out)).push(c),
        utf8_size(text_chars(*final(out))) == utf8_size(text_chars(*old(out))) + utf8_len(c),
{
    let ok = text_push(out, c);
    proof {
        let s = text_chars(*old(out));
        assert(s.push(c).subrange(0, s.len() as int) =~= s);
    }
}

} // verus!
