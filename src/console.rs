//! The 0xE9 debug console of emulators: detection and the bytes written
//! for a piece of text.
use vstd::prelude::*;

verus! {

/// What reading port 0xE9 returns when the console is there.
pub const E9_SIGNATURE: u8 = 0xE9;

/// Whether a read of port 0xE9 shows the console.
pub fn detect(port_value: u8) -> (r: bool)
    ensures
        r == (port_value == E9_SIGNATURE),
{
    port_value == E9_SIGNATURE
}

/// `s` with a carriage return before every line feed.
pub open spec fn with_crlf(s: Seq<u8>) -> Seq<u8>
    decreases s.len(),
{
    if s.len() == 0 {
        Seq::empty()
    } else {
        with_crlf(s.drop_last()) + if s.last() == 10 { seq![13u8, 10u8] } else { seq![s.last()] }
    }
}

/// The bytes written to the console for `s`.
pub fn console_bytes(s: &Vec<u8>) -> (r: Vec<u8>)
    ensures
        r@ == with_crlf(s@),
{
    let mut r: Vec<u8> = Vec::new();
    let mut i: usize = 0;
    proof {
        assert(s@.subrange(0, 0) =~= Seq::<u8>::empty());
    }
    while i < s.len()
        invariant
            0 <= i <= s@.len(),
            r@ == with_crlf(s@.subrange(0, i as int)),
        decreases s@.len() - i,
    {
        let b = s[i];
        proof {
            let sub = s@.subrange(0, i + 1);
            assert(sub.drop_last() =~= s@.subrange(0, i as int));
            assert(sub.last() == b);
        }
        let ghost r0 = r@;
        if b == 10 {
            r.push(13);
        }
        r.push(b);
        proof {
            if b == 10 {
                assert(r@ =~= r0 + seq![13u8, 10u8]);
            } else {
                assert(r@ =~= r0 + seq![b]);
            }
        }
        i = i + 1;
    }
    proof {
        assert(s@.subrange(0, s@.len() as int) =~= s@);
    }
    r
}

/// The bytes of a debug line: the text as it is, then a carriage return
/// and a line feed.
pub fn debug_line(s: &Vec<u8>) -> (r: Vec<u8>)
    ensures
        r@ == s@ + seq![13u8, 10u8],
{
    let mut r: Vec<u8> = Vec::new();
    let mut i: usize = 0;
    while i < s.len()
        invariant
            0 <= i <= s@.len(),
            r@ == s@.subrange(0, i as int),
        decreases s@.len() - i,
    {
        r.push(s[i]);
        proof {
            assert(r@ =~= s@.subrange(0, i + 1));
        }
        i = i + 1;
    }
    r.push(13);
    r.push(10);
    proof {
        assert(r@ =~= s@ + seq![13u8, 10u8]);
    }
    r
}

} // verus!
