//! IPv4 addresses.

use crate::text;
use vstd::prelude::*;

verus! {

/// An IPv4 address, as its four octets in network order.
#[derive(Debug, Clone, Copy, PartialEq, Eq, Structural)]
pub struct Ipv4Addr {
    pub a: u8,
    pub b: u8,
    pub c: u8,
    pub d: u8,
}

impl Ipv4Addr {
    /// The octets, in the order they go on the wire.
    pub open spec fn spec_octets(self) -> Seq<u8> {
        seq![self.a, self.b, self.c, self.d]
    }

    /// The usual dotted form.
    pub open spec fn dotted(self) -> Seq<char> {
        text::decimal(self.a as nat) + "."@ + text::decimal(self.b as nat) + "."@ + text::decimal(self.c as nat)
            + "."@ + text::decimal(self.d as nat)
    }

    pub fn new(a: u8, b: u8, c: u8, d: u8) -> (addr: Ipv4Addr)
        ensures
            addr == (Ipv4Addr { a, b, c, d }),
    {
        Ipv4Addr { a, b, c, d }
    }

    /// 0.0.0.0, which stands for an address that has not been reported.
    pub fn unspecified() -> (addr: Ipv4Addr)
        ensures
            addr == (Ipv4Addr { a: 0, b: 0, c: 0, d: 0 }),
    {
        Ipv4Addr { a: 0, b: 0, c: 0, d: 0 }
    }

    pub fn octets(self) -> (octets: [u8; 4])
        ensures
            octets@ == self.spec_octets(),
    {
        [self.a, self.b, self.c, self.d]
    }

    /// Appends the dotted form.
    pub fn push_dotted(self, out: &mut String)
        ensures
            final(out)@ == old(out)@ + self.dotted(),
    {
        let ghost before = out@;
        text::push_decimal(out, self.a as u64);
        out.append(".");
        text::push_decimal(out, self.b as u64);
        out.append(".");
        text::push_decimal(out, self.c as u64);
        out.append(".");
        text::push_decimal(out, self.d as u64);
        assert(out@ == before + self.dotted());
    }
}

proof fn lemma_dotted_behind(front: Seq<char>, addr: Ipv4Addr)
    ensures
        front + addr.dotted() == front + text::decimal(addr.a as nat) + "."@ + text::decimal(
            addr.b as nat,
        ) + "."@ + text::decimal(addr.c as nat) + "."@ + text::decimal(addr.d as nat),
{
    let dot = "."@;
    let p1 = text::decimal(addr.a as nat);
    let p2 = p1 + dot;
    let p3 = p2 + text::decimal(addr.b as nat);
    let p4 = p3 + dot;
    let p5 = p4 + text::decimal(addr.c as nat);
    let p6 = p5 + dot;
    assert(front + p2 == front + p1 + dot);
    assert(front + p3 == (front + p2) + text::decimal(addr.b as nat));
    assert(front + p4 == (front + p3) + dot);
    assert(front + p5 == (front + p4) + text::decimal(addr.c as nat));
    assert(front + p6 == (front + p5) + dot);
    assert(front + addr.dotted() == (front + p6) + text::decimal(addr.d as nat));
}

/// An address at the end of a text can be told from what stands before it, behind a word
/// that does not end with a digit.
pub proof fn lemma_word_and_address(
    s: Seq<char>,
    a: Ipv4Addr,
    t: Seq<char>,
    b: Ipv4Addr,
    word: Seq<char>,
)
    requires
        s + word + a.dotted() == t + word + b.dotted(),
        word.len() > 0 && !text::is_digit(word.last()),
    ensures
        a == b,
        s == t,
{
    reveal_strlit(".");
    let dot = "."@;
    let s1 = s + word + text::decimal(a.a as nat);
    let t1 = t + word + text::decimal(b.a as nat);
    let s2 = s1 + dot + text::decimal(a.b as nat);
    let t2 = t1 + dot + text::decimal(b.b as nat);
    let s3 = s2 + dot + text::decimal(a.c as nat);
    let t3 = t2 + dot + text::decimal(b.c as nat);
    lemma_dotted_behind(s + word, a);
    lemma_dotted_behind(t + word, b);
    text::lemma_word_and_number(s3, a.d as nat, t3, b.d as nat, dot);
    text::lemma_word_and_number(s2, a.c as nat, t2, b.c as nat, dot);
    text::lemma_word_and_number(s1, a.b as nat, t1, b.b as nat, dot);
    text::lemma_word_and_number(s, a.a as nat, t, b.a as nat, word);
}

} // verus!
