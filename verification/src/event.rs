//! What the exporter reports: a NAT session that came or went.

use crate::export::elements::{NAT44_SESSION_CREATE, NAT44_SESSION_DELETE};
use crate::net;
use crate::net::Ipv4Addr;
use crate::text;
use vstd::prelude::*;

verus! {

#[derive(Debug, Clone, Copy, PartialEq, Eq, Structural)]
pub enum NatEventType {
    Create,
    Delete,
}

impl NatEventType {
    /// The natEvent value for this kind of event (RFC 8158).
    pub open spec fn code(self) -> u8 {
        match self {
            NatEventType::Create => NAT44_SESSION_CREATE,
            NatEventType::Delete => NAT44_SESSION_DELETE,
        }
    }

    pub open spec fn name(self) -> Seq<char> {
        match self {
            NatEventType::Create => "CREATE"@,
            NatEventType::Delete => "DELETE"@,
        }
    }

    /// The natEvent value an IPFIX record carries.
    pub fn as_ipfix_value(self) -> (value: u8)
        ensures
            value == self.code(),
    {
        match self {
            NatEventType::Create => NAT44_SESSION_CREATE,
            NatEventType::Delete => NAT44_SESSION_DELETE,
        }
    }

    /// The natEvent value, which is the same under every export protocol.
    pub fn nat_event_code(self) -> (value: u8)
        ensures
            value == self.code(),
    {
        self.as_ipfix_value()
    }

    pub fn to_string(self) -> (line: String)
        ensures
            line@ == self.name(),
    {
        let mut line: String = String::new();
        match self {
            NatEventType::Create => line.append("CREATE"),
            NatEventType::Delete => line.append("DELETE"),
        }
        line
    }
}

/// One NAT session event, as conntrack reported it.
#[derive(Debug, Clone, Copy, PartialEq, Eq, Structural)]
pub struct ConntrackEvent {
    pub nat_event: NatEventType,
    pub protocol: u8,
    pub src_ip: Ipv4Addr,
    pub dst_ip: Ipv4Addr,
    pub src_port: u16,
    pub dst_port: u16,
    pub post_nat_src_ip: Ipv4Addr,
    pub post_nat_src_port: u16,
    pub post_nat_dst_ip: Ipv4Addr,
    pub post_nat_dst_port: u16,
    pub orig_bytes: u64,
    pub orig_packets: u64,
    pub reply_bytes: u64,
    pub reply_packets: u64,
}

impl ConntrackEvent {
    /// The event on one line, for the log.
    pub open spec fn line(self) -> Seq<char> {
        self.nat_event.name() + " proto="@ + text::decimal(self.protocol as nat) + " "@
            + self.src_ip.dotted() + ":"@ + text::decimal(self.src_port as nat) + " -> "@
            + self.dst_ip.dotted() + ":"@ + text::decimal(self.dst_port as nat) + " nat="@
            + self.post_nat_src_ip.dotted() + ":"@ + text::decimal(self.post_nat_src_port as nat)
            + " orig="@ + text::decimal(self.orig_bytes as nat) + "/"@ + text::decimal(
            self.orig_packets as nat,
        ) + " reply="@ + text::decimal(self.reply_bytes as nat) + "/"@ + text::decimal(
            self.reply_packets as nat,
        )
    }

    pub fn to_string(&self) -> (line: String)
        ensures
            line@ == self.line(),
    {
        let mut line: String = self.nat_event.to_string();
        line.append(" proto=");
        text::push_decimal(&mut line, self.protocol as u64);
        line.append(" ");
        push_endpoint(&mut line, self.src_ip, self.src_port);
        line.append(" -> ");
        push_endpoint(&mut line, self.dst_ip, self.dst_port);
        line.append(" nat=");
        push_endpoint(&mut line, self.post_nat_src_ip, self.post_nat_src_port);
        line.append(" orig=");
        text::push_decimal(&mut line, self.orig_bytes);
        line.append("/");
        text::push_decimal(&mut line, self.orig_packets);
        line.append(" reply=");
        text::push_decimal(&mut line, self.reply_bytes);
        line.append("/");
        text::push_decimal(&mut line, self.reply_packets);
        assert(line@ == self.line());
        line
    }
}

/// Appends `addr:port`.
fn push_endpoint(out: &mut String, addr: Ipv4Addr, port: u16)
    ensures
        final(out)@ == old(out)@ + addr.dotted() + ":"@ + text::decimal(port as nat),
{
    addr.push_dotted(out);
    out.append(":");
    text::push_decimal(out, port as u64);
}

/// The line of an event names everything about it but where its destination went: events
/// that differ in anything else have different lines.
pub proof fn law_lines_tell_events_apart(a: ConntrackEvent, b: ConntrackEvent)
    requires
        a.line() == b.line(),
    ensures
        a.nat_event == b.nat_event,
        a.protocol == b.protocol,
        a.src_ip == b.src_ip,
        a.src_port == b.src_port,
        a.dst_ip == b.dst_ip,
        a.dst_port == b.dst_port,
        a.post_nat_src_ip == b.post_nat_src_ip,
        a.post_nat_src_port == b.post_nat_src_port,
        a.orig_bytes == b.orig_bytes,
        a.orig_packets == b.orig_packets,
        a.reply_bytes == b.reply_bytes,
        a.reply_packets == b.reply_packets,
{
    reveal_strlit(" proto=");
    reveal_strlit(" ");
    reveal_strlit(":");
    reveal_strlit(" -> ");
    reveal_strlit(" nat=");
    reveal_strlit(" orig=");
    reveal_strlit("/");
    reveal_strlit(" reply=");
    reveal_strlit("CREATE");
    reveal_strlit("DELETE");
    let a1 = a.nat_event.name();
    let b1 = b.nat_event.name();
    let a2 = a1 + " proto="@ + text::decimal(a.protocol as nat);
    let b2 = b1 + " proto="@ + text::decimal(b.protocol as nat);
    let a3 = a2 + " "@ + a.src_ip.dotted();
    let b3 = b2 + " "@ + b.src_ip.dotted();
    let a4 = a3 + ":"@ + text::decimal(a.src_port as nat);
    let b4 = b3 + ":"@ + text::decimal(b.src_port as nat);
    let a5 = a4 + " -> "@ + a.dst_ip.dotted();
    let b5 = b4 + " -> "@ + b.dst_ip.dotted();
    let a6 = a5 + ":"@ + text::decimal(a.dst_port as nat);
    let b6 = b5 + ":"@ + text::decimal(b.dst_port as nat);
    let a7 = a6 + " nat="@ + a.post_nat_src_ip.dotted();
    let b7 = b6 + " nat="@ + b.post_nat_src_ip.dotted();
    let a8 = a7 + ":"@ + text::decimal(a.post_nat_src_port as nat);
    let b8 = b7 + ":"@ + text::decimal(b.post_nat_src_port as nat);
    let a9 = a8 + " orig="@ + text::decimal(a.orig_bytes as nat);
    let b9 = b8 + " orig="@ + text::decimal(b.orig_bytes as nat);
    let a10 = a9 + "/"@ + text::decimal(a.orig_packets as nat);
    let b10 = b9 + "/"@ + text::decimal(b.orig_packets as nat);
    let a11 = a10 + " reply="@ + text::decimal(a.reply_bytes as nat);
    let b11 = b10 + " reply="@ + text::decimal(b.reply_bytes as nat);
    text::lemma_word_and_number(a11, a.reply_packets as nat, b11, b.reply_packets as nat, "/"@);
    text::lemma_word_and_number(a10, a.reply_bytes as nat, b10, b.reply_bytes as nat, " reply="@);
    text::lemma_word_and_number(a9, a.orig_packets as nat, b9, b.orig_packets as nat, "/"@);
    text::lemma_word_and_number(a8, a.orig_bytes as nat, b8, b.orig_bytes as nat, " orig="@);
    text::lemma_word_and_number(
        a7,
        a.post_nat_src_port as nat,
        b7,
        b.post_nat_src_port as nat,
        ":"@,
    );
    net::lemma_word_and_address(a6, a.post_nat_src_ip, b6, b.post_nat_src_ip, " nat="@);
    text::lemma_word_and_number(a5, a.dst_port as nat, b5, b.dst_port as nat, ":"@);
    net::lemma_word_and_address(a4, a.dst_ip, b4, b.dst_ip, " -> "@);
    text::lemma_word_and_number(a3, a.src_port as nat, b3, b.src_port as nat, ":"@);
    net::lemma_word_and_address(a2, a.src_ip, b2, b.src_ip, " "@);
    text::lemma_word_and_number(a1, a.protocol as nat, b1, b.protocol as nat, " proto="@);
    assert(a1[0] == b1[0]);
}

} // verus!
