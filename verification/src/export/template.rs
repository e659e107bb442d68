//! The exported field set: what a record carries, and how it is described to a
//! collector.
//!
//! A profile is a table of [`FieldShape`]s. Resolving one against a counter
//! width produces the [`Template`] the encoder works from, so the advertised
//! template and the bytes actually written come from a single source.

use super::elements::{
    ENTERPRISE_NUMBER_LEN, FIELD_SPECIFIER_LEN, IE_DESTINATION_IPV4_ADDRESS,
    IE_DESTINATION_TRANSPORT_PORT, IE_NAT_EVENT, IE_OCTET_DELTA_COUNT, IE_PACKET_DELTA_COUNT,
    IE_POST_NAPT_DESTINATION_TRANSPORT_PORT, IE_POST_NAPT_SOURCE_TRANSPORT_PORT,
    IE_POST_NAT_DESTINATION_IPV4_ADDRESS, IE_POST_NAT_SOURCE_IPV4_ADDRESS, IE_PROTOCOL_IDENTIFIER,
    IE_SOURCE_IPV4_ADDRESS, IE_SOURCE_TRANSPORT_PORT, IPFIX_HEADER_LEN, IPFIX_TEMPLATE_SET_ID,
    IPFIX_VERSION, MAX_MSG_SIZE, MIN_TEMPLATE_ID, NETFLOW9_ALIGNMENT, NETFLOW9_HEADER_LEN,
    NETFLOW9_TEMPLATE_FLOWSET_ID, NETFLOW9_VERSION, REVERSE_INFORMATION_ELEMENT_PEN,
    SET_HEADER_LEN, V9_OUT_BYTES, V9_OUT_PKTS,
};
use crate::text;
use vstd::prelude::*;

verus! {

/// Which value of a conntrack event a field carries.
#[derive(Debug, Clone, Copy, PartialEq, Eq, Structural)]
pub enum FieldSource {
    NatEvent,
    Protocol,
    SrcIp,
    DstIp,
    SrcPort,
    DstPort,
    PostNatSrcIp,
    PostNatSrcPort,
    PostNatDstIp,
    PostNatDstPort,
    OrigBytes,
    OrigPackets,
    ReplyBytes,
    ReplyPackets,
}

impl FieldSource {
    pub open spec fn spec_natural_len(self) -> Option<u16> {
        match self {
            FieldSource::NatEvent | FieldSource::Protocol => Some(1),
            FieldSource::SrcPort
            | FieldSource::DstPort
            | FieldSource::PostNatSrcPort
            | FieldSource::PostNatDstPort => Some(2),
            FieldSource::SrcIp
            | FieldSource::DstIp
            | FieldSource::PostNatSrcIp
            | FieldSource::PostNatDstIp => Some(4),
            FieldSource::OrigBytes
            | FieldSource::OrigPackets
            | FieldSource::ReplyBytes
            | FieldSource::ReplyPackets => None,
        }
    }

    /// The width a non-counter source is always written at. Counters are
    /// configurable and return `None`.
    #[verifier::when_used_as_spec(spec_natural_len)]
    pub fn natural_len(self) -> (len: Option<u16>)
        ensures
            len == self.spec_natural_len(),
    {
        match self {
            FieldSource::NatEvent | FieldSource::Protocol => Some(1),
            FieldSource::SrcPort
            | FieldSource::DstPort
            | FieldSource::PostNatSrcPort
            | FieldSource::PostNatDstPort => Some(2),
            FieldSource::SrcIp
            | FieldSource::DstIp
            | FieldSource::PostNatSrcIp
            | FieldSource::PostNatDstIp => Some(4),
            FieldSource::OrigBytes
            | FieldSource::OrigPackets
            | FieldSource::ReplyBytes
            | FieldSource::ReplyPackets => None,
        }
    }
}

/// An Information Element identifier, with its Private Enterprise Number when
/// the element is enterprise-specific.
#[derive(Debug, Clone, Copy)]
pub struct Element {
    pub id: u16,
    pub pen: Option<u32>,
}

pub open spec fn spec_ie(id: u16) -> Element {
    Element { id, pen: None }
}

/// An element of the IANA registry.
#[verifier::when_used_as_spec(spec_ie)]
pub fn ie(id: u16) -> (element: Element)
    ensures
        element == spec_ie(id),
{
    Element { id, pen: None }
}

pub open spec fn spec_reverse_ie(id: u16) -> Element {
    Element { id, pen: Some(REVERSE_INFORMATION_ELEMENT_PEN) }
}

/// The reply-direction counterpart of an IE, per RFC 5103.
#[verifier::when_used_as_spec(spec_reverse_ie)]
pub fn reverse_ie(id: u16) -> (element: Element)
    ensures
        element == spec_reverse_ie(id),
{
    Element { id, pen: Some(REVERSE_INFORMATION_ELEMENT_PEN) }
}

/// How wide a field is on the wire.
#[derive(Debug, Clone, Copy, PartialEq, Eq, Structural)]
pub enum Width {
    /// Fixed by the element's type.
    Fixed(u16),
    /// A byte or packet counter, sized by [`CounterWidth`].
    Counter,
}

/// One entry of a profile table.
#[derive(Debug, Clone, Copy)]
pub struct FieldShape {
    pub source: FieldSource,
    pub ipfix: Element,
    pub width: Width,
}

impl FieldShape {
    /// The declared width is what the source actually produces.
    pub open spec fn consistent(self) -> bool {
        match (self.width, self.source.spec_natural_len()) {
            (Width::Fixed(declared), Some(natural)) => declared == natural,
            (Width::Counter, None) => true,
            _ => false,
        }
    }
}

pub open spec fn spec_field(source: FieldSource, ipfix: Element, width: Width) -> FieldShape {
    FieldShape { source, ipfix, width }
}

#[verifier::when_used_as_spec(spec_field)]
pub fn field(source: FieldSource, ipfix: Element, width: Width) -> (shape: FieldShape)
    ensures
        shape == spec_field(source, ipfix, width),
{
    FieldShape { source, ipfix, width }
}

/// Everything: both NAT directions and both counter directions.
pub open spec fn spec_profile_full() -> Seq<FieldShape> {
    seq![
        field(FieldSource::NatEvent, ie(IE_NAT_EVENT), Width::Fixed(1)),
        field(FieldSource::Protocol, ie(IE_PROTOCOL_IDENTIFIER), Width::Fixed(1)),
        field(FieldSource::SrcIp, ie(IE_SOURCE_IPV4_ADDRESS), Width::Fixed(4)),
        field(FieldSource::DstIp, ie(IE_DESTINATION_IPV4_ADDRESS), Width::Fixed(4)),
        field(FieldSource::SrcPort, ie(IE_SOURCE_TRANSPORT_PORT), Width::Fixed(2)),
        field(FieldSource::DstPort, ie(IE_DESTINATION_TRANSPORT_PORT), Width::Fixed(2)),
        field(FieldSource::PostNatSrcIp, ie(IE_POST_NAT_SOURCE_IPV4_ADDRESS), Width::Fixed(4)),
        field(FieldSource::PostNatSrcPort, ie(IE_POST_NAPT_SOURCE_TRANSPORT_PORT), Width::Fixed(2)),
        field(FieldSource::PostNatDstIp, ie(IE_POST_NAT_DESTINATION_IPV4_ADDRESS), Width::Fixed(4)),
        field(FieldSource::PostNatDstPort, ie(IE_POST_NAPT_DESTINATION_TRANSPORT_PORT), Width::Fixed(2)),
        field(FieldSource::OrigBytes, ie(IE_OCTET_DELTA_COUNT), Width::Counter),
        field(FieldSource::OrigPackets, ie(IE_PACKET_DELTA_COUNT), Width::Counter),
        field(FieldSource::ReplyBytes, reverse_ie(IE_OCTET_DELTA_COUNT), Width::Counter),
        field(FieldSource::ReplyPackets, reverse_ie(IE_PACKET_DELTA_COUNT), Width::Counter),
    ]
}

pub fn profile_full() -> (shapes: Vec<FieldShape>)
    ensures
        shapes@ == spec_profile_full(),
{
    vec![
        field(FieldSource::NatEvent, ie(IE_NAT_EVENT), Width::Fixed(1)),
        field(FieldSource::Protocol, ie(IE_PROTOCOL_IDENTIFIER), Width::Fixed(1)),
        field(FieldSource::SrcIp, ie(IE_SOURCE_IPV4_ADDRESS), Width::Fixed(4)),
        field(FieldSource::DstIp, ie(IE_DESTINATION_IPV4_ADDRESS), Width::Fixed(4)),
        field(FieldSource::SrcPort, ie(IE_SOURCE_TRANSPORT_PORT), Width::Fixed(2)),
        field(FieldSource::DstPort, ie(IE_DESTINATION_TRANSPORT_PORT), Width::Fixed(2)),
        field(FieldSource::PostNatSrcIp, ie(IE_POST_NAT_SOURCE_IPV4_ADDRESS), Width::Fixed(4)),
        field(FieldSource::PostNatSrcPort, ie(IE_POST_NAPT_SOURCE_TRANSPORT_PORT), Width::Fixed(2)),
        field(FieldSource::PostNatDstIp, ie(IE_POST_NAT_DESTINATION_IPV4_ADDRESS), Width::Fixed(4)),
        field(FieldSource::PostNatDstPort, ie(IE_POST_NAPT_DESTINATION_TRANSPORT_PORT), Width::Fixed(2)),
        field(FieldSource::OrigBytes, ie(IE_OCTET_DELTA_COUNT), Width::Counter),
        field(FieldSource::OrigPackets, ie(IE_PACKET_DELTA_COUNT), Width::Counter),
        field(FieldSource::ReplyBytes, reverse_ie(IE_OCTET_DELTA_COUNT), Width::Counter),
        field(FieldSource::ReplyPackets, reverse_ie(IE_PACKET_DELTA_COUNT), Width::Counter),
    ]
}

/// For collectors that know the source-NAT elements but not the destination
/// ones. Drops postNATDestination* only.
pub open spec fn spec_profile_nat_source() -> Seq<FieldShape> {
    seq![
        field(FieldSource::NatEvent, ie(IE_NAT_EVENT), Width::Fixed(1)),
        field(FieldSource::Protocol, ie(IE_PROTOCOL_IDENTIFIER), Width::Fixed(1)),
        field(FieldSource::SrcIp, ie(IE_SOURCE_IPV4_ADDRESS), Width::Fixed(4)),
        field(FieldSource::DstIp, ie(IE_DESTINATION_IPV4_ADDRESS), Width::Fixed(4)),
        field(FieldSource::SrcPort, ie(IE_SOURCE_TRANSPORT_PORT), Width::Fixed(2)),
        field(FieldSource::DstPort, ie(IE_DESTINATION_TRANSPORT_PORT), Width::Fixed(2)),
        field(FieldSource::PostNatSrcIp, ie(IE_POST_NAT_SOURCE_IPV4_ADDRESS), Width::Fixed(4)),
        field(FieldSource::PostNatSrcPort, ie(IE_POST_NAPT_SOURCE_TRANSPORT_PORT), Width::Fixed(2)),
        field(FieldSource::OrigBytes, ie(IE_OCTET_DELTA_COUNT), Width::Counter),
        field(FieldSource::OrigPackets, ie(IE_PACKET_DELTA_COUNT), Width::Counter),
        field(FieldSource::ReplyBytes, reverse_ie(IE_OCTET_DELTA_COUNT), Width::Counter),
        field(FieldSource::ReplyPackets, reverse_ie(IE_PACKET_DELTA_COUNT), Width::Counter),
    ]
}

pub fn profile_nat_source() -> (shapes: Vec<FieldShape>)
    ensures
        shapes@ == spec_profile_nat_source(),
{
    vec![
        field(FieldSource::NatEvent, ie(IE_NAT_EVENT), Width::Fixed(1)),
        field(FieldSource::Protocol, ie(IE_PROTOCOL_IDENTIFIER), Width::Fixed(1)),
        field(FieldSource::SrcIp, ie(IE_SOURCE_IPV4_ADDRESS), Width::Fixed(4)),
        field(FieldSource::DstIp, ie(IE_DESTINATION_IPV4_ADDRESS), Width::Fixed(4)),
        field(FieldSource::SrcPort, ie(IE_SOURCE_TRANSPORT_PORT), Width::Fixed(2)),
        field(FieldSource::DstPort, ie(IE_DESTINATION_TRANSPORT_PORT), Width::Fixed(2)),
        field(FieldSource::PostNatSrcIp, ie(IE_POST_NAT_SOURCE_IPV4_ADDRESS), Width::Fixed(4)),
        field(FieldSource::PostNatSrcPort, ie(IE_POST_NAPT_SOURCE_TRANSPORT_PORT), Width::Fixed(2)),
        field(FieldSource::OrigBytes, ie(IE_OCTET_DELTA_COUNT), Width::Counter),
        field(FieldSource::OrigPackets, ie(IE_PACKET_DELTA_COUNT), Width::Counter),
        field(FieldSource::ReplyBytes, reverse_ie(IE_OCTET_DELTA_COUNT), Width::Counter),
        field(FieldSource::ReplyPackets, reverse_ie(IE_PACKET_DELTA_COUNT), Width::Counter),
    ]
}

/// Only elements every collector's base registry knows. This carries **no NAT
/// information at all** -- the pre-NAT five-tuple and counters, nothing more.
/// It exists for collectors that cannot decode natEvent or the postNAT
/// elements, which are not in RFC 3954's field table.
pub open spec fn spec_profile_flow_only() -> Seq<FieldShape> {
    seq![
        field(FieldSource::Protocol, ie(IE_PROTOCOL_IDENTIFIER), Width::Fixed(1)),
        field(FieldSource::SrcIp, ie(IE_SOURCE_IPV4_ADDRESS), Width::Fixed(4)),
        field(FieldSource::DstIp, ie(IE_DESTINATION_IPV4_ADDRESS), Width::Fixed(4)),
        field(FieldSource::SrcPort, ie(IE_SOURCE_TRANSPORT_PORT), Width::Fixed(2)),
        field(FieldSource::DstPort, ie(IE_DESTINATION_TRANSPORT_PORT), Width::Fixed(2)),
        field(FieldSource::OrigBytes, ie(IE_OCTET_DELTA_COUNT), Width::Counter),
        field(FieldSource::OrigPackets, ie(IE_PACKET_DELTA_COUNT), Width::Counter),
        field(FieldSource::ReplyBytes, reverse_ie(IE_OCTET_DELTA_COUNT), Width::Counter),
        field(FieldSource::ReplyPackets, reverse_ie(IE_PACKET_DELTA_COUNT), Width::Counter),
    ]
}

pub fn profile_flow_only() -> (shapes: Vec<FieldShape>)
    ensures
        shapes@ == spec_profile_flow_only(),
{
    vec![
        field(FieldSource::Protocol, ie(IE_PROTOCOL_IDENTIFIER), Width::Fixed(1)),
        field(FieldSource::SrcIp, ie(IE_SOURCE_IPV4_ADDRESS), Width::Fixed(4)),
        field(FieldSource::DstIp, ie(IE_DESTINATION_IPV4_ADDRESS), Width::Fixed(4)),
        field(FieldSource::SrcPort, ie(IE_SOURCE_TRANSPORT_PORT), Width::Fixed(2)),
        field(FieldSource::DstPort, ie(IE_DESTINATION_TRANSPORT_PORT), Width::Fixed(2)),
        field(FieldSource::OrigBytes, ie(IE_OCTET_DELTA_COUNT), Width::Counter),
        field(FieldSource::OrigPackets, ie(IE_PACKET_DELTA_COUNT), Width::Counter),
        field(FieldSource::ReplyBytes, reverse_ie(IE_OCTET_DELTA_COUNT), Width::Counter),
        field(FieldSource::ReplyPackets, reverse_ie(IE_PACKET_DELTA_COUNT), Width::Counter),
    ]
}

/// Whether every declared width matches what its source produces. If one did
/// not, the record and the template it advertises would disagree.
pub fn shapes_are_consistent(shapes: &[FieldShape]) -> (consistent: bool)
    ensures
        consistent == (forall|i: int| 0 <= i < shapes@.len() ==> (#[trigger] shapes@[i]).consistent()),
{
    let mut i: usize = 0;
    while i < shapes.len()
        invariant
            i <= shapes@.len(),
            forall|j: int| 0 <= j < i ==> (#[trigger] shapes@[j]).consistent(),
        decreases shapes@.len() - i,
    {
        let ok = match (shapes[i].width, shapes[i].source.natural_len()) {
            (Width::Fixed(declared), Some(natural)) => declared == natural,
            (Width::Counter, None) => true,
            _ => false,
        };
        if !ok {
            assert(!shapes@[i as int].consistent());
            return false;
        }
        i = i + 1;
    }
    true
}

/// Which export protocol to speak.
#[derive(Debug, Clone, Copy, PartialEq, Eq, Structural)]
pub enum Protocol {
    /// IPFIX, RFC 7011.
    Ipfix,
    /// NetFlow v9, RFC 3954.
    Netflow9,
}

impl Protocol {
    pub open spec fn spec_version(self) -> u16 {
        match self {
            Protocol::Ipfix => IPFIX_VERSION,
            Protocol::Netflow9 => NETFLOW9_VERSION,
        }
    }

    /// The version number a message opens with.
    #[verifier::when_used_as_spec(spec_version)]
    pub fn version(self) -> (version: u16)
        ensures
            version == self.spec_version(),
    {
        match self {
            Protocol::Ipfix => IPFIX_VERSION,
            Protocol::Netflow9 => NETFLOW9_VERSION,
        }
    }

    pub open spec fn spec_header_len(self) -> usize {
        match self {
            Protocol::Ipfix => IPFIX_HEADER_LEN,
            Protocol::Netflow9 => NETFLOW9_HEADER_LEN,
        }
    }

    /// The size of a message header.
    #[verifier::when_used_as_spec(spec_header_len)]
    pub fn header_len(self) -> (len: usize)
        ensures
            len == self.spec_header_len(),
    {
        match self {
            Protocol::Ipfix => IPFIX_HEADER_LEN,
            Protocol::Netflow9 => NETFLOW9_HEADER_LEN,
        }
    }

    pub open spec fn spec_template_set_id(self) -> u16 {
        match self {
            Protocol::Ipfix => IPFIX_TEMPLATE_SET_ID,
            Protocol::Netflow9 => NETFLOW9_TEMPLATE_FLOWSET_ID,
        }
    }

    /// The set / FlowSet ID that introduces a template.
    #[verifier::when_used_as_spec(spec_template_set_id)]
    pub fn template_set_id(self) -> (id: u16)
        ensures
            id == self.spec_template_set_id(),
    {
        match self {
            Protocol::Ipfix => IPFIX_TEMPLATE_SET_ID,
            Protocol::Netflow9 => NETFLOW9_TEMPLATE_FLOWSET_ID,
        }
    }

    pub open spec fn spec_supports_enterprise(self) -> bool {
        self is Ipfix
    }

    /// Whether enterprise-specific Information Elements can be expressed.
    /// NetFlow v9 field specifiers are a flat (type, length) pair.
    #[verifier::when_used_as_spec(spec_supports_enterprise)]
    pub fn supports_enterprise(self) -> (supported: bool)
        ensures
            supported == self.spec_supports_enterprise(),
    {
        matches!(self, Protocol::Ipfix)
    }

    pub open spec fn spec_set_alignment(self) -> usize {
        match self {
            Protocol::Ipfix => 1,
            Protocol::Netflow9 => NETFLOW9_ALIGNMENT,
        }
    }

    /// Byte boundary that sets are padded to, if the protocol asks for it.
    #[verifier::when_used_as_spec(spec_set_alignment)]
    pub fn set_alignment(self) -> (alignment: usize)
        ensures
            alignment == self.spec_set_alignment(),
    {
        match self {
            Protocol::Ipfix => 1,
            Protocol::Netflow9 => NETFLOW9_ALIGNMENT,
        }
    }
}

pub open spec fn spec_netflow9_type(source: FieldSource, ipfix_id: u16) -> u16 {
    match source {
        FieldSource::ReplyBytes => V9_OUT_BYTES,
        FieldSource::ReplyPackets => V9_OUT_PKTS,
        _ => ipfix_id,
    }
}

/// The NetFlow v9 field type for a source.
///
/// v9 has no enterprise mechanism, so the RFC 5103 reverse counters that IPFIX
/// carries as IE 1/2 + PEN 29305 map onto the dedicated OUT_BYTES/OUT_PKTS
/// types instead.
///
/// Take care here: 23/24 are *correct* under v9 and *wrong* under IPFIX, where
/// the same numbers mean postOctetDeltaCount/postPacketDeltaCount -- the
/// forward direction as modified by a middlebox, not the reverse direction.
/// Same numbers, opposite meaning; do not "unify" these.
#[verifier::when_used_as_spec(spec_netflow9_type)]
pub fn netflow9_type(source: FieldSource, ipfix_id: u16) -> (id: u16)
    ensures
        id == spec_netflow9_type(source, ipfix_id),
{
    match source {
        FieldSource::ReplyBytes => V9_OUT_BYTES,
        FieldSource::ReplyPackets => V9_OUT_PKTS,
        _ => ipfix_id,
    }
}

/// Which field set to export.
#[derive(Debug, Clone, Copy, PartialEq, Eq, Structural)]
pub enum Profile {
    /// Both NAT directions and both counter directions (14 fields).
    Full,
    /// Source translation only, no postNATDestination elements (12 fields).
    NatSource,
    /// Five-tuple and counters only; no NAT elements at all (9 fields).
    FlowOnly,
}

impl Profile {
    pub open spec fn spec_shapes(self) -> Seq<FieldShape> {
        match self {
            Profile::Full => spec_profile_full(),
            Profile::NatSource => spec_profile_nat_source(),
            Profile::FlowOnly => spec_profile_flow_only(),
        }
    }

    /// The fields of the profile, in the order a record carries them.
    pub fn shapes(self) -> (shapes: Vec<FieldShape>)
        ensures
            shapes@ == self.spec_shapes(),
    {
        match self {
            Profile::Full => profile_full(),
            Profile::NatSource => profile_nat_source(),
            Profile::FlowOnly => profile_flow_only(),
        }
    }
}

/// How many bytes each byte/packet counter occupies.
#[derive(Debug, Clone, Copy, PartialEq, Eq, Structural)]
pub enum CounterWidth {
    /// NetFlow v9's default width for IN_BYTES and friends.
    Four,
    /// Wide enough for conntrack's u64 counters.
    Eight,
}

/// A counter width that is neither four nor eight bytes.
#[derive(Debug, Clone, Copy, PartialEq, Eq, Structural)]
pub struct CounterWidthError {
    pub bytes: u8,
}

impl CounterWidthError {
    pub open spec fn line(self) -> Seq<char> {
        "counter width must be 4 or 8 bytes, got "@ + text::decimal(self.bytes as nat)
    }

    pub fn to_string(&self) -> (line: String)
        ensures
            line@ == self.line(),
    {
        let mut line: String = String::new();
        line.append("counter width must be 4 or 8 bytes, got ");
        text::push_decimal(&mut line, self.bytes as u64);
        line
    }
}

impl CounterWidth {
    pub open spec fn spec_bytes(self) -> u16 {
        match self {
            CounterWidth::Four => 4,
            CounterWidth::Eight => 8,
        }
    }

    #[verifier::when_used_as_spec(spec_bytes)]
    pub fn bytes(self) -> (bytes: u16)
        ensures
            bytes == self.spec_bytes(),
    {
        match self {
            CounterWidth::Four => 4,
            CounterWidth::Eight => 8,
        }
    }

    pub fn from_bytes(bytes: u8) -> (width: Result<CounterWidth, CounterWidthError>)
        ensures
            width == (match bytes {
                4 => Ok(CounterWidth::Four),
                8 => Ok(CounterWidth::Eight),
                other => Err((CounterWidthError { bytes: other })),
            }),
    {
        match bytes {
            4 => Ok(CounterWidth::Four),
            8 => Ok(CounterWidth::Eight),
            other => Err(CounterWidthError { bytes: other }),
        }
    }
}

/// One field of the resolved template.
#[derive(Debug, Clone, Copy)]
pub struct ResolvedField {
    pub id: u16,
    pub pen: Option<u32>,
    pub length: u16,
    pub source: FieldSource,
}

impl ResolvedField {
    /// The field can be written, and described, under `protocol`: it is as wide
    /// as its source, a counter fits in a 64-bit integer, and there is no
    /// enterprise number where none can be expressed.
    pub open spec fn wf(self, protocol: Protocol) -> bool {
        &&& self.writable()
        &&& self.pen is Some ==> protocol.supports_enterprise()
    }

    /// The declared length is one the source can be written at.
    pub open spec fn writable(self) -> bool {
        match self.source.natural_len() {
            Some(natural) => self.length == natural,
            None => self.length <= 8,
        }
    }

    /// Size of the field's specifier in a template.
    pub open spec fn specifier_len(self) -> nat {
        match self.pen {
            Some(_) => (FIELD_SPECIFIER_LEN + ENTERPRISE_NUMBER_LEN) as nat,
            None => FIELD_SPECIFIER_LEN as nat,
        }
    }
}

/// What a shape becomes under a protocol and a counter width.
pub open spec fn resolve_shape(
    protocol: Protocol,
    width: CounterWidth,
    shape: FieldShape,
) -> ResolvedField {
    ResolvedField {
        id: match protocol {
            Protocol::Ipfix => shape.ipfix.id,
            Protocol::Netflow9 => netflow9_type(shape.source, shape.ipfix.id),
        },
        pen: match protocol {
            Protocol::Ipfix => shape.ipfix.pen,
            Protocol::Netflow9 => None,
        },
        length: match shape.width {
            Width::Fixed(n) => n,
            Width::Counter => width.bytes(),
        },
        source: shape.source,
    }
}

/// A whole table of shapes, resolved in order.
pub open spec fn resolve_shapes(
    protocol: Protocol,
    width: CounterWidth,
    shapes: Seq<FieldShape>,
) -> Seq<ResolvedField> {
    shapes.map_values(|shape: FieldShape| resolve_shape(protocol, width, shape))
}

/// How many bytes a record with these fields occupies.
pub open spec fn record_len(fields: Seq<ResolvedField>) -> nat
    decreases fields.len(),
{
    if fields.len() == 0 {
        0
    } else {
        record_len(fields.drop_last()) + fields.last().length as nat
    }
}

/// How many bytes the specifiers of these fields occupy in a template.
pub open spec fn specifiers_len(fields: Seq<ResolvedField>) -> nat
    decreases fields.len(),
{
    if fields.len() == 0 {
        0
    } else {
        specifiers_len(fields.drop_last()) + fields.last().specifier_len()
    }
}

/// `value` rounded up to the next multiple of `alignment`.
pub open spec fn aligned(value: nat, alignment: nat) -> nat
    recommends
        alignment > 0,
{
    ((value + alignment - 1) as nat / alignment) * alignment
}

/// Round up to the next multiple of `alignment`.
pub fn align_up(value: usize, alignment: usize) -> (rounded: usize)
    requires
        alignment > 0,
        aligned(value as nat, alignment as nat) <= usize::MAX,
    ensures
        rounded == aligned(value as nat, alignment as nat),
        rounded % alignment == 0,
        value <= rounded < value + alignment,
{
    proof {
        lemma_aligned(value as nat, alignment as nat);
    }
    let whole: usize = value / alignment;
    let rest: usize = value % alignment;
    proof {
        lemma_aligned_by_quotient(value as nat, alignment as nat);
    }
    if rest == 0 {
        whole * alignment
    } else {
        (whole + 1) * alignment
    }
}

/// A profile resolved against a counter width: the exact fields the encoder
/// writes and the template it advertises.
#[derive(Debug, Clone)]
pub struct Template {
    pub fields: Vec<ResolvedField>,
    pub record_size: usize,
    pub template_id: u16,
    pub protocol: Protocol,
    pub profile: Profile,
    pub counter_width: CounterWidth,
}

/// A configuration no template can be made for.
#[derive(Debug, Clone, Copy, PartialEq, Eq, Structural)]
pub enum TemplateError {
    /// Template IDs below 256 are set and FlowSet identifiers.
    ReservedTemplateId(u16),
}

impl TemplateError {
    pub open spec fn line(self) -> Seq<char> {
        match self {
            TemplateError::ReservedTemplateId(id) => "template ID must be at least "@
                + text::decimal(MIN_TEMPLATE_ID as nat) + ", got "@ + text::decimal(id as nat),
        }
    }

    pub fn to_string(&self) -> (line: String)
        ensures
            line@ == self.line(),
    {
        let mut line: String = String::new();
        match *self {
            TemplateError::ReservedTemplateId(id) => {
                line.append("template ID must be at least ");
                text::push_decimal(&mut line, MIN_TEMPLATE_ID as u64);
                line.append(", got ");
                text::push_decimal(&mut line, id as u64);
            },
        }
        line
    }
}

impl Template {
    /// Size of the encoded template set: set header, template record header,
    /// then one specifier per field, padded if the protocol asks for it.
    pub open spec fn set_len(self) -> nat {
        aligned(
            (SET_HEADER_LEN + 4 + specifiers_len(self.fields@)) as nat,
            self.protocol.set_alignment() as nat,
        )
    }

    /// Size of a data set holding `records` records, including any padding.
    pub open spec fn data_set_len(self, records: nat) -> nat {
        aligned(
            (SET_HEADER_LEN + records * self.record_size) as nat,
            self.protocol.set_alignment() as nat,
        )
    }

    /// What makes a template usable: every field can be written and described,
    /// the record size is that of the fields, and a message has room for the
    /// template and a record.
    pub open spec fn wf(self) -> bool {
        &&& forall|i: int| 0 <= i < self.fields@.len() ==> (#[trigger] self.fields@[i]).wf(self.protocol)
        &&& self.record_size == record_len(self.fields@)
        &&& self.record_size > 0
        &&& self.protocol.header_len() + self.set_len() + self.data_set_len(1) <= MAX_MSG_SIZE
    }

    /// The template that `resolve` makes of a configuration.
    pub open spec fn resolved(
        self,
        protocol: Protocol,
        profile: Profile,
        counter_width: CounterWidth,
        template_id: u16,
    ) -> bool {
        &&& self.fields@ == resolve_shapes(protocol, counter_width, profile.spec_shapes())
        &&& self.record_size == record_len(self.fields@)
        &&& self.template_id == template_id
        &&& self.protocol == protocol
        &&& self.profile == profile
        &&& self.counter_width == counter_width
    }

    /// The template for a configuration. Only a reserved template ID stands in
    /// the way of one: a message has room for every field set there is.
    pub fn resolve(
        protocol: Protocol,
        profile: Profile,
        counter_width: CounterWidth,
        template_id: u16,
    ) -> (template: Result<Template, TemplateError>)
        ensures
            match template {
                Ok(template) => {
                    &&& template_id >= MIN_TEMPLATE_ID
                    &&& template.resolved(protocol, profile, counter_width, template_id)
                    &&& template.wf()
                },
                Err(error) => {
                    &&& template_id < MIN_TEMPLATE_ID
                    &&& error == TemplateError::ReservedTemplateId(template_id)
                },
            },
    {
        if template_id < MIN_TEMPLATE_ID {
            return Err(TemplateError::ReservedTemplateId(template_id));
        }
        let shapes: Vec<FieldShape> = profile.shapes();
        let mut fields: Vec<ResolvedField> = Vec::new();
        let mut record_size: usize = 0;
        let ghost all = resolve_shapes(protocol, counter_width, shapes@);
        proof {
            law_configuration_sizes(protocol, profile, counter_width);
        }
        let mut i: usize = 0;
        while i < shapes.len()
            invariant
                i <= shapes@.len(),
                shapes@.len() <= 14,
                all == resolve_shapes(protocol, counter_width, shapes@),
                fields@ == all.take(i as int),
                record_size == record_len(fields@),
                record_size <= 65535 * i,
            decreases shapes@.len() - i,
        {
            let shape: FieldShape = shapes[i];
            let (id, pen) = match protocol {
                Protocol::Ipfix => (shape.ipfix.id, shape.ipfix.pen),
                Protocol::Netflow9 => (netflow9_type(shape.source, shape.ipfix.id), None),
            };
            let length: u16 = match shape.width {
                Width::Fixed(n) => n,
                Width::Counter => counter_width.bytes(),
            };
            let resolved: ResolvedField = ResolvedField { id, pen, length, source: shape.source };
            proof {
                assert(resolved == all[i as int]);
                lemma_record_len_push(fields@, resolved);
                assert(all.take(i as int).push(resolved) == all.take(i + 1));
            }
            fields.push(resolved);
            record_size = record_size + length as usize;
            i = i + 1;
        }
        assert(all.take(i as int) == all);
        Ok(Template { fields, record_size, template_id, protocol, profile, counter_width })
    }

    /// Size of the encoded template set.
    pub fn set_size(&self) -> (size: usize)
        requires
            self.set_len() <= usize::MAX,
        ensures
            size == self.set_len(),
    {
        let mut specifiers: usize = 0;
        let mut i: usize = 0;
        proof {
            let unpadded = (SET_HEADER_LEN + 4 + specifiers_len(self.fields@)) as nat;
            lemma_aligned(unpadded, self.protocol.set_alignment() as nat);
        }
        while i < self.fields.len()
            invariant
                i <= self.fields@.len(),
                specifiers == specifiers_len(self.fields@.take(i as int)),
                SET_HEADER_LEN + 4 + specifiers_len(self.fields@) <= usize::MAX,
            decreases self.fields@.len() - i,
        {
            proof {
                lemma_specifiers_len_take(self.fields@, i as int);
            }
            specifiers = specifiers + match self.fields[i].pen {
                Some(_) => FIELD_SPECIFIER_LEN + ENTERPRISE_NUMBER_LEN,
                None => FIELD_SPECIFIER_LEN,
            };
            i = i + 1;
        }
        assert(self.fields@.take(i as int) == self.fields@);
        align_up(SET_HEADER_LEN + 4 + specifiers, self.protocol.set_alignment())
    }

    /// Size of a data set holding `records` records, including any padding.
    pub fn data_set_size(&self, records: usize) -> (size: usize)
        requires
            self.data_set_len(records as nat) <= usize::MAX,
        ensures
            size == self.data_set_len(records as nat),
    {
        proof {
            let unpadded = (SET_HEADER_LEN + records * self.record_size) as nat;
            assert(records * self.record_size >= 0) by (nonlinear_arith);
            lemma_aligned(unpadded, self.protocol.set_alignment() as nat);
        }
        align_up(SET_HEADER_LEN + records * self.record_size, self.protocol.set_alignment())
    }

    /// How many fields the template advertises, in the sixteen bits it has for
    /// that.
    pub fn field_count(&self) -> (count: u16)
        ensures
            count as nat == self.fields@.len() % 65536,
    {
        let len: usize = self.fields.len();
        assert(len as u16 == len % 65536) by (bit_vector);
        len as u16
    }

    /// Records that fit in a message that also carries the template -- the
    /// worst case, and so the figure worth reporting.
    pub fn max_records_per_message(&self) -> (records: usize)
        requires
            self.record_size > 0,
            self.protocol.header_len() + self.set_len() <= MAX_MSG_SIZE,
            self.data_set_len(1) <= usize::MAX,
        ensures
            self.protocol.header_len() + self.set_len() + self.data_set_len((records + 1) as nat)
                > MAX_MSG_SIZE,
            forall|fewer: nat|
                0 < fewer <= records ==> self.protocol.header_len() + self.set_len()
                    + #[trigger] self.data_set_len(fewer) <= MAX_MSG_SIZE,
    {
        let budget: usize = MAX_MSG_SIZE - self.protocol.header_len() - self.set_size();
        let mut records: usize = 0;
        loop
            invariant
                budget == MAX_MSG_SIZE - self.protocol.header_len() - self.set_len(),
                budget <= MAX_MSG_SIZE,
                self.record_size > 0,
                self.data_set_len(1) <= usize::MAX,
                records > 0 ==> self.data_set_len(records as nat) <= budget,
                forall|fewer: nat|
                    0 < fewer <= records ==> #[trigger] self.data_set_len(fewer) <= budget,
            ensures
                self.data_set_len((records + 1) as nat) > budget,
            decreases budget - records,
        {
            proof {
                self.lemma_next_data_set(records as nat, budget as nat);
            }
            if self.data_set_size(records + 1) > budget {
                break;
            }
            records = records + 1;
            proof {
                self.lemma_next_data_set(records as nat, budget as nat);
            }
        }
        records
    }
}

pub proof fn lemma_aligned(value: nat, alignment: nat)
    requires
        alignment > 0,
    ensures
        value <= aligned(value, alignment) < value + alignment,
        aligned(value, alignment) % alignment == 0,
{
    let up = (value + alignment - 1) as nat;
    vstd::arithmetic::div_mod::lemma_fundamental_div_mod(up as int, alignment as int);
    vstd::arithmetic::div_mod::lemma_mod_multiples_basic((up / alignment) as int, alignment as int);
    assert(alignment * (up / alignment) == (up / alignment) * alignment) by (nonlinear_arith);
}

/// Padding starts counting anew at every aligned position.
pub proof fn lemma_aligned_from(start: nat, len: nat, alignment: nat)
    requires
        alignment > 0,
        start % alignment == 0,
    ensures
        aligned(start + len, alignment) == start + aligned(len, alignment),
{
    let q = start / alignment;
    let up = (len + alignment - 1) as nat;
    vstd::arithmetic::div_mod::lemma_fundamental_div_mod(start as int, alignment as int);
    assert(alignment * q == q * alignment) by (nonlinear_arith);
    vstd::arithmetic::div_mod::lemma_hoist_over_denominator(up as int, q as int, alignment);
    assert((up / alignment + q) * alignment == (up / alignment) * alignment + q * alignment)
        by (nonlinear_arith);
}

proof fn lemma_aligned_by_quotient(value: nat, alignment: nat)
    requires
        alignment > 0,
    ensures
        aligned(value, alignment) == (if value % alignment == 0 {
            (value / alignment) * alignment
        } else {
            (value / alignment + 1) * alignment
        }),
{
    let q = value / alignment;
    let r = value % alignment;
    let up = (value + alignment - 1) as nat;
    vstd::arithmetic::div_mod::lemma_fundamental_div_mod(value as int, alignment as int);
    assert(alignment * q == q * alignment) by (nonlinear_arith);
    if r == 0 {
        vstd::arithmetic::div_mod::lemma_fundamental_div_mod_converse(
            up as int,
            alignment as int,
            q as int,
            alignment - 1,
        );
    } else {
        assert((q + 1) * alignment == q * alignment + alignment) by (nonlinear_arith);
        vstd::arithmetic::div_mod::lemma_fundamental_div_mod_converse(
            up as int,
            alignment as int,
            (q + 1) as int,
            r - 1,
        );
    }
}

impl Template {
    /// A message has room for a record of a usable template.
    pub proof fn lemma_record_fits(self)
        requires
            self.wf(),
        ensures
            self.protocol.header_len() + SET_HEADER_LEN + self.record_size <= MAX_MSG_SIZE,
    {
        lemma_aligned(
            (SET_HEADER_LEN + 1 * self.record_size) as nat,
            self.protocol.set_alignment() as nat,
        );
    }

    /// One more record than fits in `budget` bytes is still a size that can be
    /// computed, and data sets grow with the number of records.
    proof fn lemma_next_data_set(self, records: nat, budget: nat)
        requires
            budget <= MAX_MSG_SIZE,
            self.record_size > 0,
            self.data_set_len(1) <= usize::MAX,
            records > 0 ==> self.data_set_len(records) <= budget,
        ensures
            self.data_set_len((records + 1) as nat) <= usize::MAX,
            records <= budget,
    {
        let alignment = self.protocol.set_alignment() as nat;
        let size = self.record_size as nat;
        if records > 0 {
            let now = (SET_HEADER_LEN + records * size) as nat;
            let next = (SET_HEADER_LEN + (records + 1) * size) as nat;
            lemma_aligned(now, alignment);
            lemma_aligned(next, alignment);
            assert((records + 1) * size == records * size + size) by (nonlinear_arith);
            assert(records * size >= size && records * size >= records) by (nonlinear_arith)
                requires
                    records > 0,
                    size > 0,
            ;
        }
    }
}

proof fn lemma_record_len_push(fields: Seq<ResolvedField>, last: ResolvedField)
    ensures
        record_len(fields.push(last)) == record_len(fields) + last.length,
{
    assert(fields.push(last).drop_last() == fields);
}

pub proof fn lemma_record_len_take(fields: Seq<ResolvedField>, i: int)
    requires
        0 <= i < fields.len(),
    ensures
        record_len(fields.take(i + 1)) == record_len(fields.take(i)) + fields[i].length,
        record_len(fields.take(i + 1)) <= record_len(fields),
    decreases fields.len() - i,
{
    assert(fields.take(i + 1).drop_last() == fields.take(i));
    if i + 1 < fields.len() {
        lemma_record_len_take(fields, i + 1);
    } else {
        assert(fields.take(i + 1) == fields);
    }
}

pub proof fn lemma_specifiers_len_take(fields: Seq<ResolvedField>, i: int)
    requires
        0 <= i < fields.len(),
    ensures
        specifiers_len(fields.take(i + 1)) == specifiers_len(fields.take(i))
            + fields[i].specifier_len(),
        specifiers_len(fields.take(i + 1)) <= specifiers_len(fields),
    decreases fields.len() - i,
{
    assert(fields.take(i + 1).drop_last() == fields.take(i));
    if i + 1 < fields.len() {
        lemma_specifiers_len_take(fields, i + 1);
    } else {
        assert(fields.take(i + 1) == fields);
    }
}

/// The sizes of the first `k + 1` shapes of a table, from those of the first
/// `k`.
proof fn lemma_sizes_take(
    protocol: Protocol,
    width: CounterWidth,
    shapes: Seq<FieldShape>,
    k: int,
)
    requires
        0 <= k < shapes.len(),
    ensures
        record_len(resolve_shapes(protocol, width, shapes.take(k + 1))) == record_len(
            resolve_shapes(protocol, width, shapes.take(k)),
        ) + resolve_shape(protocol, width, shapes[k]).length,
        specifiers_len(resolve_shapes(protocol, width, shapes.take(k + 1))) == specifiers_len(
            resolve_shapes(protocol, width, shapes.take(k)),
        ) + resolve_shape(protocol, width, shapes[k]).specifier_len(),
{
    let after = resolve_shapes(protocol, width, shapes.take(k + 1));
    assert(after.drop_last() == resolve_shapes(protocol, width, shapes.take(k)));
}

impl Profile {
    /// The number of fields an operator is told the profile has.
    pub open spec fn documented_fields(self) -> nat {
        match self {
            Profile::Full => 14,
            Profile::NatSource => 12,
            Profile::FlowOnly => 9,
        }
    }

    /// The record size an operator is told the profile has.
    pub open spec fn documented_record_size(self, width: CounterWidth) -> nat {
        match (self, width) {
            (Profile::Full, CounterWidth::Eight) => 58,
            (Profile::Full, CounterWidth::Four) => 42,
            (Profile::NatSource, CounterWidth::Eight) => 52,
            (Profile::NatSource, CounterWidth::Four) => 36,
            (Profile::FlowOnly, CounterWidth::Eight) => 45,
            (Profile::FlowOnly, CounterWidth::Four) => 29,
        }
    }
}

proof fn lemma_full_sizes(protocol: Protocol, width: CounterWidth)
    ensures
        ({
            let fields = resolve_shapes(protocol, width, spec_profile_full());
            &&& fields.len() == 14
            &&& record_len(fields) == 26 + 4 * width.bytes()
            &&& specifiers_len(fields) == 56 + (if protocol is Ipfix {
                8nat
            } else {
                0nat
            })
        }),
{
    let shapes = spec_profile_full();
    assert(resolve_shapes(protocol, width, shapes.take(0)) == Seq::<ResolvedField>::empty());
    lemma_sizes_take(protocol, width, shapes, 0);
    lemma_sizes_take(protocol, width, shapes, 1);
    lemma_sizes_take(protocol, width, shapes, 2);
    lemma_sizes_take(protocol, width, shapes, 3);
    lemma_sizes_take(protocol, width, shapes, 4);
    lemma_sizes_take(protocol, width, shapes, 5);
    lemma_sizes_take(protocol, width, shapes, 6);
    lemma_sizes_take(protocol, width, shapes, 7);
    lemma_sizes_take(protocol, width, shapes, 8);
    lemma_sizes_take(protocol, width, shapes, 9);
    lemma_sizes_take(protocol, width, shapes, 10);
    lemma_sizes_take(protocol, width, shapes, 11);
    lemma_sizes_take(protocol, width, shapes, 12);
    lemma_sizes_take(protocol, width, shapes, 13);
    assert(shapes.take(14) == shapes);
}

proof fn lemma_nat_source_sizes(protocol: Protocol, width: CounterWidth)
    ensures
        ({
            let fields = resolve_shapes(protocol, width, spec_profile_nat_source());
            &&& fields.len() == 12
            &&& record_len(fields) == 20 + 4 * width.bytes()
            &&& specifiers_len(fields) == 48 + (if protocol is Ipfix {
                8nat
            } else {
                0nat
            })
        }),
{
    let shapes = spec_profile_nat_source();
    assert(resolve_shapes(protocol, width, shapes.take(0)) == Seq::<ResolvedField>::empty());
    lemma_sizes_take(protocol, width, shapes, 0);
    lemma_sizes_take(protocol, width, shapes, 1);
    lemma_sizes_take(protocol, width, shapes, 2);
    lemma_sizes_take(protocol, width, shapes, 3);
    lemma_sizes_take(protocol, width, shapes, 4);
    lemma_sizes_take(protocol, width, shapes, 5);
    lemma_sizes_take(protocol, width, shapes, 6);
    lemma_sizes_take(protocol, width, shapes, 7);
    lemma_sizes_take(protocol, width, shapes, 8);
    lemma_sizes_take(protocol, width, shapes, 9);
    lemma_sizes_take(protocol, width, shapes, 10);
    lemma_sizes_take(protocol, width, shapes, 11);
    assert(shapes.take(12) == shapes);
}

proof fn lemma_flow_only_sizes(protocol: Protocol, width: CounterWidth)
    ensures
        ({
            let fields = resolve_shapes(protocol, width, spec_profile_flow_only());
            &&& fields.len() == 9
            &&& record_len(fields) == 13 + 4 * width.bytes()
            &&& specifiers_len(fields) == 36 + (if protocol is Ipfix {
                8nat
            } else {
                0nat
            })
        }),
{
    let shapes = spec_profile_flow_only();
    assert(resolve_shapes(protocol, width, shapes.take(0)) == Seq::<ResolvedField>::empty());
    lemma_sizes_take(protocol, width, shapes, 0);
    lemma_sizes_take(protocol, width, shapes, 1);
    lemma_sizes_take(protocol, width, shapes, 2);
    lemma_sizes_take(protocol, width, shapes, 3);
    lemma_sizes_take(protocol, width, shapes, 4);
    lemma_sizes_take(protocol, width, shapes, 5);
    lemma_sizes_take(protocol, width, shapes, 6);
    lemma_sizes_take(protocol, width, shapes, 7);
    lemma_sizes_take(protocol, width, shapes, 8);
    assert(shapes.take(9) == shapes);
}

/// The tables declare every field as wide as its source.
pub proof fn law_profiles_are_consistent(profile: Profile, i: int)
    requires
        0 <= i < profile.spec_shapes().len(),
    ensures
        profile.spec_shapes()[i].consistent(),
{
}

/// Every configuration has the documented field count and record size, its
/// fields can be written and described, and its specifiers take four bytes
/// each, plus an enterprise number for the two reply counters under IPFIX.
pub proof fn law_configuration_sizes(protocol: Protocol, profile: Profile, width: CounterWidth)
    ensures
        ({
            let fields = resolve_shapes(protocol, width, profile.spec_shapes());
            &&& fields.len() == profile.documented_fields()
            &&& record_len(fields) == profile.documented_record_size(width)
            &&& specifiers_len(fields) == 4 * fields.len() + (if protocol is Ipfix {
                8nat
            } else {
                0nat
            })
            &&& forall|i: int| 0 <= i < fields.len() ==> (#[trigger] fields[i]).wf(protocol)
        }),
{
    let shapes = profile.spec_shapes();
    let fields = resolve_shapes(protocol, width, shapes);
    match profile {
        Profile::Full => lemma_full_sizes(protocol, width),
        Profile::NatSource => lemma_nat_source_sizes(protocol, width),
        Profile::FlowOnly => lemma_flow_only_sizes(protocol, width),
    }
    assert forall|i: int| 0 <= i < fields.len() implies (#[trigger] fields[i]).wf(protocol) by {
        law_profiles_are_consistent(profile, i);
        assert(fields[i] == resolve_shape(protocol, width, shapes[i]));
    }
}

} // verus!
