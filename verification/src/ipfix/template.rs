//! The template of the fixed NAT event record.

use super::constants::{
    DATA_RECORD_SIZE, ENTERPRISE_NUMBER_LEN, FIELD_SPECIFIER_LEN, IE_DESTINATION_IPV4_ADDRESS,
    IE_DESTINATION_TRANSPORT_PORT, IE_NAT_EVENT, IE_OCTET_DELTA_COUNT, IE_PACKET_DELTA_COUNT,
    IE_POST_NAPT_DESTINATION_TRANSPORT_PORT, IE_POST_NAPT_SOURCE_TRANSPORT_PORT,
    IE_POST_NAT_DESTINATION_IPV4_ADDRESS, IE_POST_NAT_SOURCE_IPV4_ADDRESS, IE_PROTOCOL_IDENTIFIER,
    IE_SOURCE_IPV4_ADDRESS, IE_SOURCE_TRANSPORT_PORT, REVERSE_INFORMATION_ELEMENT_PEN,
    SET_HEADER_LEN, TEMPLATE_FIELD_COUNT,
};
use vstd::prelude::*;

verus! {

/// Field specification for a template record.
#[derive(Debug, Clone, Copy, PartialEq, Eq, Structural)]
pub struct FieldSpec {
    pub ie_id: u16,
    pub length: u16,
    /// Private Enterprise Number, for enterprise-specific Information Elements.
    /// Present fields are encoded with the enterprise bit set and carry four
    /// extra bytes in the template (RFC 7011 section 3.2).
    pub enterprise: Option<u32>,
}

pub open spec fn spec_ie(ie_id: u16, length: u16) -> FieldSpec {
    FieldSpec { ie_id, length, enterprise: None }
}

/// An IANA-registered Information Element.
#[verifier::when_used_as_spec(spec_ie)]
fn ie(ie_id: u16, length: u16) -> (field: FieldSpec)
    ensures
        field == spec_ie(ie_id, length),
{
    FieldSpec { ie_id, length, enterprise: None }
}

pub open spec fn spec_reverse_ie(ie_id: u16, length: u16) -> FieldSpec {
    FieldSpec { ie_id, length, enterprise: Some(REVERSE_INFORMATION_ELEMENT_PEN) }
}

/// The reply-direction counterpart of an IE, per RFC 5103.
#[verifier::when_used_as_spec(spec_reverse_ie)]
fn reverse_ie(ie_id: u16, length: u16) -> (field: FieldSpec)
    ensures
        field == spec_reverse_ie(ie_id, length),
{
    FieldSpec { ie_id, length, enterprise: Some(REVERSE_INFORMATION_ELEMENT_PEN) }
}

/// The NAT event template fields in order.
pub open spec fn spec_nat_template_fields() -> Seq<FieldSpec> {
    seq![
        spec_ie(IE_NAT_EVENT, 1),
        spec_ie(IE_PROTOCOL_IDENTIFIER, 1),
        spec_ie(IE_SOURCE_IPV4_ADDRESS, 4),
        spec_ie(IE_DESTINATION_IPV4_ADDRESS, 4),
        spec_ie(IE_SOURCE_TRANSPORT_PORT, 2),
        spec_ie(IE_DESTINATION_TRANSPORT_PORT, 2),
        spec_ie(IE_POST_NAT_SOURCE_IPV4_ADDRESS, 4),
        spec_ie(IE_POST_NAPT_SOURCE_TRANSPORT_PORT, 2),
        spec_ie(IE_POST_NAT_DESTINATION_IPV4_ADDRESS, 4),
        spec_ie(IE_POST_NAPT_DESTINATION_TRANSPORT_PORT, 2),
        spec_ie(IE_OCTET_DELTA_COUNT, 8),
        spec_ie(IE_PACKET_DELTA_COUNT, 8),
        spec_reverse_ie(IE_OCTET_DELTA_COUNT, 8),
        spec_reverse_ie(IE_PACKET_DELTA_COUNT, 8),
    ]
}

/// The NAT event template fields in order.
pub fn nat_template_fields() -> (fields: Vec<FieldSpec>)
    ensures
        fields@ == spec_nat_template_fields(),
{
    vec![
        ie(IE_NAT_EVENT, 1),
        ie(IE_PROTOCOL_IDENTIFIER, 1),
        ie(IE_SOURCE_IPV4_ADDRESS, 4),
        ie(IE_DESTINATION_IPV4_ADDRESS, 4),
        ie(IE_SOURCE_TRANSPORT_PORT, 2),
        ie(IE_DESTINATION_TRANSPORT_PORT, 2),
        ie(IE_POST_NAT_SOURCE_IPV4_ADDRESS, 4),
        ie(IE_POST_NAPT_SOURCE_TRANSPORT_PORT, 2),
        ie(IE_POST_NAT_DESTINATION_IPV4_ADDRESS, 4),
        ie(IE_POST_NAPT_DESTINATION_TRANSPORT_PORT, 2),
        ie(IE_OCTET_DELTA_COUNT, 8),
        ie(IE_PACKET_DELTA_COUNT, 8),
        reverse_ie(IE_OCTET_DELTA_COUNT, 8),
        reverse_ie(IE_PACKET_DELTA_COUNT, 8),
    ]
}

impl FieldSpec {
    /// Size of the field's specifier in a template.
    pub open spec fn specifier_len(self) -> nat {
        match self.enterprise {
            Some(_) => (FIELD_SPECIFIER_LEN + ENTERPRISE_NUMBER_LEN) as nat,
            None => FIELD_SPECIFIER_LEN as nat,
        }
    }
}

/// Size of the specifiers of some fields.
pub open spec fn specifiers_len(fields: Seq<FieldSpec>) -> nat
    decreases fields.len(),
{
    if fields.len() == 0 {
        0
    } else {
        specifiers_len(fields.drop_last()) + fields.last().specifier_len()
    }
}

/// Size of a record with some fields.
pub open spec fn record_len(fields: Seq<FieldSpec>) -> nat
    decreases fields.len(),
{
    if fields.len() == 0 {
        0
    } else {
        record_len(fields.drop_last()) + fields.last().length as nat
    }
}

/// Size of one field specifier: four bytes, plus the enterprise number when the
/// Information Element is enterprise-specific.
fn field_specifier_size(field: &FieldSpec) -> (size: usize)
    ensures
        size == field.specifier_len(),
{
    match field.enterprise {
        Some(_) => FIELD_SPECIFIER_LEN + ENTERPRISE_NUMBER_LEN,
        None => FIELD_SPECIFIER_LEN,
    }
}

/// The size of a template set (set header + template record header + field
/// specs).
/// Set header: 4 bytes (set_id=2, length)
/// Template record header: 4 bytes (template_id, field_count)
pub fn template_set_size() -> (size: usize)
    ensures
        size == SET_HEADER_LEN + 4 + specifiers_len(spec_nat_template_fields()),
        size == 72,
{
    let fields: Vec<FieldSpec> = nat_template_fields();
    let mut size: usize = SET_HEADER_LEN + 4;
    let mut i: usize = 0;
    while i < fields.len()
        invariant
            i <= fields@.len() == 14,
            size == SET_HEADER_LEN + 4 + specifiers_len(fields@.take(i as int)),
            size <= 8 + 8 * i,
        decreases fields@.len() - i,
    {
        assert(fields@.take(i + 1).drop_last() == fields@.take(i as int));
        size = size + field_specifier_size(&fields[i]);
        i = i + 1;
    }
    assert(fields@.take(i as int) == fields@);
    proof {
        law_nat_template_sizes();
    }
    size
}

/// Total size of one data record, derived from the template itself.
pub fn record_size() -> (size: usize)
    ensures
        size == record_len(spec_nat_template_fields()),
        size == DATA_RECORD_SIZE,
{
    let fields: Vec<FieldSpec> = nat_template_fields();
    let mut size: usize = 0;
    let mut i: usize = 0;
    while i < fields.len()
        invariant
            i <= fields@.len() == 14,
            size == record_len(fields@.take(i as int)),
            size <= 65535 * i,
        decreases fields@.len() - i,
    {
        assert(fields@.take(i + 1).drop_last() == fields@.take(i as int));
        size = size + fields[i].length as usize;
        i = i + 1;
    }
    assert(fields@.take(i as int) == fields@);
    proof {
        law_nat_template_sizes();
    }
    size
}

proof fn lemma_sizes_take(fields: Seq<FieldSpec>, k: int)
    requires
        0 <= k < fields.len(),
    ensures
        specifiers_len(fields.take(k + 1)) == specifiers_len(fields.take(k))
            + fields[k].specifier_len(),
        record_len(fields.take(k + 1)) == record_len(fields.take(k)) + fields[k].length,
{
    assert(fields.take(k + 1).drop_last() == fields.take(k));
}

/// The constants agree with the template: the record size is the sum of the
/// field lengths, and the field count is the number of fields.
pub proof fn law_nat_template_sizes()
    ensures
        record_len(spec_nat_template_fields()) == DATA_RECORD_SIZE,
        spec_nat_template_fields().len() == TEMPLATE_FIELD_COUNT,
        specifiers_len(spec_nat_template_fields()) == 64,
{
    let fields = spec_nat_template_fields();
    assert(specifiers_len(fields.take(0)) == 0 && record_len(fields.take(0)) == 0);
    lemma_sizes_take(fields, 0);
    lemma_sizes_take(fields, 1);
    lemma_sizes_take(fields, 2);
    lemma_sizes_take(fields, 3);
    lemma_sizes_take(fields, 4);
    lemma_sizes_take(fields, 5);
    lemma_sizes_take(fields, 6);
    lemma_sizes_take(fields, 7);
    lemma_sizes_take(fields, 8);
    lemma_sizes_take(fields, 9);
    lemma_sizes_take(fields, 10);
    lemma_sizes_take(fields, 11);
    lemma_sizes_take(fields, 12);
    lemma_sizes_take(fields, 13);
    assert(fields.take(14) == fields);
}

} // verus!
