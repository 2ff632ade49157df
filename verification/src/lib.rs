//! A codec for the W3C traceparent token: extract a trace context from a
//! carrier of request metadata, derive child contexts, and inject the
//! canonical encoding back into a carrier.

pub mod carrier;
pub mod hex;
pub mod split;

use vstd::prelude::*;

verus! {

use crate::carrier::{
    entry_count,
    get_traceparent,
    header_value_bytes,
    header_value_from_bytes,
    insert_traceparent,
    other_entries,
    traceparent_of,
    valid_header_byte,
};
use crate::hex::{
    hex_render,
    hex_value,
    is_hex_digit,
    is_hex_field,
    lemma_hex_render_digits,
    lemma_hex_render_value,
    lemma_pow16_widths,
    parse_hex,
    render_hex,
};
use crate::split::{
    lemma_split_around_dash,
    lemma_split_no_dash,
    spec_split,
    split_dash,
    DASH,
};

/// Why a traceparent token was rejected: it did not split into exactly four
/// fields, or the named field was not a well-formed hexadecimal field of
/// its width.
#[derive(Debug, Clone, Copy, PartialEq, Eq, Structural)]
pub enum ParseError {
    Structure,
    Version,
    TraceId,
    ParentId,
    Flags,
}

/// One hop's position in a trace: its own random identity, the identity of
/// the trace it belongs to, the identity of the hop that caused it (absent
/// for a trace root), and the bit-packed flags whose bit 0 means "sampled".
#[derive(Debug)]
pub struct TraceContext {
    pub id: u64,
    pub version: u8,
    pub trace_id: u128,
    pub parent_id: Option<u64>,
    pub flags: u8,
}

/// What parsing a token yields: version, trace id, parent id and flags, or
/// the first failure in field order.
pub open spec fn spec_parse(s: Seq<u8>) -> Result<(u8, u128, u64, u8), ParseError> {
    let parts = spec_split(s);
    if parts.len() != 4 {
        Err(ParseError::Structure)
    } else if !(is_hex_field(parts[0]) && hex_value(parts[0]) <= 0xff) {
        Err(ParseError::Version)
    } else if !(is_hex_field(parts[1]) && hex_value(parts[1]) <= u128::MAX) {
        Err(ParseError::TraceId)
    } else if !(is_hex_field(parts[2]) && hex_value(parts[2]) <= u64::MAX) {
        Err(ParseError::ParentId)
    } else if !(is_hex_field(parts[3]) && hex_value(parts[3]) <= 0xff) {
        Err(ParseError::Flags)
    } else {
        Ok(
            (
                hex_value(parts[0]) as u8,
                hex_value(parts[1]) as u128,
                hex_value(parts[2]) as u64,
                hex_value(parts[3]) as u8,
            ),
        )
    }
}

/// The canonical text form of a context: two hexadecimal digits of version,
/// thirty-two of trace id, sixteen of this hop's id and two of flags, all
/// lowercase and zero-padded, joined by the delimiter.
pub open spec fn spec_encode(c: TraceContext) -> Seq<u8> {
    hex_render(c.version as nat, 2) + seq![DASH] + hex_render(c.trace_id as nat, 32) + seq![DASH]
        + hex_render(c.id as nat, 16) + seq![DASH] + hex_render(c.flags as nat, 2)
}

/// The shape of a freshly started trace root: version 0, no parent, and
/// flags 1 (sampled).
pub open spec fn root_defaults(c: TraceContext) -> bool {
    c.version == 0 && c.parent_id is None && c.flags == 1
}

/// The flags byte with bit 0 forced to the requested sampling choice and
/// every other bit untouched.
pub open spec fn spec_with_sampled(flags: u8, sampled: bool) -> u8 {
    if sampled {
        flags | 1
    } else {
        flags & 0xfe
    }
}

impl TraceContext {
    /// The sampled flag: bit 0 of the flags byte.
    pub open spec fn spec_sampled(self) -> bool {
        self.flags & 1 == 1
    }

    /// Parse the four delimited fields of a token.
    fn parse_fields(bytes: &Vec<u8>) -> (r: Result<(u8, u128, u64, u8), ParseError>)
        ensures
            r == spec_parse(bytes@),
    {
        let parts = split_dash(bytes);
        proof {
            assert(parts@.map_values(|p: Vec<u8>| p@).len() == parts@.len());
        }
        if parts.len() != 4 {
            return Err(ParseError::Structure);
        }
        proof {
            assert forall|k: int| 0 <= k < 4 implies #[trigger] spec_split(bytes@)[k]
                == parts@[k]@ by {
                assert(parts@.map_values(|p: Vec<u8>| p@)[k] == parts@[k]@);
            }
        }
        let version = match parse_hex(&parts[0], 0xff) {
            Some(v) => v as u8,
            None => {
                return Err(ParseError::Version);
            },
        };
        let trace_id = match parse_hex(&parts[1], u128::MAX) {
            Some(v) => v,
            None => {
                return Err(ParseError::TraceId);
            },
        };
        let parent = match parse_hex(&parts[2], 0xffff_ffff_ffff_ffff) {
            Some(v) => v as u64,
            None => {
                return Err(ParseError::ParentId);
            },
        };
        let flags = match parse_hex(&parts[3], 0xff) {
            Some(v) => v as u8,
            None => {
                return Err(ParseError::Flags);
            },
        };
        Ok((version, trace_id, parent, flags))
    }

    /// Read the carrier's "traceparent" entry and build a context from it.
    ///
    /// An absent entry is not an error: it starts a fresh trace, yielding a
    /// root context. A present entry must parse, and its parent/span field
    /// becomes this context's parent while the context's own `id` is drawn
    /// fresh at random.
    pub fn extract(headers: &http::HeaderMap) -> (r: Result<TraceContext, ParseError>)
        ensures
            traceparent_of(*headers) is None ==> (r matches Ok(c) && root_defaults(c)
                && c.spec_sampled()),
            traceparent_of(*headers) matches Some(bytes) ==> match spec_parse(bytes) {
                Ok(f) => (r matches Ok(c) && c.version == f.0 && c.trace_id == f.1 && c.parent_id
                    == Some(f.2) && c.flags == f.3),
                Err(e) => r == Err::<TraceContext, ParseError>(e),
            },
    {
        let value = match get_traceparent(headers) {
            Some(value) => value,
            None => {
                return Ok(Self::new_root());
            },
        };
        let bytes = header_value_bytes(value);
        match Self::parse_fields(&bytes) {
            Ok((version, trace_id, parent, flags)) => Ok(
                TraceContext {
                    id: rand::random::<u64>(),
                    version,
                    trace_id,
                    parent_id: Some(parent),
                    flags,
                },
            ),
            Err(e) => Err(e),
        }
    }

    /// Start a fresh trace: random identities, version 0, no parent, and
    /// the sampled flag set.
    pub fn new_root() -> (c: TraceContext)
        ensures
            root_defaults(c),
            c.spec_sampled(),
    {
        let c = TraceContext {
            id: rand::random::<u64>(),
            version: 0,
            trace_id: rand::random::<u128>(),
            parent_id: None,
            flags: 1,
        };
        proof {
            assert(1u8 & 1 == 1) by (bit_vector);
        }
        c
    }

    /// The canonical encoding of this context as token bytes.
    pub fn encode(&self) -> (r: Vec<u8>)
        ensures
            r@ == spec_encode(*self),
    {
        let mut out = render_hex(self.version as u128, 2);
        out.push(DASH);
        let mut part = render_hex(self.trace_id, 32);
        out.append(&mut part);
        out.push(DASH);
        let mut part = render_hex(self.id as u128, 16);
        out.append(&mut part);
        out.push(DASH);
        let mut part = render_hex(self.flags as u128, 2);
        out.append(&mut part);
        proof {
            assert(out@ =~= spec_encode(*self));
        }
        out
    }

    /// Write the canonical encoding of this context into the carrier under
    /// the key "traceparent", replacing any prior entry and touching no
    /// other key. On any carrier below the stated bound the write is owed;
    /// only a carrier near its fixed size ceiling can refuse it, and its
    /// entries are then left as they were.
    pub fn inject(&self, headers: &mut http::HeaderMap)
        ensures
            entry_count(*old(headers)) < 4096 ==> traceparent_of(*final(headers)) == Some(
                spec_encode(*self),
            ),
            traceparent_of(*final(headers)) == Some(spec_encode(*self)) || traceparent_of(
                *final(headers),
            ) == traceparent_of(*old(headers)),
            other_entries(*final(headers)) == other_entries(*old(headers)),
    {
        let bytes = self.encode();
        proof {
            lemma_encode_bytes_valid(*self);
        }
        match header_value_from_bytes(&bytes) {
            Some(value) => {
                let _ = insert_traceparent(headers, value);
            },
            None => {},
        }
    }

    /// Derive the identity this hop presents downstream: same version,
    /// trace id and flags, a fresh random id, and this hop's id as parent.
    pub fn child(&self) -> (c: TraceContext)
        ensures
            c.version == self.version,
            c.trace_id == self.trace_id,
            c.flags == self.flags,
            c.parent_id == Some(self.id),
    {
        TraceContext {
            id: rand::random::<u64>(),
            version: self.version,
            trace_id: self.trace_id,
            parent_id: Some(self.id),
            flags: self.flags,
        }
    }

    pub fn id(&self) -> (r: u64)
        ensures
            r == self.id,
    {
        self.id
    }

    pub fn version(&self) -> (r: u8)
        ensures
            r == self.version,
    {
        self.version
    }

    pub fn trace_id(&self) -> (r: u128)
        ensures
            r == self.trace_id,
    {
        self.trace_id
    }

    pub fn parent_id(&self) -> (r: Option<u64>)
        ensures
            r == self.parent_id,
    {
        self.parent_id
    }

    pub fn flags(&self) -> (r: u8)
        ensures
            r == self.flags,
    {
        self.flags
    }

    /// Whether this trace's telemetry should be recorded downstream.
    pub fn sampled(&self) -> (r: bool)
        ensures
            r == self.spec_sampled(),
    {
        (self.flags & 1) == 1
    }

    /// Force bit 0 of the flags to the requested sampling choice, leaving
    /// every other bit and every other field untouched.
    pub fn set_sampled(&mut self, sampled: bool)
        ensures
            final(self).flags == spec_with_sampled(old(self).flags, sampled),
            final(self).spec_sampled() == sampled,
            final(self).id == old(self).id,
            final(self).version == old(self).version,
            final(self).trace_id == old(self).trace_id,
            final(self).parent_id == old(self).parent_id,
    {
        if sampled {
            self.flags = self.flags | 1;
        } else {
            self.flags = self.flags & 0xfe;
        }
        proof {
            let f = old(self).flags;
            assert((f | 1) & 1 == 1) by (bit_vector);
            assert((f & 0xfe) & 1 == 0) by (bit_vector);
        }
    }
}

/// Every byte of a canonical encoding is one http accepts in a header
/// value: a hexadecimal digit or the delimiter.
pub proof fn lemma_encode_bytes_valid(c: TraceContext)
    ensures
        forall|i: int|
            0 <= i < spec_encode(c).len() ==> valid_header_byte(#[trigger] spec_encode(c)[i]),
{
    lemma_hex_render_digits(c.version as nat, 2);
    lemma_hex_render_digits(c.trace_id as nat, 32);
    lemma_hex_render_digits(c.id as nat, 16);
    lemma_hex_render_digits(c.flags as nat, 2);
    assert forall|i: int| 0 <= i < spec_encode(c).len() implies valid_header_byte(
        #[trigger] spec_encode(c)[i],
    ) by {
        let b = spec_encode(c)[i];
        assert(is_hex_digit(b) || b == DASH);
    }
}

/// Law: a context injected into a carrier and extracted back keeps its
/// version, trace id and flags, and carries the injecting context's own
/// `id` as the extracted parent: parsing the canonical encoding of any
/// context yields exactly those four fields.
pub proof fn lemma_encode_parse_round_trip(c: TraceContext)
    ensures
        spec_parse(spec_encode(c)) == Ok::<(u8, u128, u64, u8), ParseError>(
            (c.version, c.trace_id, c.id, c.flags),
        ),
{
    let a = hex_render(c.version as nat, 2);
    let b = hex_render(c.trace_id as nat, 32);
    let d = hex_render(c.id as nat, 16);
    let e = hex_render(c.flags as nat, 2);
    lemma_hex_render_digits(c.version as nat, 2);
    lemma_hex_render_digits(c.trace_id as nat, 32);
    lemma_hex_render_digits(c.id as nat, 16);
    lemma_hex_render_digits(c.flags as nat, 2);
    lemma_pow16_widths();
    lemma_hex_render_value(c.version as nat, 2);
    lemma_hex_render_value(c.trace_id as nat, 32);
    lemma_hex_render_value(c.id as nat, 16);
    lemma_hex_render_value(c.flags as nat, 2);
    let s = spec_encode(c);
    assert(s =~= a + seq![DASH] + (b + seq![DASH] + (d + seq![DASH] + e)));
    lemma_split_around_dash(a, b + seq![DASH] + (d + seq![DASH] + e));
    lemma_split_around_dash(b, d + seq![DASH] + e);
    lemma_split_around_dash(d, e);
    lemma_split_no_dash(a);
    lemma_split_no_dash(b);
    lemma_split_no_dash(d);
    lemma_split_no_dash(e);
    assert(spec_split(s) =~~= seq![a, b, d, e]);
    assert(spec_split(s)[0] == a && spec_split(s)[1] == b && spec_split(s)[2] == d && spec_split(
        s,
    )[3] == e);
}

/// Law: `set_sampled` touches bit 0 alone. Any single call keeps every bit
/// above bit 0, and setting then clearing the sampled bit is the same as
/// clearing it outright, leaving the context unsampled.
pub proof fn lemma_set_sampled_isolation(flags: u8)
    ensures
        spec_with_sampled(flags, true) & 0xfe == flags & 0xfe,
        spec_with_sampled(flags, false) & 0xfe == flags & 0xfe,
        spec_with_sampled(spec_with_sampled(flags, true), false) == spec_with_sampled(flags, false),
        spec_with_sampled(flags, false) & 1 == 0,
{
    assert((flags | 1) & 0xfe == flags & 0xfe) by (bit_vector);
    assert((flags & 0xfe) & 0xfe == flags & 0xfe) by (bit_vector);
    assert((flags & 0xfe) & 1 == 0) by (bit_vector);
}

/// Law: malformed input is rejected. When a token does not split into
/// exactly four fields, or any of its fields is not a well-formed
/// hexadecimal field, parsing yields an error.
pub proof fn lemma_malformed_rejected(s: Seq<u8>)
    requires
        spec_split(s).len() != 4 || exists|i: int|
            0 <= i < spec_split(s).len() && !is_hex_field(#[trigger] spec_split(s)[i]),
    ensures
        spec_parse(s) is Err,
{
    if spec_split(s).len() == 4 {
        let i = choose|i: int| 0 <= i < spec_split(s).len() && !is_hex_field(
            #[trigger] spec_split(s)[i],
        );
        assert(i == 0 || i == 1 || i == 2 || i == 3);
    }
}

} // verus!
