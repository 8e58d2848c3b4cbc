//! The custom-field dictionary: stable field names bound to the numeric
//! column ids a downstream sink advertises, and the typed scratch vector
//! of values appended to each exported flow record.

use vstd::prelude::*;
use crate::flow::IpAddr;
use crate::protocol::decode::Decoder;
use crate::time::Duration;

verus! {

pub const FRAGMENTS: &'static str = "FRAGMENTS";
pub const APP_LATENCY: &'static str = "APPL_LATENCY_MS";
pub const FPX_LATENCY: &'static str = "FPEX_LATENCY_MS";
pub const CLIENT_NW_LATENCY: &'static str = "CLIENT_NW_LATENCY_MS";
pub const SERVER_NW_LATENCY: &'static str = "SERVER_NW_LATENCY_MS";
pub const RETRANSMITTED_IN: &'static str = "RETRANSMITTED_IN_PKTS";
pub const RETRANSMITTED_OUT: &'static str = "RETRANSMITTED_OUT_PKTS";
pub const REPEATED_RETRANSMITS: &'static str = "REPEATED_RETRANSMITS";
pub const OOORDER_IN: &'static str = "OOORDER_IN_PKTS";
pub const OOORDER_OUT: &'static str = "OOORDER_OUT_PKTS";
pub const RECEIVE_WINDOW: &'static str = "RECEIVE_WINDOW";
pub const ZERO_WINDOWS: &'static str = "ZERO_WINDOWS";
pub const APP_PROTOCOL: &'static str = "APP_PROTOCOL";
pub const CONNECTION_ID: &'static str = "CONNECTION_ID";
pub const DNS_QUERY_NAME: &'static str = "KFLOW_DNS_QUERY";
pub const DNS_QUERY_TYPE: &'static str = "KFLOW_DNS_QUERY_TYPE";
pub const DNS_REPLY_CODE: &'static str = "KFLOW_DNS_RET_CODE";
pub const DNS_REPLY_DATA: &'static str = "KFLOW_DNS_RESPONSE";
pub const HTTP_URL: &'static str = "KFLOW_HTTP_URL";
pub const HTTP_HOST: &'static str = "KFLOW_HTTP_HOST";
pub const HTTP_REFERER: &'static str = "KFLOW_HTTP_REFERER";
pub const HTTP_UA: &'static str = "KFLOW_HTTP_UA";
pub const HTTP_STATUS: &'static str = "KFLOW_HTTP_STATUS";
pub const TLS_SERVER_NAME: &'static str = "TLS_SERVER_NAME";
pub const TLS_SERVER_VERSION: &'static str = "TLS_SERVER_VERSION";
pub const TLS_CIPHER_SUITE: &'static str = "TLS_CIPHER_SUITE";
pub const DHCP_OP: &'static str = "DHCP_OP";
pub const DHCP_MSG_TYPE: &'static str = "DHCP_MSG_TYPE";
pub const DHCP_CI_ADDR: &'static str = "DHCP_CI_ADDR";
pub const DHCP_YI_ADDR: &'static str = "DHCP_YI_ADDR";
pub const DHCP_SI_ADDR: &'static str = "DHCP_SI_ADDR";
pub const DHCP_LEASE: &'static str = "DHCP_LEASE";
pub const DHCP_CH_ADDR: &'static str = "DHCP_CH_ADDR";
pub const DHCP_HOSTNAME: &'static str = "DHCP_HOSTNAME";
pub const DHCP_DOMAIN: &'static str = "DHCP_DOMAIN";
pub const RADIUS_CODE: &'static str = "RADIUS_CODE";
pub const RADIUS_USER_NAME: &'static str = "RADIUS_USER_NAME";
pub const RADIUS_SERVICE_TYPE: &'static str = "RADIUS_SERVICE_TYPE";
pub const RADIUS_FRAMED_IP_ADDR: &'static str = "RADIUS_FRAMED_IP_ADDR";
pub const RADIUS_FRAMED_IP_MASK: &'static str = "RADIUS_FRAMED_IP_MASK";
pub const RADIUS_FRAMED_PROTO: &'static str = "RADIUS_FRAMED_PROTO";
pub const RADIUS_ACCT_SESSION_ID: &'static str = "RADIUS_ACCT_SESSION_ID";
pub const RADIUS_ACCT_STATUS: &'static str = "RADIUS_ACCT_STATUS";

/// A typed value bound for a custom column.
#[derive(Clone, Debug, PartialEq, Eq)]
pub enum Value {
    Str(Vec<u8>),
    U32(u32),
    Addr(IpAddr),
}

/// The mathematical value of a `Value`.
pub enum ValueV {
    Str(Seq<u8>),
    U32(u32),
    Addr(IpAddr),
}

impl View for Value {
    type V = ValueV;

    open spec fn view(&self) -> ValueV {
        match self {
            Value::Str(s) => ValueV::Str(s@),
            Value::U32(n) => ValueV::U32(*n),
            Value::Addr(a) => ValueV::Addr(*a),
        }
    }
}

/// One custom column of a flow record: a column id and its value.
#[derive(Clone, Debug, PartialEq, Eq)]
pub struct Custom {
    pub id: u64,
    pub value: Value,
}

/// The mathematical value of a `Custom`.
pub struct CustomV {
    pub id: u64,
    pub value: ValueV,
}

impl View for Custom {
    type V = CustomV;

    open spec fn view(&self) -> CustomV {
        CustomV { id: self.id, value: self.value@ }
    }
}

/// The latency value emitted for a span: milliseconds clamped to
/// [1, 20 000].
pub open spec fn latency_ms(d: Duration) -> u32 {
    if d.ns > 20_000_000_000 {
        20_000
    } else if d.ns < 1_000_000 {
        1
    } else {
        (d.ns / 1_000_000) as u32
    }
}

/// A name-to-id binding list, as mathematics sees it.
pub type Bindings = Seq<(Seq<char>, u64)>;

/// The dictionary of field names and the scratch vector of values.
pub struct Customs {
    app_proto: Option<u64>,
    fragments: Option<u64>,
    fields: Vec<(String, u64)>,
    vec: Vec<Custom>,
}

impl Customs {
    /// The binding list a vector of name/id pairs denotes.
    pub open spec fn names_of(s: Seq<(String, u64)>) -> Bindings {
        s.map_values(|p: (String, u64)| (p.0@, p.1))
    }

    /// The id bound to a name; the last binding wins.
    pub open spec fn lookup(s: Bindings, name: Seq<char>) -> Option<u64>
        decreases s.len(),
    {
        if s.len() == 0 {
            None
        } else if s.last().0 == name {
            Some(s.last().1)
        } else {
            Self::lookup(s.drop_last(), name)
        }
    }

    /// The id bound to a name that is known to be bound.
    pub open spec fn slot(s: Bindings, name: Seq<char>) -> u64 {
        match Self::lookup(s, name) {
            Some(id) => id,
            None => 0,
        }
    }

    /// Whether a binding list carries the `APP_PROTOCOL` sentinel.
    pub open spec fn has_app_protocol(cs: Bindings) -> bool {
        Self::lookup(cs, APP_PROTOCOL@) is Some
    }

    /// The fixed alias table installed under the `APP_PROTOCOL` sentinel:
    /// each protocol-specific name is remapped onto one of the generic
    /// shared slots, so that several decoders share the same columns.
    pub open spec fn alias_table(cs: Bindings) -> Bindings {
        seq![
            (DNS_QUERY_NAME@, Self::slot(cs, "STR00"@)),
            (DNS_QUERY_TYPE@, Self::slot(cs, "INT00"@)),
            (DNS_REPLY_CODE@, Self::slot(cs, "INT01"@)),
            (DNS_REPLY_DATA@, Self::slot(cs, "STR01"@)),
            (HTTP_URL@, Self::slot(cs, "STR00"@)),
            (HTTP_HOST@, Self::slot(cs, "STR01"@)),
            (HTTP_REFERER@, Self::slot(cs, "STR02"@)),
            (HTTP_UA@, Self::slot(cs, "STR03"@)),
            (HTTP_STATUS@, Self::slot(cs, "INT00"@)),
            (TLS_SERVER_NAME@, Self::slot(cs, "STR00"@)),
            (TLS_SERVER_VERSION@, Self::slot(cs, "INT00"@)),
            (TLS_CIPHER_SUITE@, Self::slot(cs, "INT01"@)),
            (DHCP_OP@, Self::slot(cs, "INT00"@)),
            (DHCP_MSG_TYPE@, Self::slot(cs, "INT01"@)),
            (DHCP_CI_ADDR@, Self::slot(cs, "INET_00"@)),
            (DHCP_YI_ADDR@, Self::slot(cs, "INET_01"@)),
            (DHCP_SI_ADDR@, Self::slot(cs, "INET_02"@)),
            (DHCP_LEASE@, Self::slot(cs, "INT02"@)),
            (DHCP_CH_ADDR@, Self::slot(cs, "STR00"@)),
            (DHCP_HOSTNAME@, Self::slot(cs, "STR01"@)),
            (DHCP_DOMAIN@, Self::slot(cs, "STR02"@)),
            (RADIUS_CODE@, Self::slot(cs, "INT00"@)),
            (RADIUS_USER_NAME@, Self::slot(cs, "STR00"@)),
            (RADIUS_SERVICE_TYPE@, Self::slot(cs, "INT01"@)),
            (RADIUS_FRAMED_IP_ADDR@, Self::slot(cs, "INET_00"@)),
            (RADIUS_FRAMED_IP_MASK@, Self::slot(cs, "INET_01"@)),
            (RADIUS_FRAMED_PROTO@, Self::slot(cs, "STR01"@)),
            (RADIUS_ACCT_STATUS@, Self::slot(cs, "INT02"@)),
            (RADIUS_ACCT_SESSION_ID@, Self::slot(cs, "STR02"@)),
            (OOORDER_IN@, Self::slot(cs, OOORDER_IN@)),
            (OOORDER_OUT@, Self::slot(cs, OOORDER_IN@)),
            (RETRANSMITTED_IN@, Self::slot(cs, RETRANSMITTED_OUT@)),
            (RETRANSMITTED_OUT@, Self::slot(cs, RETRANSMITTED_OUT@)),
        ]
    }

    /// The id the dictionary answers for a name, given the sink's binding
    /// list `cs`: under the `APP_PROTOCOL` sentinel the alias table
    /// shadows the plain bindings; otherwise names answer as bound, with
    /// `TLS_SERVER_NAME` falling back to the `HTTP_HOST` column when only
    /// that is known.
    pub open spec fn alias_lookup(cs: Bindings, m: Seq<char>) -> Option<u64> {
        if Self::has_app_protocol(cs) {
            Self::lookup(cs + Self::alias_table(cs), m)
        } else if Self::lookup(cs, HTTP_HOST@) is Some {
            Self::lookup(cs.push((TLS_SERVER_NAME@, Self::slot(cs, HTTP_HOST@))), m)
        } else {
            Self::lookup(cs, m)
        }
    }

    /// The id the dictionary answers for `name`.
    pub closed spec fn get_spec(&self, name: Seq<char>) -> Option<u64> {
        Self::lookup(Self::names_of(self.fields@), name)
    }

    /// The scratch vector of appended values.
    pub closed spec fn view(&self) -> Seq<CustomV> {
        self.vec@.map_values(|c: Custom| c@)
    }

    /// The id bound to the `APP_PROTOCOL` sentinel, if any.
    pub closed spec fn app_proto_spec(&self) -> Option<u64> {
        self.app_proto
    }

    /// The id bound to `FRAGMENTS`, if any.
    pub closed spec fn fragments_spec(&self) -> Option<u64> {
        self.fragments
    }

    /// Bind `name` to `id`, shadowing any earlier binding.
    fn alias(&mut self, name: &str, id: u64)
        ensures
            Self::names_of(final(self).fields@) == Self::names_of(old(self).fields@).push(
                (name@, id),
            ),
            final(self).vec@ == old(self).vec@,
            final(self).app_proto == old(self).app_proto,
            final(self).fragments == old(self).fragments,
    {
        self.fields.push((name.to_owned(), id));
        proof {
            assert(Self::names_of(self.fields@) =~= Self::names_of(old(self).fields@).push(
                (name@, id),
            ));
        }
    }

    /// Look an id up by field name; an absent name is an error (and
    /// disables the decoder that asked).
    pub fn get(&self, name: &str) -> (r: Result<u64, ()>)
        ensures
            match r {
                Ok(id) => self.get_spec(name@) == Some(id),
                Err(()) => self.get_spec(name@) is None,
            },
    {
        let ghost ns = Self::names_of(self.fields@);
        let owned: String = name.to_owned();
        let mut i: usize = self.fields.len();
        proof {
            assert(ns.take(ns.len() as int) =~= ns);
        }
        while i > 0
            invariant
                i <= self.fields@.len(),
                ns == Self::names_of(self.fields@),
                owned@ == name@,
                Self::lookup(ns, name@) == Self::lookup(ns.take(i as int), name@),
            decreases i,
        {
            proof {
                assert(ns.take(i as int).last() == ns[i - 1]);
                assert(ns.take(i as int).drop_last() =~= ns.take(i - 1));
            }
            if self.fields[i - 1].0 == owned {
                return Ok(self.fields[i - 1].1);
            }
            i = i - 1;
        }
        proof {
            assert(ns.take(0) =~= Seq::<(Seq<char>, u64)>::empty());
        }
        Err(())
    }

    /// Build the dictionary from the sink's binding list, installing the
    /// shared-slot aliases when the sink advertises `APP_PROTOCOL`.
    pub fn new(cs: &Vec<(String, u64)>) -> (r: Customs)
        requires
            Self::has_app_protocol(Self::names_of(cs@)) ==> {
                &&& Self::lookup(Self::names_of(cs@), "STR00"@) is Some
                &&& Self::lookup(Self::names_of(cs@), "STR01"@) is Some
                &&& Self::lookup(Self::names_of(cs@), "STR02"@) is Some
                &&& Self::lookup(Self::names_of(cs@), "STR03"@) is Some
                &&& Self::lookup(Self::names_of(cs@), "INT00"@) is Some
                &&& Self::lookup(Self::names_of(cs@), "INT01"@) is Some
                &&& Self::lookup(Self::names_of(cs@), "INT02"@) is Some
                &&& Self::lookup(Self::names_of(cs@), "INET_00"@) is Some
                &&& Self::lookup(Self::names_of(cs@), "INET_01"@) is Some
                &&& Self::lookup(Self::names_of(cs@), "INET_02"@) is Some
                &&& Self::lookup(Self::names_of(cs@), OOORDER_IN@) is Some
                &&& Self::lookup(Self::names_of(cs@), RETRANSMITTED_OUT@) is Some
            },
        ensures
            r@.len() == 0,
            forall|m: Seq<char>| #[trigger] r.get_spec(m) == Self::alias_lookup(
                Self::names_of(cs@),
                m,
            ),
            r.app_proto_spec() == Self::alias_lookup(Self::names_of(cs@), APP_PROTOCOL@),
            r.fragments_spec() == Self::alias_lookup(Self::names_of(cs@), FRAGMENTS@),
    {
        let ghost cs_v = Self::names_of(cs@);
        let mut r = Customs { app_proto: None, fragments: None, fields: Vec::new(), vec: Vec::new() };
        let mut i: usize = 0;
        while i < cs.len()
            invariant
                i <= cs@.len(),
                r.fields@ == cs@.take(i as int),
                r.vec@.len() == 0,
                r.app_proto is None,
                r.fragments is None,
            decreases cs@.len() - i,
        {
            let (name, id) = (cs[i].0.clone(), cs[i].1);
            r.fields.push((name, id));
            proof {
                assert(r.fields@ =~= cs@.take(i + 1));
            }
            i = i + 1;
        }
        proof {
            assert(r.fields@ =~= cs@);
        }

        let ap = r.get(APP_PROTOCOL);
        if let Ok(_sentinel) = ap {
            let str00 = r.get("STR00").unwrap();
            let str01 = r.get("STR01").unwrap();
            let str02 = r.get("STR02").unwrap();
            let str03 = r.get("STR03").unwrap();
            let int00 = r.get("INT00").unwrap();
            let int01 = r.get("INT01").unwrap();
            let int02 = r.get("INT02").unwrap();
            let addr00 = r.get("INET_00").unwrap();
            let addr01 = r.get("INET_01").unwrap();
            let addr02 = r.get("INET_02").unwrap();
            let ooo = r.get(OOORDER_IN).unwrap();
            let retx = r.get(RETRANSMITTED_OUT).unwrap();

            r.alias(DNS_QUERY_NAME, str00);
            r.alias(DNS_QUERY_TYPE, int00);
            r.alias(DNS_REPLY_CODE, int01);
            r.alias(DNS_REPLY_DATA, str01);

            r.alias(HTTP_URL, str00);
            r.alias(HTTP_HOST, str01);
            r.alias(HTTP_REFERER, str02);
            r.alias(HTTP_UA, str03);
            r.alias(HTTP_STATUS, int00);

            r.alias(TLS_SERVER_NAME, str00);
            r.alias(TLS_SERVER_VERSION, int00);
            r.alias(TLS_CIPHER_SUITE, int01);

            r.alias(DHCP_OP, int00);
            r.alias(DHCP_MSG_TYPE, int01);
            r.alias(DHCP_CI_ADDR, addr00);
            r.alias(DHCP_YI_ADDR, addr01);
            r.alias(DHCP_SI_ADDR, addr02);
            r.alias(DHCP_LEASE, int02);
            r.alias(DHCP_CH_ADDR, str00);
            r.alias(DHCP_HOSTNAME, str01);
            r.alias(DHCP_DOMAIN, str02);

            r.alias(RADIUS_CODE, int00);
            r.alias(RADIUS_USER_NAME, str00);
            r.alias(RADIUS_SERVICE_TYPE, int01);
            r.alias(RADIUS_FRAMED_IP_ADDR, addr00);
            r.alias(RADIUS_FRAMED_IP_MASK, addr01);
            r.alias(RADIUS_FRAMED_PROTO, str01);
            r.alias(RADIUS_ACCT_STATUS, int02);
            r.alias(RADIUS_ACCT_SESSION_ID, str02);

            r.alias(OOORDER_IN, ooo);
            r.alias(OOORDER_OUT, ooo);
            r.alias(RETRANSMITTED_IN, retx);
            r.alias(RETRANSMITTED_OUT, retx);

            proof {
                assert(Self::names_of(r.fields@) =~= cs_v + Self::alias_table(cs_v));
            }
        } else if let Ok(id) = r.get(HTTP_HOST) {
            r.alias(TLS_SERVER_NAME, id);
            proof {
                assert(Self::names_of(r.fields@) =~= cs_v.push(
                    (TLS_SERVER_NAME@, Self::slot(cs_v, HTTP_HOST@)),
                ));
            }
        }

        let app_proto = match r.get(APP_PROTOCOL) {
            Ok(id) => Some(id),
            Err(()) => None,
        };
        let fragments = match r.get(FRAGMENTS) {
            Ok(id) => Some(id),
            Err(()) => None,
        };
        r.app_proto = app_proto;
        r.fragments = fragments;
        r
    }

    /// Append a string-valued column.
    pub fn add_str(&mut self, id: u64, val: Vec<u8>)
        ensures
            final(self)@ == old(self)@.push(CustomV { id, value: ValueV::Str(val@) }),
            final(self).get_spec_unchanged(*old(self)),
    {
        let ghost v = val@;
        self.vec.push(Custom { id, value: Value::Str(val) });
        proof {
            assert(self@ =~= old(self)@.push(CustomV { id, value: ValueV::Str(v) }));
        }
    }

    /// Append an integer-valued column.
    pub fn add_u32(&mut self, id: u64, val: u32)
        ensures
            final(self)@ == old(self)@.push(CustomV { id, value: ValueV::U32(val) }),
            final(self).get_spec_unchanged(*old(self)),
    {
        self.vec.push(Custom { id, value: Value::U32(val) });
        proof {
            assert(self@ =~= old(self)@.push(CustomV { id, value: ValueV::U32(val) }));
        }
    }

    /// Append an address-valued column.
    pub fn add_addr(&mut self, id: u64, val: IpAddr)
        ensures
            final(self)@ == old(self)@.push(CustomV { id, value: ValueV::Addr(val) }),
            final(self).get_spec_unchanged(*old(self)),
    {
        self.vec.push(Custom { id, value: Value::Addr(val) });
        proof {
            assert(self@ =~= old(self)@.push(CustomV { id, value: ValueV::Addr(val) }));
        }
    }

    /// Append a latency column: the span in milliseconds, clamped to
    /// [1, 20 000].
    pub fn add_latency(&mut self, id: u64, d: Duration)
        ensures
            final(self)@ == old(self)@.push(CustomV { id, value: ValueV::U32(latency_ms(d)) }),
            final(self).get_spec_unchanged(*old(self)),
            1 <= latency_ms(d) <= 20_000,
    {
        let v: u32 = if d.ns > 20_000_000_000 {
            20_000
        } else if d.ns < 1_000_000 {
            1
        } else {
            ((d.ns as u64) / 1_000_000) as u32
        };
        self.add_u32(id, v);
    }

    /// The dictionary part is unchanged from `other`.
    pub open spec fn get_spec_unchanged(&self, other: Customs) -> bool {
        &&& forall|m: Seq<char>| #[trigger] self.get_spec(m) == other.get_spec(m)
        &&& self.app_proto_spec() == other.app_proto_spec()
        &&& self.fragments_spec() == other.fragments_spec()
    }

    /// Clear the scratch vector.
    pub fn clear(&mut self)
        ensures
            final(self)@.len() == 0,
            final(self).get_spec_unchanged(*old(self)),
    {
        self.vec.clear();
        proof {
            assert(self@ =~= Seq::<CustomV>::empty());
        }
    }

    /// The number of values appended so far.
    pub fn len(&self) -> (r: usize)
        ensures
            r == self@.len(),
    {
        self.vec.len()
    }

    /// Whether the scratch vector is empty.
    pub fn is_empty(&self) -> (r: bool)
        ensures
            r == (self@.len() == 0),
    {
        self.vec.is_empty()
    }

    /// The protocol tag a decoder reports under the `APP_PROTOCOL`
    /// discriminator column.
    pub open spec fn app_tag(d: Decoder) -> Option<u32> {
        match d {
            Decoder::DNS => Some(1u32),
            Decoder::HTTP => Some(2u32),
            Decoder::TLS => Some(3u32),
            Decoder::DHCP => Some(4u32),
            Decoder::Radius => Some(9u32),
            _ => None,
        }
    }

    /// The counter-level values of an export: the fragment total when
    /// positive, and the protocol tag, each when the sink has the
    /// column.
    pub open spec fn counter_customs(
        frag_id: Option<u64>,
        ap_id: Option<u64>,
        fragments: u64,
        d: Decoder,
    ) -> Seq<CustomV> {
        let r = Seq::<CustomV>::empty();
        let r = match frag_id {
            Some(id) => if fragments > 0 {
                r.push(CustomV { id, value: ValueV::U32(fragments as u32) })
            } else {
                r
            },
            None => r,
        };
        match (ap_id, Self::app_tag(d)) {
            (Some(id), Some(tag)) => r.push(CustomV { id, value: ValueV::U32(tag) }),
            _ => r,
        }
    }

    /// Append the counter-level columns of one export: the fragment
    /// total and the protocol tag.
    pub fn append(&mut self, fragments: u64, d: Decoder)
        ensures
            final(self)@ == old(self)@ + Self::counter_customs(
                old(self).fragments_spec(),
                old(self).app_proto_spec(),
                fragments,
                d,
            ),
            final(self).get_spec_unchanged(*old(self)),
    {
        if fragments > 0 {
            if let Some(id) = self.fragments {
                self.add_u32(id, #[verifier::truncate] (fragments as u32));
            }
        }
        if let Some(id) = self.app_proto {
            let tag: Option<u32> = match d {
                Decoder::DNS => Some(1u32),
                Decoder::HTTP => Some(2u32),
                Decoder::TLS => Some(3u32),
                Decoder::DHCP => Some(4u32),
                Decoder::Radius => Some(9u32),
                _ => None,
            };
            if let Some(t) = tag {
                self.add_u32(id, t);
            }
        }
        proof {
            assert(self@ =~= old(self)@ + Self::counter_customs(
                old(self).fragments_spec(),
                old(self).app_proto_spec(),
                fragments,
                d,
            ));
        }
    }

    /// Take the appended values, leaving the scratch vector empty.
    pub fn take_entries(&mut self) -> (r: Vec<Custom>)
        ensures
            final(self)@.len() == 0,
            final(self).get_spec_unchanged(*old(self)),
            r@.map_values(|c: Custom| c@) == old(self)@,
    {
        let mut out: Vec<Custom> = Vec::new();
        core::mem::swap(&mut out, &mut self.vec);
        proof {
            assert(self.vec@.map_values(|c: Custom| c@) =~= Seq::<CustomV>::empty());
        }
        out
    }

    /// The values appended so far.
    pub fn entries(&self) -> (r: &Vec<Custom>)
        ensures
            r@.map_values(|c: Custom| c@) == self@,
    {
        &self.vec
    }
}

} // verus!
