//! Startup configuration: what the probe is told about sampling,
//! decoding, translation, the classifier's extra ports, and the sink's
//! advertised columns.

use vstd::prelude::*;
use crate::custom::Customs;
use crate::flow::Addr;
use crate::protocol::classify::Classify;
use crate::queue::FlowQueue;
use crate::sample::Sampler;
use crate::translate::Translate;

verus! {

/// The configuration the startup path assembles: the classifier with
/// any extra ports registered, the sink's column bindings, the decode
/// switch, the sampling rate, and the translation rules.
pub struct Config {
    pub classify: Classify,
    pub customs: Vec<(String, u64)>,
    pub decode: bool,
    pub sample: Option<u64>,
    pub translate: Option<Vec<(Addr, Addr)>>,
}

impl Config {
    /// The flow queue this configuration describes.
    pub fn queue(self) -> (r: FlowQueue)
        requires
            Customs::has_app_protocol(Customs::names_of(self.customs@)) ==> {
                &&& Customs::lookup(Customs::names_of(self.customs@), "STR00"@) is Some
                &&& Customs::lookup(Customs::names_of(self.customs@), "STR01"@) is Some
                &&& Customs::lookup(Customs::names_of(self.customs@), "STR02"@) is Some
                &&& Customs::lookup(Customs::names_of(self.customs@), "STR03"@) is Some
                &&& Customs::lookup(Customs::names_of(self.customs@), "INT00"@) is Some
                &&& Customs::lookup(Customs::names_of(self.customs@), "INT01"@) is Some
                &&& Customs::lookup(Customs::names_of(self.customs@), "INT02"@) is Some
                &&& Customs::lookup(Customs::names_of(self.customs@), "INET_00"@) is Some
                &&& Customs::lookup(Customs::names_of(self.customs@), "INET_01"@) is Some
                &&& Customs::lookup(Customs::names_of(self.customs@), "INET_02"@) is Some
                &&& Customs::lookup(
                    Customs::names_of(self.customs@),
                    crate::custom::OOORDER_IN@,
                ) is Some
                &&& Customs::lookup(
                    Customs::names_of(self.customs@),
                    crate::custom::RETRANSMITTED_OUT@,
                ) is Some
            },
        ensures
            r.wf(),
            r.scratch_len() == 0,
    {
        let customs = Customs::new(&self.customs);
        FlowQueue::new(self.sample, customs, self.classify, self.decode)
    }

    /// The sampler: none here — admission control is delegated to the
    /// capture layer unless a rate is wired in explicitly.
    pub fn sampler(&self) -> (r: Option<Sampler>) {
        match self.sample {
            Some(n) => Some(Sampler::new(n)),
            None => None,
        }
    }

    /// The translator, when rewrite rules were configured.
    pub fn translate(&mut self) -> (r: Option<Translate>)
        ensures
            r matches Some(t) ==> t.wf(),
    {
        let mut taken: Option<Vec<(Addr, Addr)>> = None;
        core::mem::swap(&mut taken, &mut self.translate);
        match taken {
            Some(specs) => Some(Translate::new(specs)),
            None => None,
        }
    }
}

} // verus!
