//! Address translation: optional 1:1 endpoint rewrites from a
//! configured list.

use vstd::prelude::*;
use crate::flow::{Addr, Flow};
use crate::table::Table;

verus! {

/// The rewrite map.
pub struct Translate {
    map: Table<Addr, Addr>,
}

impl Translate {
    /// The configured rewrites.
    pub closed spec fn view(&self) -> Map<Addr, Addr> {
        self.map@
    }

    /// Well-formed.
    pub closed spec fn wf(&self) -> bool {
        self.map.wf()
    }

    /// A translator from a list of (from, to) rewrites; a repeated
    /// source keeps its last rewrite.
    pub fn new(specs: Vec<(Addr, Addr)>) -> (r: Translate)
        ensures
            r.wf(),
    {
        let mut map = Table::new();
        let mut i: usize = 0;
        while i < specs.len()
            invariant
                i <= specs@.len(),
                map.wf(),
            decreases specs@.len() - i,
        {
            let (from, to) = specs[i];
            map.insert(from, to);
            i = i + 1;
        }
        Translate { map }
    }

    /// Rewrite a flow's endpoints wherever the map binds them.
    pub fn translate(&self, flow: &mut Flow)
        requires
            self.wf(),
        ensures
            final(flow).src == (if self@.contains_key(old(flow).src) {
                self@[old(flow).src]
            } else {
                old(flow).src
            }),
            final(flow).dst == (if self@.contains_key(old(flow).dst) {
                self@[old(flow).dst]
            } else {
                old(flow).dst
            }),
            final(flow).timestamp == old(flow).timestamp,
            final(flow).ethernet == old(flow).ethernet,
            final(flow).protocol == old(flow).protocol,
            final(flow).tos == old(flow).tos,
            final(flow).transport == old(flow).transport,
            final(flow).packets == old(flow).packets,
            final(flow).fragments == old(flow).fragments,
            final(flow).bytes == old(flow).bytes,
            final(flow).direction == old(flow).direction,
            final(flow).export == old(flow).export,
            final(flow).payload == old(flow).payload,
    {
        if let Some(to) = self.map.get(&flow.src) {
            flow.src = *to;
        }
        if let Some(to) = self.map.get(&flow.dst) {
            flow.dst = *to;
        }
    }
}

} // verus!
