//! The Postgres decoder, kept as a reference state machine: it frames
//! frontend and backend message streams and correlates simple and
//! extended-protocol commands into completed queries with durations.
//! It is not wired into the export path.

use vstd::prelude::*;
use crate::protocol::buf::Buffer;
use crate::time::{Duration, Timestamp};
use crate::wire::{be32, read_be32, sub_vec};

verus! {

/// The bindings of statement or portal names, as mathematics sees
/// them; the last binding wins.
pub type NamesV = Seq<(Seq<u8>, Seq<u8>)>;

/// The view of a name-binding vector.
pub open spec fn names_view(v: Seq<(Vec<u8>, Vec<u8>)>) -> NamesV {
    v.map_values(|p: (Vec<u8>, Vec<u8>)| (p.0@, p.1@))
}

/// The bindings of every name but `n`.
pub open spec fn without(s: NamesV, n: Seq<u8>) -> NamesV
    decreases s.len(),
{
    if s.len() == 0 {
        Seq::empty()
    } else if s.last().0 == n {
        without(s.drop_last(), n)
    } else {
        without(s.drop_last(), n).push(s.last())
    }
}

/// The value bound to a name, the last binding winning.
pub open spec fn assoc(s: NamesV, n: Seq<u8>) -> Option<Seq<u8>>
    decreases s.len(),
{
    if s.len() == 0 {
        None
    } else if s.last().0 == n {
        Some(s.last().1)
    } else {
        assoc(s.drop_last(), n)
    }
}

fn get_assoc(v: &Vec<(Vec<u8>, Vec<u8>)>, n: &[u8]) -> (r: Option<Vec<u8>>)
    ensures
        match r {
            Some(val) => assoc(names_view(v@), n@) == Some(val@),
            None => assoc(names_view(v@), n@) is None,
        },
{
    let ghost ns = names_view(v@);
    let mut i: usize = v.len();
    proof {
        assert(ns.take(ns.len() as int) =~= ns);
    }
    while i > 0
        invariant
            i <= v@.len(),
            ns == names_view(v@),
            assoc(ns, n@) == assoc(ns.take(i as int), n@),
        decreases i,
    {
        proof {
            assert(ns.take(i as int).last() == ns[i - 1]);
            assert(ns.take(i as int).drop_last() =~= ns.take(i - 1));
        }
        if crate::wire::bytes_eq(v[i - 1].0.as_slice(), n) {
            let found = &v[i - 1].1;
            return Some(sub_vec(found.as_slice(), 0, found.len()));
        }
        i = i - 1;
    }
    proof {
        assert(ns.take(0) =~= Seq::<(Seq<u8>, Seq<u8>)>::empty());
    }
    None
}

fn push_assoc(v: &mut Vec<(Vec<u8>, Vec<u8>)>, n: Vec<u8>, val: Vec<u8>)
    ensures
        names_view(final(v)@) == names_view(old(v)@).push((n@, val@)),
{
    let ghost nv = n@;
    let ghost vv = val@;
    v.push((n, val));
    proof {
        assert(names_view(v@) =~= names_view(old(v)@).push((nv, vv)));
    }
}

fn del_assoc(v: &mut Vec<(Vec<u8>, Vec<u8>)>, n: &[u8])
    ensures
        names_view(final(v)@) == without(names_view(old(v)@), n@),
{
    let mut kept: Vec<(Vec<u8>, Vec<u8>)> = Vec::new();
    let mut i: usize = 0;
    proof {
        assert(names_view(v@).take(0) =~= Seq::<(Seq<u8>, Seq<u8>)>::empty());
        assert(names_view(kept@) =~= without(names_view(v@).take(0), n@));
    }
    while i < v.len()
        invariant
            i <= v@.len(),
            names_view(kept@) == without(names_view(v@).take(i as int), n@),
        decreases v@.len() - i,
    {
        let keep = !crate::wire::bytes_eq(v[i].0.as_slice(), n);
        proof {
            assert(names_view(v@).take(i + 1).drop_last() =~= names_view(v@).take(i as int));
            assert(names_view(v@).take(i + 1).last() == names_view(v@)[i as int]);
        }
        let ghost kept0 = names_view(kept@);
        if keep {
            let name = sub_vec(v[i].0.as_slice(), 0, v[i].0.len());
            let val = sub_vec(v[i].1.as_slice(), 0, v[i].1.len());
            proof {
                assert(name@ =~= v@[i as int].0@);
                assert(val@ =~= v@[i as int].1@);
            }
            kept.push((name, val));
            proof {
                assert(names_view(kept@) =~= kept0.push(names_view(v@)[i as int]));
            }
        }
        proof {
            assert(names_view(kept@) =~= without(names_view(v@).take(i + 1), n@));
        }
        i = i + 1;
    }
    proof {
        assert(names_view(v@).take(v@.len() as int) =~= names_view(v@));
    }
    *v = kept;
}

/// One framed message: its tag, and its body bytes.
pub struct Frame {
    pub tag: u8,
    pub body: Vec<u8>,
}

/// The mathematical value of a frame.
pub struct FrameV {
    pub tag: u8,
    pub body: Seq<u8>,
}

impl View for Frame {
    type V = FrameV;

    open spec fn view(&self) -> FrameV {
        FrameV { tag: self.tag, body: self.body@ }
    }
}

/// One framing step at `pos`: the frame and the next position; `None`
/// for an incomplete or malformed frame.
pub open spec fn frame_at(s: Seq<u8>, pos: int) -> Option<(FrameV, int)> {
    if pos < 0 || pos + 5 > s.len() {
        None
    } else {
        let len = be32(s, pos + 1) as int;
        if len < 4 || pos + 1 + len > s.len() {
            None
        } else {
            Some((FrameV { tag: s[pos], body: s.subrange(pos + 5, pos + 1 + len) }, pos + 1 + len))
        }
    }
}

fn frame_at_exec(b: &[u8], pos: usize) -> (r: Option<(Frame, usize)>)
    requires
        pos <= b@.len(),
    ensures
        match r {
            Some((f, next)) => frame_at(b@, pos as int) == Some((f@, next as int)) && next
                <= b@.len() && next > pos,
            None => frame_at(b@, pos as int) is None,
        },
{
    if b.len() - pos < 5 {
        return None;
    }
    let len = read_be32(b, pos + 1) as usize;
    if len < 4 || len > b.len() || pos + 1 > b.len() - len {
        return None;
    }
    Some((Frame { tag: b[pos], body: sub_vec(b, pos + 5, pos + 1 + len) }, pos + 1 + len))
}

/// The zero-terminated text at the start of a body, and the position
/// after its terminator.
pub open spec fn cstr_at(s: Seq<u8>, pos: int) -> Option<(Seq<u8>, int)>
    decreases s.len() - pos,
{
    if pos < 0 || pos >= s.len() {
        None
    } else if s[pos] == 0 {
        Some((Seq::empty(), pos + 1))
    } else {
        match cstr_at(s, pos + 1) {
            Some((rest, end)) => Some((seq![s[pos]] + rest, end)),
            None => None,
        }
    }
}

fn cstr_at_exec(b: &[u8], pos: usize) -> (r: Option<(Vec<u8>, usize)>)
    ensures
        match r {
            Some((t, end)) => cstr_at(b@, pos as int) == Some((t@, end as int)) && end <= b@.len(),
            None => cstr_at(b@, pos as int) is None,
        },
    decreases b@.len() - pos,
{
    if pos >= b.len() {
        None
    } else if b[pos] == 0 {
        Some((Vec::new(), pos + 1))
    } else {
        match cstr_at_exec(b, pos + 1) {
            Some((rest, end)) => {
                let mut t: Vec<u8> = Vec::new();
                t.push(b[pos]);
                crate::wire::extend_bytes(&mut t, rest.as_slice());
                proof {
                    assert(t@ =~= seq![b@[pos as int]] + rest@);
                }
                Some((t, end))
            },
            None => None,
        }
    }
}

/// A command in flight, awaiting its backend outcome.
pub enum Command {
    /// A simple query and when it started.
    Query { query: Vec<u8>, start: Timestamp },
    /// A statement being parsed.
    Parse { statement: Vec<u8>, query: Vec<u8> },
    /// A portal being bound to a statement.
    Bind { portal: Vec<u8>, statement: Vec<u8> },
    /// A portal being executed and when it started.
    Execute { portal: Vec<u8>, start: Timestamp },
}

/// Whether a command's held timestamp is in range.
pub open spec fn cmd_wf(c: Command) -> bool {
    match c {
        Command::Query { start, .. } => start.wf(),
        Command::Execute { start, .. } => start.wf(),
        _ => true,
    }
}

/// The mathematical value of an in-flight command.
pub enum CommandV {
    Query { query: Seq<u8>, start: Timestamp },
    Parse { statement: Seq<u8>, query: Seq<u8> },
    Bind { portal: Seq<u8>, statement: Seq<u8> },
    Execute { portal: Seq<u8>, start: Timestamp },
}

impl View for Command {
    type V = CommandV;

    open spec fn view(&self) -> CommandV {
        match self {
            Command::Query { query, start } => CommandV::Query { query: query@, start: *start },
            Command::Parse { statement, query } => CommandV::Parse {
                statement: statement@,
                query: query@,
            },
            Command::Bind { portal, statement } => CommandV::Bind {
                portal: portal@,
                statement: statement@,
            },
            Command::Execute { portal, start } => CommandV::Execute {
                portal: portal@,
                start: *start,
            },
        }
    }
}

/// A completed statement with its duration.
#[derive(Clone, Debug)]
pub struct CompletedQuery {
    pub query: Vec<u8>,
    pub duration: Duration,
}

/// The mathematical value of a completed statement.
pub struct QueryV {
    pub query: Seq<u8>,
    pub duration: Duration,
}

impl View for CompletedQuery {
    type V = QueryV;

    open spec fn view(&self) -> QueryV {
        QueryV { query: self.query@, duration: self.duration }
    }
}

/// The view of a vector of completed statements.
pub open spec fn queries_view(v: Seq<CompletedQuery>) -> Seq<QueryV> {
    v.map_values(|q: CompletedQuery| q@)
}

/// What one frontend frame does to the command FIFO and the name
/// tables: queries, parses, binds and executes are queued, and a close
/// drops a statement's or a portal's binding.
pub open spec fn fe_frame_spec(
    exec0: Seq<CommandV>,
    stmts0: NamesV,
    ports0: NamesV,
    ts: Timestamp,
    f: FrameV,
) -> (Seq<CommandV>, NamesV, NamesV) {
    let b = f.body;
    if f.tag == 81 {
        match cstr_at(b, 0) {
            Some(q) => (exec0.push(CommandV::Query { query: q.0, start: ts }), stmts0, ports0),
            None => (exec0, stmts0, ports0),
        }
    } else if f.tag == 80 {
        match cstr_at(b, 0) {
            Some(st) => match cstr_at(b, st.1) {
                Some(q) => (
                    exec0.push(CommandV::Parse { statement: st.0, query: q.0 }),
                    stmts0,
                    ports0,
                ),
                None => (exec0, stmts0, ports0),
            },
            None => (exec0, stmts0, ports0),
        }
    } else if f.tag == 66 {
        match cstr_at(b, 0) {
            Some(p) => match cstr_at(b, p.1) {
                Some(st) => (
                    exec0.push(CommandV::Bind { portal: p.0, statement: st.0 }),
                    stmts0,
                    ports0,
                ),
                None => (exec0, stmts0, ports0),
            },
            None => (exec0, stmts0, ports0),
        }
    } else if f.tag == 69 {
        match cstr_at(b, 0) {
            Some(p) => (exec0.push(CommandV::Execute { portal: p.0, start: ts }), stmts0, ports0),
            None => (exec0, stmts0, ports0),
        }
    } else if f.tag == 67 && b.len() >= 1 {
        match cstr_at(b, 1) {
            Some(n) => {
                if b[0] == 83 {
                    (exec0, without(stmts0, n.0), ports0)
                } else if b[0] == 80 {
                    (exec0, stmts0, without(ports0, n.0))
                } else {
                    (exec0, stmts0, ports0)
                }
            },
            None => (exec0, stmts0, ports0),
        }
    } else {
        (exec0, stmts0, ports0)
    }
}

/// What one backend frame does: an outcome tag pops the oldest command
/// and may complete a statement, bind a name, or drop the command on an
/// error; a command completion leaves a simple query for its
/// ready-for-query.
pub open spec fn be_frame_spec(
    exec0: Seq<CommandV>,
    stmts0: NamesV,
    ports0: NamesV,
    ts: Timestamp,
    tag: u8,
) -> (Seq<CommandV>, NamesV, NamesV, Seq<QueryV>) {
    let relevant = tag == 90 || tag == 49 || tag == 50 || tag == 67 || tag == 73 || tag == 69;
    if !relevant || exec0.len() == 0 {
        (exec0, stmts0, ports0, Seq::empty())
    } else {
        let rest = exec0.drop_first();
        match exec0[0] {
            CommandV::Query { query, start } => {
                if tag == 90 {
                    (
                        rest,
                        stmts0,
                        ports0,
                        seq![
                            QueryV {
                                query,
                                duration: Duration { ns: (ts.nanos() - start.nanos()) as i64 },
                            },
                        ],
                    )
                } else if tag == 67 {
                    (exec0, stmts0, ports0, Seq::empty())
                } else {
                    (rest, stmts0, ports0, Seq::empty())
                }
            },
            CommandV::Parse { statement, query } => {
                if tag == 49 {
                    (rest, stmts0.push((statement, query)), ports0, Seq::empty())
                } else {
                    (rest, stmts0, ports0, Seq::empty())
                }
            },
            CommandV::Bind { portal, statement } => {
                if tag == 50 {
                    (rest, stmts0, ports0.push((portal, statement)), Seq::empty())
                } else {
                    (rest, stmts0, ports0, Seq::empty())
                }
            },
            CommandV::Execute { portal, start } => {
                if tag == 67 || tag == 73 {
                    match assoc(ports0, portal) {
                        Some(stmt) => match assoc(stmts0, stmt) {
                            Some(q) => (
                                rest,
                                stmts0,
                                ports0,
                                seq![
                                    QueryV {
                                        query: q,
                                        duration: Duration {
                                            ns: (ts.nanos() - start.nanos()) as i64,
                                        },
                                    },
                                ],
                            ),
                            None => (rest, stmts0, ports0, Seq::empty()),
                        },
                        None => (rest, stmts0, ports0, Seq::empty()),
                    }
                } else {
                    (rest, stmts0, ports0, Seq::empty())
                }
            },
        }
    }
}

/// The walk over joined frontend bytes: whole frames are applied in
/// order; the position after the last whole frame and the state then
/// are returned.
pub open spec fn fe_run(
    s: Seq<u8>,
    pos: int,
    exec0: Seq<CommandV>,
    stmts0: NamesV,
    ports0: NamesV,
    ts: Timestamp,
) -> (int, Seq<CommandV>, NamesV, NamesV)
    decreases s.len() - pos,
{
    match frame_at(s, pos) {
        Some(f) => {
            if pos < f.1 <= s.len() {
                let st1 = fe_frame_spec(exec0, stmts0, ports0, ts, f.0);
                fe_run(s, f.1, st1.0, st1.1, st1.2, ts)
            } else {
                (pos, exec0, stmts0, ports0)
            }
        },
        None => (pos, exec0, stmts0, ports0),
    }
}

/// The walk over joined backend bytes, with the completed statements of
/// every applied frame in order.
pub open spec fn be_run(
    s: Seq<u8>,
    pos: int,
    exec0: Seq<CommandV>,
    stmts0: NamesV,
    ports0: NamesV,
    ts: Timestamp,
) -> (int, Seq<CommandV>, NamesV, NamesV, Seq<QueryV>)
    decreases s.len() - pos,
{
    match frame_at(s, pos) {
        Some(f) => {
            if pos < f.1 <= s.len() {
                let st1 = be_frame_spec(exec0, stmts0, ports0, ts, f.0.tag);
                let r = be_run(s, f.1, st1.0, st1.1, st1.2, ts);
                (r.0, r.1, r.2, r.3, st1.3 + r.4)
            } else {
                (pos, exec0, stmts0, ports0, Seq::empty())
            }
        },
        None => (pos, exec0, stmts0, ports0, Seq::empty()),
    }
}

/// One tracked connection: the two direction buffers, the named
/// statements and portals, and the FIFO of in-flight commands.
pub struct Connection {
    buffer_fe: Buffer,
    buffer_be: Buffer,
    statements: Vec<(Vec<u8>, Vec<u8>)>,
    portals: Vec<(Vec<u8>, Vec<u8>)>,
    executing: Vec<Command>,
}

impl Connection {
    /// Well-formed: every in-flight command's timestamp is in range.
    pub closed spec fn wf(&self) -> bool {
        forall|i: int| 0 <= i < self.executing@.len() ==> cmd_wf(#[trigger] self.executing@[i])
    }

    /// The in-flight commands, oldest first.
    pub closed spec fn executing_spec(&self) -> Seq<CommandV> {
        self.executing@.map_values(|c: Command| c@)
    }

    /// The named statements.
    pub closed spec fn statements_spec(&self) -> NamesV {
        names_view(self.statements@)
    }

    /// The named portals.
    pub closed spec fn portals_spec(&self) -> NamesV {
        names_view(self.portals@)
    }

    /// The unconsumed frontend bytes.
    pub closed spec fn fe_buffered(&self) -> Seq<u8> {
        self.buffer_fe@
    }

    /// The unconsumed backend bytes.
    pub closed spec fn be_buffered(&self) -> Seq<u8> {
        self.buffer_be@
    }

    /// A fresh connection.
    pub fn new() -> (r: Connection)
        ensures
            r.wf(),
            r.executing_spec().len() == 0,
            r.statements_spec().len() == 0,
            r.portals_spec().len() == 0,
            r.fe_buffered().len() == 0,
            r.be_buffered().len() == 0,
    {
        Connection {
            buffer_fe: Buffer::new(),
            buffer_be: Buffer::new(),
            statements: Vec::new(),
            portals: Vec::new(),
            executing: Vec::new(),
        }
    }

    /// Feed frontend bytes: queue simple queries, parses, binds and
    /// executes, and close statements or portals. Whole frames are
    /// consumed; a partial frame is kept for the next feed.
    pub fn frontend_msg(&mut self, ts: Timestamp, payload: &[u8])
        requires
            old(self).wf(),
            ts.wf(),
        ensures
            final(self).wf(),
            ({
                let joined = old(self).fe_buffered() + payload@;
                let r = fe_run(
                    joined,
                    0,
                    old(self).executing_spec(),
                    old(self).statements_spec(),
                    old(self).portals_spec(),
                    ts,
                );
                &&& final(self).executing_spec() == r.1
                &&& final(self).statements_spec() == r.2
                &&& final(self).portals_spec() == r.3
                &&& final(self).fe_buffered() == joined.subrange(r.0, joined.len() as int)
                &&& final(self).be_buffered() == old(self).be_buffered()
            }),
    {
        let ghost e0 = self.executing@.map_values(|c: Command| c@);
        let ghost s0 = names_view(self.statements@);
        let ghost p0 = names_view(self.portals@);
        let mut buf = self.buffer_fe.buf(payload);
        let ghost joined = buf@;
        let mut pos: usize = 0;
        loop
            invariant
                self.wf(),
                ts.wf(),
                pos <= buf@.len(),
                buf@ == joined,
                self.be_buffered() == old(self).be_buffered(),
                fe_run(joined, 0, e0, s0, p0, ts) == fe_run(
                    joined,
                    pos as int,
                    self.executing_spec(),
                    self.statements_spec(),
                    self.portals_spec(),
                    ts,
                ),
            ensures
                self.wf(),
                pos <= buf@.len(),
                buf@ == joined,
                self.be_buffered() == old(self).be_buffered(),
                fe_run(joined, 0, e0, s0, p0, ts) == (
                    pos as int,
                    self.executing_spec(),
                    self.statements_spec(),
                    self.portals_spec(),
                ),
            decreases buf@.len() - pos,
        {
            let stepped = frame_at_exec(buf.bytes().as_slice(), pos);
            match stepped {
                Some((frame, next)) => {
                    self.frontend_frame(ts, &frame);
                    pos = next;
                },
                None => {
                    break;
                },
            }
        }
        let keep = buf.bytes().len() - pos;
        buf.keep(keep);
        self.buffer_fe.put_back(buf);
        proof {
            assert(self.fe_buffered() =~= joined.subrange(
                fe_run(joined, 0, e0, s0, p0, ts).0,
                joined.len() as int,
            ));
        }
    }

    fn frontend_frame(&mut self, ts: Timestamp, frame: &Frame)
        requires
            old(self).wf(),
            ts.wf(),
        ensures
            final(self).wf(),
            ({
                let st1 = fe_frame_spec(
                    old(self).executing_spec(),
                    old(self).statements_spec(),
                    old(self).portals_spec(),
                    ts,
                    frame@,
                );
                &&& final(self).executing_spec() == st1.0
                &&& final(self).statements_spec() == st1.1
                &&& final(self).portals_spec() == st1.2
            }),
            final(self).fe_buffered() == old(self).fe_buffered(),
            final(self).be_buffered() == old(self).be_buffered(),
    {
        let ghost e0 = self.executing@.map_values(|c: Command| c@);
        let b = frame.body.as_slice();
        if frame.tag == 81 {
            // 'Q': a simple query
            if let Some((query, _end)) = cstr_at_exec(b, 0) {
                let ghost qv = query@;
                self.executing.push(Command::Query { query, start: ts });
                proof {
                    assert(self.executing@.map_values(|c: Command| c@) =~= e0.push(
                        CommandV::Query { query: qv, start: ts },
                    ));
                }
            }
        } else if frame.tag == 80 {
            // 'P': parse a named statement
            if let Some((statement, p)) = cstr_at_exec(b, 0) {
                if let Some((query, _end)) = cstr_at_exec(b, p) {
                    let ghost sv = statement@;
                    let ghost qv = query@;
                    self.executing.push(Command::Parse { statement, query });
                    proof {
                        assert(self.executing@.map_values(|c: Command| c@) =~= e0.push(
                            CommandV::Parse { statement: sv, query: qv },
                        ));
                    }
                }
            }
        } else if frame.tag == 66 {
            // 'B': bind a portal to a statement
            if let Some((portal, p)) = cstr_at_exec(b, 0) {
                if let Some((statement, _end)) = cstr_at_exec(b, p) {
                    let ghost pv = portal@;
                    let ghost sv = statement@;
                    self.executing.push(Command::Bind { portal, statement });
                    proof {
                        assert(self.executing@.map_values(|c: Command| c@) =~= e0.push(
                            CommandV::Bind { portal: pv, statement: sv },
                        ));
                    }
                }
            }
        } else if frame.tag == 69 {
            // 'E': execute a portal
            if let Some((portal, _end)) = cstr_at_exec(b, 0) {
                let ghost pv = portal@;
                self.executing.push(Command::Execute { portal, start: ts });
                proof {
                    assert(self.executing@.map_values(|c: Command| c@) =~= e0.push(
                        CommandV::Execute { portal: pv, start: ts },
                    ));
                }
            }
        } else if frame.tag == 67 {
            // 'C': close a statement ('S') or portal ('P')
            if frame.body.len() >= 1 {
                if let Some((name, _end)) = cstr_at_exec(b, 1) {
                    if b[0] == 83 {
                        del_assoc(&mut self.statements, name.as_slice());
                    } else if b[0] == 80 {
                        del_assoc(&mut self.portals, name.as_slice());
                    }
                }
            }
        }
        // Sync, Flush, Terminate and unknown tags queue nothing.
    }

    /// Feed backend bytes: outcomes pop the oldest in-flight command —
    /// a ready-for-query completes a simple query, parse and bind
    /// completions bind names, command completions finish executions
    /// through the portal and statement tables, and an error drops the
    /// command. Completed statements come back with their durations.
    pub fn backend_msg(&mut self, ts: Timestamp, payload: &[u8]) -> (r: Vec<CompletedQuery>)
        requires
            old(self).wf(),
            ts.wf(),
        ensures
            final(self).wf(),
            ({
                let joined = old(self).be_buffered() + payload@;
                let run = be_run(
                    joined,
                    0,
                    old(self).executing_spec(),
                    old(self).statements_spec(),
                    old(self).portals_spec(),
                    ts,
                );
                &&& final(self).executing_spec() == run.1
                &&& final(self).statements_spec() == run.2
                &&& final(self).portals_spec() == run.3
                &&& queries_view(r@) == run.4
                &&& final(self).be_buffered() == joined.subrange(run.0, joined.len() as int)
                &&& final(self).fe_buffered() == old(self).fe_buffered()
            }),
    {
        let ghost e0 = self.executing@.map_values(|c: Command| c@);
        let ghost s0 = names_view(self.statements@);
        let ghost p0 = names_view(self.portals@);
        let mut done: Vec<CompletedQuery> = Vec::new();
        let mut buf = self.buffer_be.buf(payload);
        let ghost joined = buf@;
        let mut pos: usize = 0;
        proof {
            assert(queries_view(done@) =~= Seq::<QueryV>::empty());
        }
        loop
            invariant
                self.wf(),
                ts.wf(),
                pos <= buf@.len(),
                buf@ == joined,
                self.fe_buffered() == old(self).fe_buffered(),
                ({
                    let full = be_run(joined, 0, e0, s0, p0, ts);
                    let rem = be_run(
                        joined,
                        pos as int,
                        self.executing_spec(),
                        self.statements_spec(),
                        self.portals_spec(),
                        ts,
                    );
                    &&& full.0 == rem.0
                    &&& full.1 == rem.1
                    &&& full.2 == rem.2
                    &&& full.3 == rem.3
                    &&& full.4 == queries_view(done@) + rem.4
                }),
            ensures
                self.wf(),
                pos <= buf@.len(),
                buf@ == joined,
                self.fe_buffered() == old(self).fe_buffered(),
                be_run(joined, 0, e0, s0, p0, ts) == (
                    pos as int,
                    self.executing_spec(),
                    self.statements_spec(),
                    self.portals_spec(),
                    queries_view(done@),
                ),
            decreases buf@.len() - pos,
        {
            let stepped = frame_at_exec(buf.bytes().as_slice(), pos);
            match stepped {
                Some((frame, next)) => {
                    let ghost d_in = queries_view(done@);
                    let ghost st1 = be_frame_spec(
                        self.executing_spec(),
                        self.statements_spec(),
                        self.portals_spec(),
                        ts,
                        frame@.tag,
                    );
                    self.backend_frame(ts, frame.tag, &mut done);
                    proof {
                        let rem2 = be_run(
                            joined,
                            next as int,
                            self.executing_spec(),
                            self.statements_spec(),
                            self.portals_spec(),
                            ts,
                        );
                        assert(queries_view(done@) == d_in + st1.3);
                        assert((d_in + st1.3) + rem2.4 =~= d_in + (st1.3 + rem2.4));
                    }
                    pos = next;
                },
                None => {
                    proof {
                        let rem = be_run(
                            joined,
                            pos as int,
                            self.executing_spec(),
                            self.statements_spec(),
                            self.portals_spec(),
                            ts,
                        );
                        assert(queries_view(done@) + rem.4 =~= queries_view(done@));
                    }
                    break;
                },
            }
        }
        let keep = buf.bytes().len() - pos;
        buf.keep(keep);
        self.buffer_be.put_back(buf);
        proof {
            assert(self.be_buffered() =~= joined.subrange(
                be_run(joined, 0, e0, s0, p0, ts).0,
                joined.len() as int,
            ));
        }
        done
    }

    fn backend_frame(&mut self, ts: Timestamp, tag: u8, done: &mut Vec<CompletedQuery>)
        requires
            old(self).wf(),
            ts.wf(),
        ensures
            final(self).wf(),
            ({
                let st1 = be_frame_spec(
                    old(self).executing_spec(),
                    old(self).statements_spec(),
                    old(self).portals_spec(),
                    ts,
                    tag,
                );
                &&& final(self).executing_spec() == st1.0
                &&& final(self).statements_spec() == st1.1
                &&& final(self).portals_spec() == st1.2
                &&& queries_view(final(done)@) == queries_view(old(done)@) + st1.3
            }),
            final(self).fe_buffered() == old(self).fe_buffered(),
            final(self).be_buffered() == old(self).be_buffered(),
    {
        let ghost e0 = self.executing@.map_values(|c: Command| c@);
        let ghost d0 = done@.map_values(|q: CompletedQuery| q@);
        // 'Z' ready-for-query, '1' parse complete, '2' bind complete,
        // 'C' command complete, 'I' empty query, 'E' error
        let relevant = tag == 90 || tag == 49 || tag == 50 || tag == 67 || tag == 73 || tag == 69;
        if !relevant {
            proof {
                assert(queries_view(done@) =~= d0 + Seq::<QueryV>::empty());
            }
            return;
        }
        if self.executing.len() == 0 {
            proof {
                assert(queries_view(done@) =~= d0 + Seq::<QueryV>::empty());
            }
            return;
        }
        proof {
            assert(cmd_wf(#[trigger] self.executing@[0]));
        }
        let cmd = self.executing.remove(0);
        proof {
            assert(self.executing@.map_values(|c: Command| c@) =~= e0.drop_first());
        }
        match cmd {
            Command::Query { query, start } => {
                if tag == 90 {
                    let duration = ts.minus(start);
                    let ghost qv = query@;
                    done.push(CompletedQuery { query, duration });
                    proof {
                        assert(queries_view(done@) =~= d0 + seq![
                            QueryV { query: qv, duration },
                        ]);
                    }
                } else if tag == 67 {
                    // still running: the ready-for-query completes it
                    self.executing.insert(0, Command::Query { query, start });
                    proof {
                        assert(self.executing@.map_values(|c: Command| c@) =~= e0);
                        assert(queries_view(done@) =~= d0 + Seq::<QueryV>::empty());
                    }
                } else {
                    proof {
                        assert(queries_view(done@) =~= d0 + Seq::<QueryV>::empty());
                    }
                }
                // an error drops the command
            },
            Command::Parse { statement, query } => {
                if tag == 49 {
                    push_assoc(&mut self.statements, statement, query);
                }
                proof {
                    assert(queries_view(done@) =~= d0 + Seq::<QueryV>::empty());
                }
            },
            Command::Bind { portal, statement } => {
                if tag == 50 {
                    push_assoc(&mut self.portals, portal, statement);
                }
                proof {
                    assert(queries_view(done@) =~= d0 + Seq::<QueryV>::empty());
                }
            },
            Command::Execute { portal, start } => {
                let mut finished = false;
                if tag == 67 || tag == 73 {
                    if let Some(stmt) = get_assoc(&self.portals, portal.as_slice()) {
                        if let Some(q) = get_assoc(&self.statements, stmt.as_slice()) {
                            let duration = ts.minus(start);
                            let ghost qv = q@;
                            done.push(CompletedQuery { query: q, duration });
                            finished = true;
                            proof {
                                assert(queries_view(done@) =~= d0 + seq![
                                    QueryV { query: qv, duration },
                                ]);
                            }
                        }
                    }
                }
                proof {
                    if !finished {
                        assert(queries_view(done@) =~= d0 + Seq::<QueryV>::empty());
                    }
                }
            },
        }
    }
}

} // verus!
