//! A connection: cutting what arrives into commands, finding who answers to them,
//! and framing the answers.

use vstd::hash_set::StringHashSet;
use vstd::prelude::*;
use vstd::slice::slice_to_vec;
use vstd::string::*;

#[allow(unused_imports)]
use crate::handlers::futurex::FuturexModule;
use crate::handlers::registry::{Registered, Registry};
#[allow(unused_imports)]
use crate::handlers::thales::ThalesModule;
use crate::handlers::{Handler, HandlerResult};
#[allow(unused_imports)]
use crate::protocol::futurex;
use crate::protocol::futurex::{parse_params, Params};
use crate::protocol::{CommandView, ParsedCommand, Protocol};
#[allow(unused_imports)]
use crate::text;
use crate::text::{lossy, owned, same_text};
#[allow(unused_imports)]
use crate::vendor::VendorModule;

verus! {

// ── what arrives ─────────────────────────────────────────────────────────────

/// How many bytes a connection may have pending without a whole command among
/// them. A payShield frame has at most 65537 bytes, a Futurex frame far fewer.
pub const MAX_INBOUND_ACCUMULATION: usize = 256 * 1024;

/// A command with the bytes it came in.
pub struct Inbound<C = ParsedCommand, F = Vec<u8>> {
    pub command: C,
    pub frame: F,
}

/// A command with its bytes, as contracts speak of it.
pub type InboundView = Inbound<CommandView, Seq<u8>>;

impl View for Inbound<ParsedCommand, Vec<u8>> {
    type V = InboundView;

    open spec fn view(&self) -> InboundView {
        Inbound { command: self.command@, frame: self.frame@ }
    }
}

/// Commands as contracts speak of them.
pub open spec fn inbound_views(list: Seq<Inbound>) -> Seq<InboundView> {
    list.map_values(|i: Inbound| i@)
}

/// The commands at the start of `buf`.
pub open spec fn commands<P: Protocol>(protocol: P, buf: Seq<u8>) -> Seq<InboundView>
    decreases buf.len(),
{
    match protocol.parsed(buf) {
        Some(c) if 0 < c.frame_len <= buf.len() => seq![
            Inbound { command: c, frame: buf.take(c.frame_len) },
        ] + commands(protocol, buf.skip(c.frame_len)),
        _ => Seq::empty(),
    }
}

/// What follows the commands at the start of `buf`.
pub open spec fn leftover<P: Protocol>(protocol: P, buf: Seq<u8>) -> Seq<u8>
    decreases buf.len(),
{
    match protocol.parsed(buf) {
        Some(c) if 0 < c.frame_len <= buf.len() => leftover(protocol, buf.skip(c.frame_len)),
        _ => buf,
    }
}

/// The bytes of a connection that are not yet a whole command.
pub struct Connection {
    buf: Vec<u8>,
}

impl View for Connection {
    type V = Seq<u8>;

    closed spec fn view(&self) -> Seq<u8> {
        self.buf@
    }
}

impl Connection {
    /// A connection on which nothing has arrived.
    pub fn new() -> (r: Connection)
        ensures
            r@ == Seq::<u8>::empty(),
    {
        Connection { buf: Vec::new() }
    }

    /// Take what has arrived, and cut off the commands that are whole. `None`: more
    /// is pending than is allowed, and the connection is to be closed.
    pub fn receive<P: Protocol>(&mut self, protocol: &P, chunk: &[u8]) -> (r: Option<Vec<Inbound>>)
        ensures
            ({
                let all = old(self)@ + chunk@;
                if all.len() > MAX_INBOUND_ACCUMULATION {
                    r is None && final(self)@ == all
                } else {
                    &&& r is Some
                    &&& inbound_views(r->0@) == commands(*protocol, all)
                    &&& final(self)@ == leftover(*protocol, all)
                }
            }),
    {
        self.buf.extend_from_slice(chunk);
        let ghost all = self.buf@;
        assert(all =~= old(self)@ + chunk@);
        if self.buf.len() > MAX_INBOUND_ACCUMULATION {
            return None;
        }
        let mut found: Vec<Inbound> = Vec::new();
        let mut pos: usize = 0;
        proof {
            assert(all.skip(0) =~= all);
            assert(inbound_views(found@) + commands(*protocol, all) =~= commands(*protocol, all));
        }
        loop
            invariant
                self.buf@ == all,
                all == old(self)@ + chunk@,
                all.len() <= MAX_INBOUND_ACCUMULATION,
                pos <= all.len(),
                inbound_views(found@) + commands(*protocol, all.skip(pos as int)) == commands(
                    *protocol,
                    all,
                ),
                leftover(*protocol, all.skip(pos as int)) == leftover(*protocol, all),
            decreases all.len() - pos,
        {
            let left: &[u8] = &self.buf.as_slice()[pos..self.buf.len()];
            assert(left@ =~= all.skip(pos as int));
            match protocol.parse(left) {
                None => {
                    let rest: Vec<u8> = slice_to_vec(left);
                    assert(inbound_views(found@) + Seq::<InboundView>::empty() =~= inbound_views(
                        found@,
                    ));
                    self.buf = rest;
                    return Some(found);
                },
                Some(command) => {
                    let n: usize = command.frame_len;
                    let frame: Vec<u8> = slice_to_vec(&left[0..n]);
                    let ghost before = inbound_views(found@);
                    let ghost item = Inbound { command: command@, frame: frame@ };
                    found.push(Inbound { command, frame });
                    proof {
                        assert(frame@ =~= left@.take(n as int));
                        assert(inbound_views(found@) =~= before.push(item));
                        assert(left@.skip(n as int) =~= all.skip(pos + n));
                        assert(inbound_views(found@) + commands(*protocol, all.skip(pos + n))
                            =~= before + commands(*protocol, left@));
                    }
                    pos = pos + n;
                },
            }
        }
    }
}

// ── who answers ──────────────────────────────────────────────────────────────

/// Who answers to a command.
pub enum Route<'a, H> {
    /// A handler.
    Handle(&'a Registered<H>),
    /// The HSM, to which it is forwarded.
    Forward,
    /// Nobody.
    Refuse,
}

/// Find who answers to a command: its handler; if there is none, the HSM, if
/// unhandled commands are forwarded; else nobody.
pub fn route<'a, H: Handler>(
    registry: &'a Registry<H>,
    command_code: &[u8],
    forwards: bool,
) -> (r: Route<'a, H>)
    requires
        registry.wf(),
    ensures
        match r {
            Route::Handle(h) => registry@.dom().contains(command_code@)
                && registry@[command_code@] == *h,
            Route::Forward => !registry@.dom().contains(command_code@) && forwards,
            Route::Refuse => !registry@.dom().contains(command_code@) && !forwards,
        },
{
    match registry.get(command_code) {
        Some(h) => Route::Handle(h),
        None => if forwards {
            Route::Forward
        } else {
            Route::Refuse
        },
    }
}

// ── answers ──────────────────────────────────────────────────────────────────

/// Frame the answer of a handler.
pub fn answer_frame<P: Protocol>(protocol: &P, command: &ParsedCommand, result: &HandlerResult) -> (r:
    Vec<u8>)
    ensures
        r@ == protocol.framed(
            command@.header,
            protocol.reply_code(command@.command_code),
            result@.error_code,
            result@.payload,
        ),
{
    let code: Vec<u8> = protocol.response_code(command.command_code.as_slice());
    protocol.frame_response(
        command.header,
        code.as_slice(),
        result.error_code.as_slice(),
        result.payload.as_slice(),
    )
}

/// Why a command has no answer of its own.
pub enum Unanswered {
    /// No handler answers to it.
    NoHandler,
    /// It could not be forwarded.
    ForwardFailed,
}

/// The code for a command without an answer of its own.
pub open spec fn unanswered_code(why: Unanswered) -> Seq<u8> {
    match why {
        Unanswered::NoHandler => text::ascii_2('6', '8'),
        Unanswered::ForwardFailed => text::ascii_2('4', '1'),
    }
}

/// Frame the answer to a command without an answer of its own.
pub fn unanswered_frame<P: Protocol>(
    protocol: &P,
    command: &ParsedCommand,
    why: Unanswered,
) -> (r: Vec<u8>)
    ensures
        r@ == protocol.framed(
            command@.header,
            protocol.reply_code(command@.command_code),
            unanswered_code(why),
            Seq::empty(),
        ),
{
    let code: [u8; 2] = match why {
        Unanswered::NoHandler => ['6' as u8, '8' as u8],
        Unanswered::ForwardFailed => ['4' as u8, '1' as u8],
    };
    assert(code@ =~= unanswered_code(why));
    protocol.frame_error(command.header, command.command_code.as_slice(), code.as_slice())
}

// ── discovery ────────────────────────────────────────────────────────────────

/// The note that stands in for the fields of a payShield command.
pub const THALES_NOTE: &'static str = "Thales fields are positional and command-specific; payload not parsed in discovery mode";

/// What is recorded of a command that no handler answers to.
pub enum Sighting {
    /// Of a Futurex command, with its four-byte code: the parameters, redacted.
    Futurex { cmd: String, params: Vec<(String, String)>, line: String },
    /// Of any other: the length of the payload.
    Thales { cmd: String, payload_len: usize, note: &'static str },
}

/// Take down a command that no handler answers to.
pub fn sight(command_code: &[u8], payload: &[u8]) -> (r: Sighting)
    ensures
        match r {
            Sighting::Futurex { cmd, params, line } => {
                let seen = futurex::params_over(Map::empty(), futurex::tokens(payload@));
                &&& command_code@.len() == 4
                &&& cmd@ == text::lossy_text(command_code@)
                &&& futurex::shows(params@, seen)
                &&& futurex::is_log_line(line@, seen)
            },
            Sighting::Thales { cmd, payload_len, note } => {
                &&& command_code@.len() != 4
                &&& cmd@ == text::lossy_text(command_code@)
                &&& payload_len == payload@.len()
                &&& note@ == THALES_NOTE@
            },
        },
{
    let cmd: String = lossy(command_code);
    if command_code.len() == 4 {
        let params: Params = parse_params(payload);
        Sighting::Futurex {
            cmd,
            params: futurex::params_redacted_map(&params),
            line: futurex::redact_for_log(&params),
        }
    } else {
        Sighting::Thales { cmd, payload_len: payload.len(), note: THALES_NOTE }
    }
}

/// The command codes that have been recorded: each is recorded once.
pub struct DiscoveryLog {
    seen: StringHashSet,
}

impl View for DiscoveryLog {
    type V = Set<Seq<char>>;

    closed spec fn view(&self) -> Set<Seq<char>> {
        self.seen@
    }
}

impl DiscoveryLog {
    /// Nothing has been recorded.
    pub fn new() -> (r: DiscoveryLog)
        ensures
            r@ == Set::<Seq<char>>::empty(),
    {
        DiscoveryLog { seen: StringHashSet::new() }
    }

    /// Whether a command code is seen for the first time. From then on it is not.
    pub fn first_sight(&mut self, command_code: &[u8]) -> (r: bool)
        ensures
            r == !old(self)@.contains(text::lossy_text(command_code@)),
            final(self)@ == old(self)@.insert(text::lossy_text(command_code@)),
    {
        self.seen.insert(lossy(command_code))
    }
}

// ── settings ─────────────────────────────────────────────────────────────────

/// A vendor that can be configured.
#[derive(Clone, Copy, Debug, PartialEq, Eq, Structural)]
pub enum Vendor {
    Thales,
    Futurex,
}

/// The vendor of a name.
pub open spec fn vendor_named(name: Seq<char>) -> Result<Vendor, Seq<char>> {
    if name == "thales_payshield"@ {
        Ok(Vendor::Thales)
    } else if name == "futurex_excrypt"@ {
        Ok(Vendor::Futurex)
    } else {
        Err("unknown vendor: "@ + name)
    }
}

/// The vendor of a name, or why there is none.
pub fn select_vendor(name: &str) -> (r: Result<Vendor, String>)
    ensures
        match r {
            Ok(v) => vendor_named(name@) == Ok::<Vendor, Seq<char>>(v),
            Err(e) => vendor_named(name@) == Err::<Vendor, Seq<char>>(e@),
        },
{
    if same_text(name, "thales_payshield") {
        Ok(Vendor::Thales)
    } else if same_text(name, "futurex_excrypt") {
        Ok(Vendor::Futurex)
    } else {
        Err(owned("unknown vendor: ").concat(name))
    }
}

/// How the listener is named in the log: by its TLS, and by whether that asks for
/// client certificates.
pub fn listen_mode(tls: bool, client_ca: bool) -> (r: &'static str)
    ensures
        r@ == if tls && client_ca {
            "mTLS"@
        } else if tls {
            "TLS"@
        } else {
            "plaintext"@
        },
{
    if tls && client_ca {
        "mTLS"
    } else if tls {
        "TLS"
    } else {
        "plaintext"
    }
}

/// How the service is named in the log: by whether unhandled commands are
/// forwarded.
pub fn service_mode(forwards: bool) -> (r: &'static str)
    ensures
        r@ == if forwards {
            "discovery+passthrough"@
        } else {
            "proxy"@
        },
{
    if forwards {
        "discovery+passthrough"
    } else {
        "proxy"
    }
}

// ── laws ─────────────────────────────────────────────────────────────────────

/// The frames of a list of commands, one behind the other.
pub open spec fn frames(list: Seq<InboundView>) -> Seq<u8>
    decreases list.len(),
{
    if list.len() == 0 {
        Seq::empty()
    } else {
        list[0].frame + frames(list.skip(1))
    }
}

/// No byte is lost or doubled: the frames of the commands, with what is left over
/// behind them, are what arrived; and what is left over holds no whole command.
pub proof fn no_byte_is_lost<P: Protocol>(protocol: P, buf: Seq<u8>)
    ensures
        frames(commands(protocol, buf)) + leftover(protocol, buf) == buf,
        protocol.parsed(leftover(protocol, buf)) is None,
    decreases buf.len(),
{
    protocol.commands_lie_within(buf);
    match protocol.parsed(buf) {
        Some(c) => {
            let head = buf.take(c.frame_len);
            let rest = buf.skip(c.frame_len);
            no_byte_is_lost(protocol, rest);
            let list = commands(protocol, buf);
            assert(list.skip(1) =~= commands(protocol, rest));
            assert(frames(list) == head + frames(commands(protocol, rest)));
            assert(frames(list) + leftover(protocol, buf) =~= head + rest);
            assert(head + rest =~= buf);
        },
        None => {
            assert(frames(commands(protocol, buf)) + leftover(protocol, buf) =~= buf);
        },
    }
}

/// It does not matter how the stream is cut into reads: to take `a` and then `b`
/// gives the same commands, and leaves the same over, as to take both at once.
pub proof fn reads_may_be_cut_anywhere<P: Protocol>(protocol: P, a: Seq<u8>, b: Seq<u8>)
    ensures
        commands(protocol, a + b) == commands(protocol, a) + commands(
            protocol,
            leftover(protocol, a) + b,
        ),
        leftover(protocol, a + b) == leftover(protocol, leftover(protocol, a) + b),
    decreases a.len(),
{
    protocol.commands_lie_within(a);
    protocol.commands_stand(a, b);
    match protocol.parsed(a) {
        Some(c) => {
            let n = c.frame_len;
            let rest = a.skip(n);
            reads_may_be_cut_anywhere(protocol, rest, b);
            assert((a + b).skip(n) =~= rest + b);
            assert((a + b).take(n) =~= a.take(n));
            assert(commands(protocol, a + b) =~= commands(protocol, a) + commands(
                protocol,
                leftover(protocol, a) + b,
            ));
        },
        None => {
            assert(commands(protocol, a + b) =~= commands(protocol, a) + commands(
                protocol,
                leftover(protocol, a) + b,
            ));
        },
    }
}

/// A command code is new once.
pub proof fn a_command_is_recorded_once(seen: Set<Seq<char>>, cmd: Seq<char>)
    ensures
        seen.insert(cmd).contains(cmd),
        seen.insert(cmd).insert(cmd) == seen.insert(cmd),
{
    assert(seen.insert(cmd).insert(cmd) =~= seen.insert(cmd));
}

/// A connection may have 256 KiB pending, more than the longest payShield frame.
pub proof fn every_frame_fits_a_connection()
    ensures
        MAX_INBOUND_ACCUMULATION == 0x40000,
        MAX_INBOUND_ACCUMULATION > 2 + 0xFFFF,
{
}

/// A command that no handler answers to is answered as disabled, with code `68`; one that could
/// not be forwarded with `41`.
pub proof fn unanswered_commands_are_told_apart()
    ensures
        unanswered_code(Unanswered::NoHandler) == text::ascii_2('6', '8'),
        unanswered_code(Unanswered::ForwardFailed) == text::ascii_2('4', '1'),
{
}

/// Each vendor is selected by the name of its own module, and by no other name.
pub proof fn vendors_are_selected_by_their_names(name: Seq<char>)
    ensures
        vendor_named(name) == Ok::<Vendor, Seq<char>>(Vendor::Thales) <==> name
            == ThalesModule.name(),
        vendor_named(name) == Ok::<Vendor, Seq<char>>(Vendor::Futurex) <==> name
            == FuturexModule.name(),
        ThalesModule.name() == "thales_payshield"@,
        FuturexModule.name() == "futurex_excrypt"@,
{
    reveal_strlit("thales_payshield");
    reveal_strlit("futurex_excrypt");
    assert("thales_payshield"@[0] == 't' && "futurex_excrypt"@[0] == 'f');
}

} // verus!
