//! The connection descriptor a kernel launcher hands over, and the
//! endpoints the five channels dial.

use vstd::prelude::*;

use crate::text;
use crate::text::ascii_bytes;
use crate::text::push_ascii;

verus! {

/// How the channels reach the kernel.
#[derive(Clone, Copy, Debug, PartialEq, Eq, Structural)]
pub enum TransportKind {
    /// TCP sockets on a host and port.
    Tcp,
    /// Local inter-process endpoints.
    Ipc,
}

/// The role a channel plays for one kernel connection.
#[derive(Clone, Copy, Debug, PartialEq, Eq, Structural)]
pub enum ChannelRole {
    /// Request/reply traffic for execution and introspection.
    Shell,
    /// Broadcast of outputs and status; subscribe-only.
    Iopub,
    /// Interactive prompts originating from the kernel.
    Stdin,
    /// Request/reply traffic for control messages.
    Control,
    /// Raw echo channel used for liveness.
    Heartbeat,
}

/// Everything needed for one kernel connection attempt, immutable once
/// loaded: transport kind, address, the five channel ports, the signing
/// scheme and key, and the session identifier.
pub struct ConnectionDescriptor {
    /// Transport kind for all five channels.
    pub transport: TransportKind,
    /// Host address (or IPC path base).
    pub ip: Vec<u8>,
    /// Shell channel port.
    pub shell_port: u16,
    /// Iopub channel port.
    pub iopub_port: u16,
    /// Stdin channel port.
    pub stdin_port: u16,
    /// Control channel port.
    pub control_port: u16,
    /// Heartbeat channel port.
    pub hb_port: u16,
    /// Signing scheme identifier.
    pub signature_scheme: Vec<u8>,
    /// Signing key; empty means signing is a no-op.
    pub key: Vec<u8>,
    /// Session identifier.
    pub session_id: Vec<u8>,
}

impl ConnectionDescriptor {
    /// The port a channel role dials.
    pub open spec fn spec_port_for(&self, role: ChannelRole) -> u16 {
        match role {
            ChannelRole::Shell => self.shell_port,
            ChannelRole::Iopub => self.iopub_port,
            ChannelRole::Stdin => self.stdin_port,
            ChannelRole::Control => self.control_port,
            ChannelRole::Heartbeat => self.hb_port,
        }
    }

    /// The port a channel role dials.
    pub fn port_for(&self, role: ChannelRole) -> (p: u16)
        ensures
            p == self.spec_port_for(role),
    {
        match role {
            ChannelRole::Shell => self.shell_port,
            ChannelRole::Iopub => self.iopub_port,
            ChannelRole::Stdin => self.stdin_port,
            ChannelRole::Control => self.control_port,
            ChannelRole::Heartbeat => self.hb_port,
        }
    }

    /// The endpoint text a channel role dials: `tcp://ip:port` over TCP,
    /// `ipc://ip-port` over local endpoints.
    pub open spec fn spec_endpoint_for(&self, role: ChannelRole) -> Seq<u8> {
        match self.transport {
            TransportKind::Tcp => ascii_bytes("tcp://"@) + self.ip@ + seq![58u8]
                + text::spec_decimal(self.spec_port_for(role) as nat),
            TransportKind::Ipc => ascii_bytes("ipc://"@) + self.ip@ + seq![45u8]
                + text::spec_decimal(self.spec_port_for(role) as nat),
        }
    }

    /// Renders the endpoint a channel role dials.
    pub fn endpoint_for(&self, role: ChannelRole) -> (r: Vec<u8>)
        ensures
            r@ == self.spec_endpoint_for(role),
    {
        let mut out: Vec<u8> = Vec::new();
        match self.transport {
            TransportKind::Tcp => {
                proof {
                    reveal_strlit("tcp://");
                    assert(vstd::utf8::is_ascii_chars("tcp://"@));
                }
                push_ascii(&mut out, "tcp://");
                out.extend_from_slice(self.ip.as_slice());
                out.push(58);
            },
            TransportKind::Ipc => {
                proof {
                    reveal_strlit("ipc://");
                    assert(vstd::utf8::is_ascii_chars("ipc://"@));
                }
                push_ascii(&mut out, "ipc://");
                out.extend_from_slice(self.ip.as_slice());
                out.push(45);
            },
        }
        let port = self.port_for(role);
        text::push_decimal(&mut out, port as u64);
        proof {
            assert(out@ =~= self.spec_endpoint_for(role));
        }
        out
    }
}

} // verus!
