use vstd::prelude::*;

verus! {

/// The role in which the process runs, with the address it needs.
#[derive(Debug)]
pub enum Mode {
    /// Capture local traffic and send it to the server at `server_ip:port`.
    Client { server_ip: String, port: u16 },
    /// Accept one connection on `bind_ip:port` and reinject what it carries.
    Server { bind_ip: String, port: u16 },
}

/// What the command line says.
#[derive(Debug)]
pub struct Args {
    pub mode: Mode,
}

} // verus!
