//! One socket entry of the system's tables, and its mathematical model.

use vstd::prelude::*;

verus! {

/// A socket that the system reports: protocol, local and remote address,
/// connection state and, when known, the owning process.
#[derive(Debug)]
pub struct PortInfo {
    pub protocol: String,
    pub local_addr: String,
    pub remote_addr: Option<String>,
    pub state: String,
    pub pid: Option<u32>,
    pub process_name: Option<String>,
}

/// The model of a `PortInfo`: its texts as character sequences.
pub struct PortModel {
    pub protocol: Seq<char>,
    pub local_addr: Seq<char>,
    pub remote_addr: Option<Seq<char>>,
    pub state: Seq<char>,
    pub pid: Option<u32>,
    pub process_name: Option<Seq<char>>,
}

/// The characters of an optional string.
pub open spec fn opt_view(o: Option<String>) -> Option<Seq<char>> {
    match o {
        Some(s) => Some(s@),
        None => None,
    }
}

impl View for PortInfo {
    type V = PortModel;

    open spec fn view(&self) -> PortModel {
        PortModel {
            protocol: self.protocol@,
            local_addr: self.local_addr@,
            remote_addr: opt_view(self.remote_addr),
            state: self.state@,
            pid: self.pid,
            process_name: opt_view(self.process_name),
        }
    }
}

/// The models of a list of entries.
pub open spec fn models(v: Seq<PortInfo>) -> Seq<PortModel> {
    v.map_values(|p: PortInfo| p@)
}

/// A copy of an optional string.
pub fn copy_opt_string(o: &Option<String>) -> (r: Option<String>)
    ensures
        opt_view(r) == opt_view(*o),
{
    match o {
        Some(s) => Some(s.clone()),
        None => None,
    }
}

impl PortInfo {
    /// A copy of this entry.
    pub fn duplicate(&self) -> (r: PortInfo)
        ensures
            r@ == self@,
    {
        PortInfo {
            protocol: self.protocol.clone(),
            local_addr: self.local_addr.clone(),
            remote_addr: copy_opt_string(&self.remote_addr),
            state: self.state.clone(),
            pid: self.pid,
            process_name: copy_opt_string(&self.process_name),
        }
    }
}

} // verus!
