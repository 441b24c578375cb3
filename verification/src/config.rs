//! Start-up settings: which transport to serve on, and the defaults of the
//! HTTP transport.

use vstd::prelude::*;
use vstd::string::StringExecFns;

use crate::text::str_eq;

verus! {

/// The transport that the server speaks MCP over.
#[derive(PartialEq, Eq, Structural)]
pub enum Transport {
    /// Standard input and output.
    Stdio,
    /// Streamable HTTP, behind OAuth.
    Http,
}

/// The transport used when none is configured.
pub const DEFAULT_TRANSPORT: &'static str = "stdio";

/// The address the HTTP transport binds to when none is configured.
pub const DEFAULT_BIND_ADDR: &'static str = "127.0.0.1:8000";

/// The error for an unknown transport name.
pub open spec fn unknown_transport_message(kind: Seq<char>) -> Seq<char> {
    "Unknown MCP_TRANSPORT="@ + kind + "; expected \"stdio\" or \"http\""@
}

/// The transport named by `kind`: `http`, or `stdio` or the empty name;
/// any other name is an error.
pub fn select_transport(kind: &str) -> (t: Result<Transport, String>)
    ensures
        kind@ == "http"@ ==> t == Ok::<Transport, String>(Transport::Http),
        (kind@ == "stdio"@ || kind@ == ""@) ==> t == Ok::<Transport, String>(Transport::Stdio),
        (kind@ != "http"@ && kind@ != "stdio"@ && kind@ != ""@) ==> (t matches Err(m) && m@
            == unknown_transport_message(kind@)),
{
    proof {
        reveal_strlit("http");
        reveal_strlit("stdio");
        reveal_strlit("");
        assert("http"@.len() == 4 && "stdio"@.len() == 5 && ""@.len() == 0);
    }
    if str_eq(kind, "http") {
        Ok(Transport::Http)
    } else if str_eq(kind, "stdio") || str_eq(kind, "") {
        Ok(Transport::Stdio)
    } else {
        let mut m = "Unknown MCP_TRANSPORT=".to_owned();
        m.append(kind);
        m.append("; expected \"stdio\" or \"http\"");
        Err(m)
    }
}

/// The issuer URL used when none is configured: plain HTTP at the bind
/// address.
pub fn default_issuer(bind: &str) -> (issuer: String)
    ensures
        issuer@ == "http://"@ + bind@,
{
    let mut issuer = "http://".to_owned();
    issuer.append(bind);
    issuer
}

} // verus!
