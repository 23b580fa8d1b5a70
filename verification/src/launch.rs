//! What the program is asked to be.

use vstd::prelude::*;

use crate::switch::Side;

verus! {

/// What the command line makes the program do.
#[derive(Debug, Clone, Copy, PartialEq, Eq, Structural)]
pub enum Launch {
    /// Seamless mode and switch mode were both asked for: they exclude each other.
    Contradiction,
    /// Serve, with the peer on this side.
    Server { side: Side },
    /// Connect to a server, with the peer on this side.
    Client { side: Side },
    /// Neither was asked for: explain the usage.
    Usage,
}

/// The status that the program exits with where it does not run.
pub const EXIT_USAGE: i32 = 2;

/// Where the peer sits unless the command line says otherwise: a server has it on the right, a
/// client on the left.
pub open spec fn default_side(server: bool) -> Side {
    if server {
        Side::Right
    } else {
        Side::Left
    }
}

/// What the command line makes the program do.
pub open spec fn launched(
    server: bool,
    client: bool,
    switch: bool,
    m4: bool,
    side: Option<Side>,
) -> Launch {
    if m4 && switch {
        Launch::Contradiction
    } else if server {
        Launch::Server { side: side.unwrap_or(default_side(true)) }
    } else if client {
        Launch::Client { side: side.unwrap_or(default_side(false)) }
    } else {
        Launch::Usage
    }
}

/// Decides what to do. To serve takes precedence over to connect.
pub fn launch(server: bool, client: bool, switch: bool, m4: bool, side: Option<Side>) -> (r: Launch)
    ensures
        r == if m4 && switch {
            Launch::Contradiction
        } else {
            let side = match side {
                Some(side) => side,
                None => default_side(server),
            };
            if server {
                Launch::Server { side }
            } else if client {
                Launch::Client { side }
            } else {
                Launch::Usage
            }
        },
        r == launched(server, client, switch, m4, side),
        r is Contradiction <==> m4 && switch,
        r is Server <==> server && !(m4 && switch),
        r is Client <==> client && !server && !(m4 && switch),
        r is Usage <==> !client && !server && !(m4 && switch),
        r matches Launch::Server { side: s } ==> s == side.unwrap_or(Side::Right),
        r matches Launch::Client { side: s } ==> s == side.unwrap_or(Side::Left),
{
    if m4 && switch {
        return Launch::Contradiction;
    }
    let side: Side = match side {
        Some(side) => side,
        None => if server {
            Side::Right
        } else {
            Side::Left
        },
    };
    if server {
        Launch::Server { side }
    } else if client {
        Launch::Client { side }
    } else {
        Launch::Usage
    }
}

/// The default layout is coherent: the edge through which the pointer leaves a server lies
/// opposite to the one through which it leaves a client.
pub proof fn default_layout_is_coherent()
    ensures
        crate::switch::opposite(default_side(true).facing()) == default_side(false).facing(),
        crate::switch::opposite(default_side(false).facing()) == default_side(true).facing(),
{
}

} // verus!
