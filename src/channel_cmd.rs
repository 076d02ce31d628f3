//! The options of the `create channel` command, and which way of creating
//! the channel they select.
use vstd::prelude::*;

verus! {

/// Ordering of a channel's packets.
#[derive(Clone, Copy, Debug, PartialEq, Eq, Structural)]
pub enum Order {
    Unordered,
    Ordered,
}

/// Options of `create channel`.
#[derive(Clone, Debug, PartialEq, Eq)]
pub struct CreateChannelCommand {
    pub chain_a_id: String,
    pub chain_b_id: Option<String>,
    pub connection_a: Option<String>,
    pub port_a: String,
    pub port_b: String,
    pub order: Order,
    pub version: Option<String>,
    pub new_client_connection: bool,
}

/// Why the options cannot be acted on.
#[derive(Clone, Copy, Debug, PartialEq, Eq, Structural)]
pub enum ChannelCommandError {
    /// A second chain was named without asking for a new client and connection.
    NewClientConnectionFlagRequired,
    /// Neither a connection nor a second chain was named.
    MissingChainOrConnection,
}

/// How the channel is to be created.
#[derive(Clone, Debug, PartialEq, Eq)]
pub enum ChannelPlan {
    /// Over the existing connection of chain a.
    ReuseConnection { connection_a: String },
    /// Over new clients and a new connection to chain b, once the operator
    /// confirms.
    NewConnection { chain_b: String },
}

impl CreateChannelCommand {
    /// A named connection is reused. Otherwise a second chain, with the
    /// flag that asks for a new client and connection, creates them.
    pub fn plan(&self) -> (r: Result<ChannelPlan, ChannelCommandError>)
        ensures
            self.connection_a matches Some(c) ==> (r matches Ok(ChannelPlan::ReuseConnection {
                connection_a,
            }) && connection_a@ == c@),
            self.connection_a is None ==> match self.chain_b_id {
                Some(b) => if self.new_client_connection {
                    r matches Ok(ChannelPlan::NewConnection { chain_b }) && chain_b@ == b@
                } else {
                    r == Err::<ChannelPlan, ChannelCommandError>(
                        ChannelCommandError::NewClientConnectionFlagRequired,
                    )
                },
                None => r == Err::<ChannelPlan, ChannelCommandError>(
                    ChannelCommandError::MissingChainOrConnection,
                ),
            },
    {
        match &self.connection_a {
            Some(conn) => Ok(ChannelPlan::ReuseConnection { connection_a: conn.clone() }),
            None => match &self.chain_b_id {
                Some(chain_b) => {
                    if self.new_client_connection {
                        Ok(ChannelPlan::NewConnection { chain_b: chain_b.clone() })
                    } else {
                        Err(ChannelCommandError::NewClientConnectionFlagRequired)
                    }
                },
                None => Err(ChannelCommandError::MissingChainOrConnection),
            },
        }
    }
}

} // verus!
