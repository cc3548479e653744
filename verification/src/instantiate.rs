use vstd::prelude::*;

use crate::errors::ContributorError;
use crate::state::{Config, Contributor};

verus! {

impl Contributor {
    /// Create the contributor with its immutable configuration.
    ///
    /// A chain must refuse to be its own conductor: when `conductor_chain`
    /// equals `chain_id` the call fails with `UnsupportedConductor` and no
    /// state comes into being.
    pub fn instantiate(
        chain_id: u16,
        bridge: Vec<u8>,
        token_bridge: Vec<u8>,
        conductor_chain: u16,
        conductor_address: Vec<u8>,
        owner: Vec<u8>,
    ) -> (r: Result<Contributor, ContributorError>)
        ensures
            match r {
                Ok(c) => {
                    &&& conductor_chain != chain_id
                    &&& c.inv()
                    &&& c.config.chain_id == chain_id
                    &&& c.config.bridge@ == bridge@
                    &&& c.config.token_bridge@ == token_bridge@
                    &&& c.config.conductor_chain == conductor_chain
                    &&& c.config.conductor_address@ == conductor_address@
                    &&& c.config.owner@ == owner@
                    &&& c.sales@.len() == 0
                    &&& c.consumed@.len() == 0
                },
                Err(e) => {
                    &&& conductor_chain == chain_id
                    &&& e == ContributorError::UnsupportedConductor
                },
            },
    {
        if conductor_chain == chain_id {
            return Err(ContributorError::UnsupportedConductor);
        }
        Ok(Contributor {
            config: Config {
                chain_id,
                bridge,
                token_bridge,
                conductor_chain,
                conductor_address,
                owner,
            },
            consumed: Vec::new(),
            sales: Vec::new(),
        })
    }
}

} // verus!
