//! The capability a managed-DNS provider offers to the rewrite-reconciling
//! tool. The HTTP-backed implementation lives outside the library; nothing
//! is promised here about what a provider returns.

use vstd::prelude::*;

use crate::model::record::DNSRecord;
use crate::error::Error;

verus! {

pub trait DNSProvider {
    fn name(&self) -> &str;

    fn list_records(&self) -> Result<Vec<DNSRecord>, Error>;

    fn add_record(&self, record: DNSRecord) -> Result<(), Error>;

    fn update_record(&self, record: DNSRecord) -> Result<(), Error>;

    fn delete_record(&self, record: DNSRecord) -> Result<(), Error>;
}

} // verus!
