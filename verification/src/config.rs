//! Static description of the station.

use vstd::prelude::*;

use crate::outlet_map::spec_insert;
use crate::outlet_map::OutletMap;
use crate::state::OutletState;

verus! {

/// Static description of one charging outlet.
#[derive(Debug, PartialEq)]
pub struct OutletConfig {
    pub id: u64,
    /// Highest charging current the outlet may deliver, in milliamperes.
    pub max_current_milliamps: u64,
}

/// Static description of the station: endpoint, identity, metadata and
/// the configured outlets. Immutable for the process lifetime.
#[derive(Debug, PartialEq)]
pub struct Config {
    pub ocpp_endpoint: String,
    pub ocpp_identity: String,
    pub ocpp_password: Option<String>,
    pub serial_number: Option<String>,
    pub vendor: String,
    pub firmware_version: Option<String>,
    pub model: String,
    pub iccid: Option<String>,
    pub imsi: Option<String>,
    pub meter_serial_number: Option<String>,
    pub meter_type: Option<String>,
    pub outlets: Vec<OutletConfig>,
}

/// The outlet map a charger starts with: one `Available` entry per
/// configured outlet id.
pub open spec fn spec_initial_outlets(outlets: Seq<OutletConfig>) -> Seq<(u64, OutletState)>
    decreases outlets.len(),
{
    if outlets.len() == 0 {
        Seq::empty()
    } else {
        spec_insert(
            spec_initial_outlets(outlets.drop_last()),
            outlets.last().id,
            OutletState::Available,
        )
    }
}

impl Config {
    /// The factory description of an Easee Home box: one outlet rated at
    /// 32 amperes, serial number equal to the identity.
    pub fn default_easee_home(endpoint: &str, identity: &str) -> (r: Self)
        ensures
            r.ocpp_endpoint@ == endpoint@,
            r.ocpp_identity@ == identity@,
            r.ocpp_password is None,
            r.serial_number matches Some(s) && s@ == identity@,
            r.vendor@ == "easee"@,
            r.firmware_version is None,
            r.model@ == "Easee Home"@,
            r.iccid is None,
            r.imsi is None,
            r.meter_serial_number is None,
            r.meter_type is None,
            r.outlets@.len() == 1,
            r.outlets@[0].id == 1,
            r.outlets@[0].max_current_milliamps == 32000,
    {
        let mut outlets: Vec<OutletConfig> = Vec::new();
        outlets.push(OutletConfig { id: 1, max_current_milliamps: 32000 });
        Config {
            ocpp_endpoint: endpoint.to_owned(),
            ocpp_identity: identity.to_owned(),
            ocpp_password: Option::None,
            serial_number: Option::Some(identity.to_owned()),
            vendor: "easee".to_owned(),
            firmware_version: Option::None,
            model: "Easee Home".to_owned(),
            iccid: Option::None,
            imsi: Option::None,
            meter_serial_number: Option::None,
            meter_type: Option::None,
            outlets,
        }
    }

    /// The outlet map the charger enters `Connected` with: every
    /// configured outlet `Available`.
    pub fn get_initial_outlet_states(&self) -> (r: OutletMap)
        ensures
            r@ == spec_initial_outlets(self.outlets@),
    {
        let mut m = OutletMap::new();
        let n = self.outlets.len();
        let mut i: usize = 0;
        while i < n
            invariant
                n == self.outlets@.len(),
                0 <= i <= n,
                m@ == spec_initial_outlets(self.outlets@.take(i as int)),
            decreases n - i,
        {
            let id = self.outlets[i].id;
            m.insert(id, OutletState::Available);
            proof {
                assert(self.outlets@.take(i as int + 1).drop_last() =~= self.outlets@.take(
                    i as int,
                ));
                assert(self.outlets@.take(i as int + 1).last() == self.outlets@[i as int]);
            }
            i = i + 1;
        }
        proof {
            assert(self.outlets@.take(n as int) =~= self.outlets@);
        }
        m
    }
}

} // verus!
