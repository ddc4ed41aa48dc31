use vstd::prelude::*;

verus! {

/// Which device is selected, at which rate, and what there is to choose
/// from.
#[derive(Clone, Debug)]
pub struct PortsInfo {
    pub available_ports: Vec<String>,
    pub available_baud_rates: Vec<u32>,
    pub selected_port: Option<String>,
    pub baud_rate: u32,
}

/// `PortsInfo` as a mathematical value.
pub struct Ports {
    pub available: Seq<Seq<char>>,
    pub rates: Seq<u32>,
    pub selected: Option<Seq<char>>,
    pub baud_rate: u32,
}

impl View for PortsInfo {
    type V = Ports;

    open spec fn view(&self) -> Ports {
        Ports {
            available: self.available_ports.deep_view(),
            rates: self.available_baud_rates@,
            selected: self.selected_port.deep_view(),
            baud_rate: self.baud_rate,
        }
    }
}

impl Ports {
    /// The configuration at start, given the names of the devices found.
    pub open spec fn initial(available: Seq<Seq<char>>) -> Ports {
        Ports { available, rates: baud_rates(), selected: None, baud_rate: DEFAULT_BAUD_RATE }
    }
}

/// The device names that a listing gave: none where it failed.
pub open spec fn found_names(found: Result<Vec<String>, String>) -> Seq<Seq<char>> {
    match found {
        Ok(names) => names.deep_view(),
        Err(_) => Seq::empty(),
    }
}

/// The rate that is selected until another is chosen.
pub const DEFAULT_BAUD_RATE: u32 = 9600;

/// The rates offered for selection, in rising order.
pub open spec fn baud_rates() -> Seq<u32> {
    seq![
        300,
        600,
        750,
        1_200,
        2_400,
        4_800,
        9_600,
        19_200,
        31_250,
        38_400,
        57_600,
        74_880,
        115_200,
        230_400,
        250_000,
        460_800,
        500_000,
        921_600,
        1_000_000,
        2_000_000,
    ]
}

/// The rates offered for selection.
pub fn baud_rate_list() -> (rates: Vec<u32>)
    ensures
        rates@ == baud_rates(),
{
    let rates: Vec<u32> = vec![
        300,
        600,
        750,
        1_200,
        2_400,
        4_800,
        9_600,
        19_200,
        31_250,
        38_400,
        57_600,
        74_880,
        115_200,
        230_400,
        250_000,
        460_800,
        500_000,
        921_600,
        1_000_000,
        2_000_000,
    ];
    assert(rates@ =~= baud_rates());
    rates
}

impl PortsInfo {
    /// The configuration at start: the devices that were found, or none
    /// where listing them failed; every rate on offer; no device selected;
    /// the default rate.
    pub fn new(found: Result<Vec<String>, String>) -> (info: PortsInfo)
        ensures
            info@ == Ports::initial(found_names(found)),
    {
        let available_ports = match found {
            Ok(names) => names,
            Err(_) => Vec::new(),
        };
        let info = PortsInfo {
            available_ports,
            available_baud_rates: baud_rate_list(),
            selected_port: None,
            baud_rate: DEFAULT_BAUD_RATE,
        };
        assert(info@.available =~= found_names(found));
        info
    }
}

} // verus!
