use vstd::prelude::*;

pub mod cpu;
pub mod cputemp;
pub mod disks;
pub mod gpus;
pub mod history;
pub mod memory;
pub mod network;

verus! {

/// Unit in which a temperature reading is shown.
#[derive(Debug, Clone, Copy, PartialEq, Eq, Structural)]
pub enum TempUnit {
    Celsius,
    Farenheit,
    Kelvin,
    Rankine,
}

/// Vendor family of the CPU whose temperature sensor was found.
#[derive(Debug, Clone, Copy, PartialEq, Eq, Structural)]
pub enum CpuVariant {
    Amd,
    Intel,
}

/// Position of a unit in the unit drop-down: Celsius 0, Fahrenheit 1,
/// Kelvin 2, Rankine 3.
pub open spec fn temp_unit_index(unit: TempUnit) -> nat {
    match unit {
        TempUnit::Celsius => 0,
        TempUnit::Farenheit => 1,
        TempUnit::Kelvin => 2,
        TempUnit::Rankine => 3,
    }
}

/// The unit selected by a drop-down position; an index past the last unit
/// falls back to Celsius.
pub open spec fn temp_unit_of_index(index: int) -> TempUnit {
    if index == 1 {
        TempUnit::Farenheit
    } else if index == 2 {
        TempUnit::Kelvin
    } else if index == 3 {
        TempUnit::Rankine
    } else {
        TempUnit::Celsius
    }
}

impl From<usize> for TempUnit {
    fn from(index: usize) -> (unit: TempUnit)
        ensures
            unit == temp_unit_of_index(index as int),
    {
        match index {
            0 => TempUnit::Celsius,
            1 => TempUnit::Farenheit,
            2 => TempUnit::Kelvin,
            3 => TempUnit::Rankine,
            _ => TempUnit::Celsius,
        }
    }
}

impl vstd::std_specs::convert::FromSpecImpl<usize> for TempUnit {
    open spec fn obeys_from_spec() -> bool {
        true
    }

    open spec fn from_spec(index: usize) -> TempUnit {
        temp_unit_of_index(index as int)
    }
}

impl From<TempUnit> for usize {
    fn from(kind: TempUnit) -> (index: usize)
        ensures
            index == temp_unit_index(kind),
    {
        match kind {
            TempUnit::Celsius => 0,
            TempUnit::Farenheit => 1,
            TempUnit::Kelvin => 2,
            TempUnit::Rankine => 3,
        }
    }
}

impl vstd::std_specs::convert::FromSpecImpl<TempUnit> for usize {
    open spec fn obeys_from_spec() -> bool {
        true
    }

    open spec fn from_spec(kind: TempUnit) -> usize {
        temp_unit_index(kind) as usize
    }
}

/// Converting a unit to its drop-down position and back gives the unit again.
pub proof fn lemma_temp_unit_index_round_trip(unit: TempUnit)
    ensures
        temp_unit_of_index(temp_unit_index(unit) as int) == unit,
        temp_unit_index(unit) < 4,
{
}

/// Every drop-down position below four names a unit whose position is that
/// index; any other index selects Celsius.
pub proof fn lemma_temp_unit_of_index_round_trip(index: usize)
    ensures
        index < 4 ==> temp_unit_index(temp_unit_of_index(index as int)) == index,
        index >= 4 ==> temp_unit_of_index(index as int) == TempUnit::Celsius,
{
}

impl TempUnit {
    /// The symbol written after a reading in this unit: "°C", "°F", "K" or "°R".
    pub fn symbol(&self) -> (s: &'static str)
        ensures
            s@ == temp_unit_symbol(*self),
    {
        match self {
            TempUnit::Celsius => "°C",
            TempUnit::Farenheit => "°F",
            TempUnit::Kelvin => "K",
            TempUnit::Rankine => "°R",
        }
    }

    /// What a GPU temperature label shows while there is no reading: the
    /// symbol behind "--" for Celsius and behind "---" for the other units.
    pub fn no_reading(&self) -> (s: &'static str)
        ensures
            s@ == temp_unit_no_reading(*self),
    {
        match self {
            TempUnit::Celsius => "--°C",
            TempUnit::Farenheit => "---°F",
            TempUnit::Kelvin => "---K",
            TempUnit::Rankine => "---°R",
        }
    }
}

pub open spec fn temp_unit_symbol(unit: TempUnit) -> Seq<char> {
    match unit {
        TempUnit::Celsius => "°C"@,
        TempUnit::Farenheit => "°F"@,
        TempUnit::Kelvin => "K"@,
        TempUnit::Rankine => "°R"@,
    }
}

pub open spec fn temp_unit_no_reading(unit: TempUnit) -> Seq<char> {
    match unit {
        TempUnit::Celsius => "--°C"@,
        TempUnit::Farenheit => "---°F"@,
        TempUnit::Kelvin => "---K"@,
        TempUnit::Rankine => "---°R"@,
    }
}

} // verus!
