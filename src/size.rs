use vstd::prelude::*;

verus! {

/// The decimal unit in which a byte count is shown.
#[derive(Clone, Copy, Debug, PartialEq, Eq, Structural)]
pub enum SizePrefix {
    Unit,
    Kilo,
    Mega,
    Giga,
}

/// The largest unit that does not exceed `size`, bytes below a thousand.
pub open spec fn spec_size_prefix(size: usize) -> SizePrefix {
    if size >= 1_000_000_000 {
        SizePrefix::Giga
    } else if size >= 1_000_000 {
        SizePrefix::Mega
    } else if size >= 1000 {
        SizePrefix::Kilo
    } else {
        SizePrefix::Unit
    }
}

/// The unit in which `size` bytes are shown.
pub fn size_prefix(size: usize) -> (r: SizePrefix)
    ensures
        r == spec_size_prefix(size),
{
    if size >= 1_000_000_000 {
        SizePrefix::Giga
    } else if size >= 1_000_000 {
        SizePrefix::Mega
    } else if size >= 1000 {
        SizePrefix::Kilo
    } else {
        SizePrefix::Unit
    }
}

impl SizePrefix {
    /// How many bytes one of this unit is.
    pub open spec fn spec_divisor(self) -> u64 {
        match self {
            SizePrefix::Unit => 1,
            SizePrefix::Kilo => 1000,
            SizePrefix::Mega => 1_000_000,
            SizePrefix::Giga => 1_000_000_000,
        }
    }

    /// How many bytes one of this unit is.
    pub fn divisor(&self) -> (r: u64)
        ensures
            r == self.spec_divisor(),
    {
        match self {
            SizePrefix::Unit => 1,
            SizePrefix::Kilo => 1000,
            SizePrefix::Mega => 1_000_000,
            SizePrefix::Giga => 1_000_000_000,
        }
    }

    /// The metric prefix written before `B`.
    pub fn symbol(&self) -> (r: &'static str)
        ensures
            r@ == (match self {
                SizePrefix::Unit => ""@,
                SizePrefix::Kilo => "k"@,
                SizePrefix::Mega => "M"@,
                SizePrefix::Giga => "G"@,
            }),
    {
        match self {
            SizePrefix::Unit => "",
            SizePrefix::Kilo => "k",
            SizePrefix::Mega => "M",
            SizePrefix::Giga => "G",
        }
    }
}

} // verus!
