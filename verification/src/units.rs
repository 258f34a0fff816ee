//! Size units and the scaling of byte counts for display.

use vstd::prelude::*;
use vstd::string::*;

verus! {

/// The units a size is shown in, in the order in which scaling steps
/// through them: each division of a byte count by 1000 moves one unit down
/// this list. `Mb` stands before `Kb`.
#[derive(Clone, Copy, Debug, PartialEq, Eq, Structural)]
#[non_exhaustive]
pub enum Units {
    Byte,
    Mb,
    Kb,
    Gb,
    Tb,
}

/// Why a unit name was not understood.
#[derive(Clone, Copy, Debug, PartialEq, Eq, Structural)]
pub enum UnitError {
    /// The name is none of `bytes`, `mb`, `kb`, `gb`, `tb`.
    UnknownUnit,
}

/// A byte count scaled for display: the magnitude shown is the byte count
/// divided by 1000 as often as the count calls for, in the unit that this
/// number of divisions leads to.
#[derive(Clone, Copy, Debug, PartialEq, Eq, Structural)]
pub struct SizeValue {
    bytes: usize,
    divisions: u8,
    unit: Units,
}

/// The mathematical content of a `SizeValue`: the magnitude is `bytes`
/// divided by 1000 `divisions` times.
pub struct SizeModel {
    pub bytes: nat,
    pub divisions: nat,
    pub unit: Units,
}

impl View for SizeValue {
    type V = SizeModel;

    closed spec fn view(&self) -> SizeModel {
        SizeModel {
            bytes: self.bytes as nat,
            divisions: self.divisions as nat,
            unit: self.unit,
        }
    }
}

/// The unit that the exact, lower-case `name` stands for, if any.
pub open spec fn unit_named(name: Seq<char>) -> Option<Units> {
    if name == "bytes"@ {
        Some(Units::Byte)
    } else if name == "mb"@ {
        Some(Units::Mb)
    } else if name == "kb"@ {
        Some(Units::Kb)
    } else if name == "gb"@ {
        Some(Units::Gb)
    } else if name == "tb"@ {
        Some(Units::Tb)
    } else {
        None
    }
}

/// How often a byte count is divided by 1000 for display: once for every
/// power of 1000 that it exceeds, and never more than four times.
pub open spec fn divisions_for(bytes: nat) -> nat {
    if bytes <= 1000 {
        0
    } else if bytes <= 1000 * 1000 {
        1
    } else if bytes <= 1000 * 1000 * 1000 {
        2
    } else if bytes <= 1000 * 1000 * 1000 * 1000 {
        3
    } else {
        4
    }
}

/// The unit reached after `divisions` divisions by 1000.
pub open spec fn unit_after(divisions: nat) -> Units {
    if divisions == 0 {
        Units::Byte
    } else if divisions == 1 {
        Units::Mb
    } else if divisions == 2 {
        Units::Kb
    } else if divisions == 3 {
        Units::Gb
    } else {
        Units::Tb
    }
}

/// 1000 to the power `divisions`.
pub open spec fn scale(divisions: nat) -> nat
    decreases divisions,
{
    if divisions == 0 {
        1
    } else {
        1000 * scale((divisions - 1) as nat)
    }
}

impl Units {
    /// The label a size in this unit is shown with.
    pub open spec fn spec_label(self) -> Seq<char> {
        match self {
            Units::Byte => "bytes"@,
            Units::Mb => "MB"@,
            Units::Kb => "KB"@,
            Units::Gb => "GB"@,
            Units::Tb => "TB"@,
        }
    }

    /// The label a size in this unit is shown with.
    pub fn label(&self) -> (label: &'static str)
        ensures
            label@ == self.spec_label(),
    {
        match self {
            Units::Byte => "bytes",
            Units::Mb => "MB",
            Units::Kb => "KB",
            Units::Gb => "GB",
            Units::Tb => "TB",
        }
    }
}

/// The text of one decimal digit.
pub open spec fn digit_text(digit: nat) -> Seq<char> {
    if digit == 0 {
        "0"@
    } else if digit == 1 {
        "1"@
    } else if digit == 2 {
        "2"@
    } else if digit == 3 {
        "3"@
    } else if digit == 4 {
        "4"@
    } else if digit == 5 {
        "5"@
    } else if digit == 6 {
        "6"@
    } else if digit == 7 {
        "7"@
    } else if digit == 8 {
        "8"@
    } else {
        "9"@
    }
}

/// The decimal text of a number, without leading zeros.
pub open spec fn decimal_text(number: nat) -> Seq<char>
    decreases number,
{
    if number < 10 {
        digit_text(number)
    } else {
        decimal_text(number / 10) + digit_text(number % 10)
    }
}

impl SizeModel {
    /// The value that `readable_size` gives for `bytes`.
    pub open spec fn of(bytes: nat) -> SizeModel {
        SizeModel {
            bytes,
            divisions: divisions_for(bytes),
            unit: unit_after(divisions_for(bytes)),
        }
    }

    /// The magnitude in hundredths, rounded to the nearest hundredth, a half
    /// rounding up.
    pub open spec fn hundredths(self) -> nat {
        (self.bytes * 100 + scale(self.divisions) / 2) / scale(self.divisions)
    }

    /// The magnitude with two decimal digits, a space, and the unit's label.
    pub open spec fn text(self) -> Seq<char> {
        decimal_text(self.hundredths() / 100) + "."@ + digit_text(self.hundredths() / 10 % 10)
            + digit_text(self.hundredths() % 10) + " "@ + self.unit.spec_label()
    }
}

fn digit(value: u64) -> (text: &'static str)
    requires
        value < 10,
    ensures
        text@ == digit_text(value as nat),
{
    if value == 0 {
        "0"
    } else if value == 1 {
        "1"
    } else if value == 2 {
        "2"
    } else if value == 3 {
        "3"
    } else if value == 4 {
        "4"
    } else if value == 5 {
        "5"
    } else if value == 6 {
        "6"
    } else if value == 7 {
        "7"
    } else if value == 8 {
        "8"
    } else {
        "9"
    }
}

fn decimal(number: u64) -> (text: String)
    ensures
        text@ == decimal_text(number as nat),
    decreases number,
{
    if number < 10 {
        String::from_str(digit(number))
    } else {
        let mut text = decimal(number / 10);
        text.append(digit(number % 10));
        text
    }
}

impl SizeValue {
    #[verifier::type_invariant]
    closed spec fn scaled(self) -> bool {
        &&& self.divisions == divisions_for(self.bytes as nat)
        &&& self.unit == unit_after(self.divisions as nat)
    }

    /// The byte count that was scaled.
    pub fn bytes(&self) -> (bytes: usize)
        ensures
            bytes == self@.bytes,
    {
        self.bytes
    }

    /// How often the byte count is divided by 1000.
    pub fn divisions(&self) -> (divisions: u8)
        ensures
            divisions == self@.divisions,
            divisions == divisions_for(self@.bytes),
    {
        proof {
            use_type_invariant(self);
        }
        self.divisions
    }

    /// The unit the magnitude is shown in.
    pub fn unit(&self) -> (unit: Units)
        ensures
            unit == self@.unit,
            unit == unit_after(divisions_for(self@.bytes)),
    {
        proof {
            use_type_invariant(self);
        }
        self.unit
    }

    /// Renders the magnitude with two decimal digits, rounded to the nearest
    /// hundredth, followed by a space and the unit's label.
    pub fn format(&self) -> (text: String)
        ensures
            self@ == SizeModel::of(self@.bytes),
            text@ == self@.text(),
    {
        proof {
            use_type_invariant(self);
            reveal_with_fuel(scale, 6);
        }
        let unit_size: u128 = if self.divisions == 0 {
            1
        } else if self.divisions == 1 {
            1000
        } else if self.divisions == 2 {
            1000 * 1000
        } else if self.divisions == 3 {
            1000 * 1000 * 1000
        } else {
            1000 * 1000 * 1000 * 1000
        };
        assert(unit_size == scale(self.divisions as nat));
        let hundredths: u128 = (self.bytes as u128 * 100 + unit_size / 2) / unit_size;
        assert(hundredths == self@.hundredths());
        assert(hundredths / 100 <= u64::MAX) by (nonlinear_arith)
            requires
                hundredths == (self.bytes * 100 + unit_size / 2) / (unit_size as int),
                unit_size >= 1,
                self.bytes <= u64::MAX,
        ;
        let whole: u64 = (hundredths / 100) as u64;
        let tenths: u64 = (hundredths / 10 % 10) as u64;
        let last: u64 = (hundredths % 10) as u64;
        let mut text = decimal(whole);
        text.append(".");
        text.append(digit(tenths));
        text.append(digit(last));
        text.append(" ");
        text.append(self.unit.label());
        text
    }
}

/// The unit named by `unit`, which must be one of `bytes`, `mb`, `kb`, `gb`,
/// `tb`, in exactly this spelling. Every other name is an error.
pub fn get_unit(unit: &str) -> (result: Result<Units, UnitError>)
    ensures
        result == match unit_named(unit@) {
            Some(found) => Ok::<Units, UnitError>(found),
            None => Err::<Units, UnitError>(UnitError::UnknownUnit),
        },
{
    let name = unit.to_owned();
    if name == String::from_str("bytes") {
        Ok(Units::Byte)
    } else if name == String::from_str("mb") {
        Ok(Units::Mb)
    } else if name == String::from_str("kb") {
        Ok(Units::Kb)
    } else if name == String::from_str("gb") {
        Ok(Units::Gb)
    } else if name == String::from_str("tb") {
        Ok(Units::Tb)
    } else {
        Err(UnitError::UnknownUnit)
    }
}

/// Scales a byte count for display: the count is divided by 1000 while it
/// exceeds 1000, at most four times, and the unit follows the number of
/// divisions. The magnitude is at most 1000 unless four divisions were not
/// enough.
pub fn readable_size(size: usize) -> (value: SizeValue)
    ensures
        value@ == SizeModel::of(size as nat),
        value@.divisions <= 4,
        value@.divisions < 4 ==> size <= 1000 * scale(value@.divisions),
        value@.divisions > 0 ==> size > scale(value@.divisions),
{
    let amount: u64 = size as u64;
    let mut divisions: u8 = 0;
    let mut limit: u64 = 1000;
    proof {
        reveal_with_fuel(scale, 6);
    }
    while divisions < 4 && amount > limit
        invariant
            divisions <= 4,
            amount == size,
            limit == 1000 * scale(divisions as nat),
            limit <= 1000 * 1000 * 1000 * 1000 * 1000,
            divisions == 0 ==> limit == 1000,
            divisions == 1 ==> limit == 1000 * 1000,
            divisions == 2 ==> limit == 1000 * 1000 * 1000,
            divisions == 3 ==> limit == 1000 * 1000 * 1000 * 1000,
            divisions > 0 ==> amount > scale(divisions as nat),
            divisions as nat <= divisions_for(size as nat),
            divisions < 4 && amount <= limit ==> divisions == divisions_for(size as nat),
        decreases 4 - divisions,
    {
        proof {
            reveal_with_fuel(scale, 6);
        }
        limit = limit * 1000;
        divisions = divisions + 1;
    }
    let unit = match divisions {
        0 => Units::Byte,
        1 => Units::Mb,
        2 => Units::Kb,
        3 => Units::Gb,
        _ => Units::Tb,
    };
    SizeValue { bytes: size, divisions, unit }
}

} // verus!
