//! Carry propagation: what a delta does to one unit of the mixed-radix
//! chain, and how much of it passes into the next larger unit.
//!
//! Quotient and remainder are those of floor division, so that a negative
//! total borrows from the larger unit: the value always lies in
//! `0..modulus`, and `value + carry * modulus` is the total.
use vstd::prelude::*;
use crate::calendar::{days_in_month, month_days, month_label, month_name, MONTHS_IN_YEAR};

verus! {

/// The outcome of adding a delta to one unit.
pub enum AddEnum {
    /// The total stayed inside the unit: the new value and its label.
    SameUnit(u16, Option<String>),
    /// The total left the unit: the wrapped value, the carry into the next
    /// larger unit (negative when it borrows), and the label.
    NextUnit(u16, i16, Option<String>),
}

impl AddEnum {
    /// The unit's new value.
    pub open spec fn value(self) -> int {
        match self {
            AddEnum::SameUnit(value, _) => value as int,
            AddEnum::NextUnit(value, _, _) => value as int,
        }
    }

    /// The amount that passes into the next larger unit; none where the
    /// total stayed inside the unit.
    pub open spec fn carry(self) -> int {
        match self {
            AddEnum::SameUnit(_, _) => 0,
            AddEnum::NextUnit(_, carry, _) => carry as int,
        }
    }

    /// The derived label, as text.
    pub open spec fn label(self) -> Option<Seq<char>> {
        match self {
            AddEnum::SameUnit(_, Some(label)) => Some(label@),
            AddEnum::NextUnit(_, _, Some(label)) => Some(label@),
            _ => None,
        }
    }
}

/// The value that a total leaves in a unit of the given modulus.
pub open spec fn wrapped_value(total: int, modulus: int) -> int {
    total % modulus
}

/// The number of whole moduli in a total, rounded toward minus infinity.
pub open spec fn carry_amount(total: int, modulus: int) -> int {
    total / modulus
}

/// The label that goes with a value: the name of the month with that
/// number where the unit is the month, none elsewhere and for a value that
/// numbers no month.
pub open spec fn label_of(value: int, modulus: int) -> Option<Seq<char>> {
    if modulus == 12 && 1 <= value <= 12 {
        Some(month_name(value))
    } else {
        None
    }
}

/// Quotient and remainder of floor division by a positive modulus.
fn floor_split(total: i32, modulus: i32) -> (parts: (i32, i32))
    requires
        modulus > 0,
        -70000 <= total <= 70000,
    ensures
        parts.0 == carry_amount(total as int, modulus as int),
        parts.1 == wrapped_value(total as int, modulus as int),
        0 <= parts.1 < modulus,
{
    if total >= 0 {
        (total / modulus, total % modulus)
    } else {
        let below: i32 = -total;
        let whole: i32 = below / modulus;
        let rest: i32 = below % modulus;
        proof {
            assert(below == whole * modulus + rest) by (nonlinear_arith)
                requires
                    whole == below / modulus,
                    rest == below % modulus,
                    modulus > 0,
            ;
            assert(0 <= whole <= below) by (nonlinear_arith)
                requires
                    whole == below / modulus,
                    modulus > 0,
                    below >= 0,
            ;
        }
        if rest == 0 {
            proof {
                assert(total == (-(whole as int)) * modulus + 0) by (nonlinear_arith)
                    requires
                        below == whole * modulus + rest,
                        rest == 0,
                        below == -total,
                ;
                vstd::arithmetic::div_mod::lemma_fundamental_div_mod_converse(
                    total as int,
                    modulus as int,
                    -(whole as int),
                    0,
                );
            }
            (-whole, 0)
        } else {
            proof {
                assert(total == (-(whole as int) - 1) * modulus + (modulus - rest))
                    by (nonlinear_arith)
                    requires
                        below == whole * modulus + rest,
                        below == -total,
                ;
                vstd::arithmetic::div_mod::lemma_fundamental_div_mod_converse(
                    total as int,
                    modulus as int,
                    -(whole as int) - 1,
                    modulus - rest,
                );
            }
            (-whole - 1, modulus - rest)
        }
    }
}

/// Adds `time_to_add` to `current_value` in a unit whose values run from
/// zero up to, but not including, `unit_modulus`.
///
/// A total inside that span stays in the unit. Any other total is wrapped
/// into it and the whole moduli are handed on as the carry. Where the
/// modulus is that of the month unit, the result is labelled with the name
/// of the month that the value numbers.
pub fn add_helper(current_value: i16, time_to_add: i16, unit_modulus: i16) -> (outcome: AddEnum)
    requires
        unit_modulus > 0,
        unit_modulus == 1 ==> i16::MIN <= current_value + time_to_add <= i16::MAX,
    ensures
        outcome is SameUnit <==> 0 <= current_value + time_to_add < unit_modulus,
        outcome.value() == wrapped_value(current_value + time_to_add, unit_modulus as int),
        outcome.carry() == carry_amount(current_value + time_to_add, unit_modulus as int),
        outcome.label() == label_of(outcome.value(), unit_modulus as int),
{
    let total: i32 = current_value as i32 + time_to_add as i32;
    let modulus: i32 = unit_modulus as i32;
    let (carry, value) = floor_split(total, modulus);
    proof {
        assert(total == carry * modulus + value) by {
            vstd::arithmetic::div_mod::lemma_fundamental_div_mod(total as int, modulus as int);
            assert(modulus * carry == carry * modulus) by (nonlinear_arith);
        }
        assert(i16::MIN <= carry <= i16::MAX) by (nonlinear_arith)
            requires
                total == carry * modulus + value,
                0 <= value < modulus,
                -65536 <= total <= 65535,
                modulus >= 2 || (modulus == 1 && -32768 <= total <= 32767),
        ;
        assert(carry == 0 <==> 0 <= total < modulus) by (nonlinear_arith)
            requires
                total == carry * modulus + value,
                0 <= value < modulus,
        ;
    }
    let label: Option<String> = if unit_modulus == MONTHS_IN_YEAR && 1 <= value {
        Some(month_label(value as u8))
    } else {
        None
    };
    if carry == 0 {
        AddEnum::SameUnit(value as u16, label)
    } else {
        AddEnum::NextUnit(value as u16, carry as i16, label)
    }
}

/// Adds `time_to_add` to a day of the month. The modulus is the length of
/// the month with the one-based number `current_month_index`, February
/// being a day longer in a leap year.
pub fn add_day_helper(
    current_day: i16,
    time_to_add: i16,
    current_month_index: i8,
    is_leap_year: bool,
) -> (outcome: AddEnum)
    requires
        1 <= current_month_index <= 12,
    ensures
        outcome is SameUnit <==> 0 <= current_day + time_to_add < days_in_month(
            current_month_index as int,
            is_leap_year,
        ),
        outcome.value() == wrapped_value(
            current_day + time_to_add,
            days_in_month(current_month_index as int, is_leap_year),
        ),
        outcome.carry() == carry_amount(
            current_day + time_to_add,
            days_in_month(current_month_index as int, is_leap_year),
        ),
        outcome.label() is None,
{
    let total: i32 = current_day as i32 + time_to_add as i32;
    let modulus: i32 = month_days(current_month_index as u8, is_leap_year) as i32;
    let (carry, value) = floor_split(total, modulus);
    proof {
        assert(total == carry * modulus + value) by {
            vstd::arithmetic::div_mod::lemma_fundamental_div_mod(total as int, modulus as int);
            assert(modulus * carry == carry * modulus) by (nonlinear_arith);
        }
        assert(i16::MIN <= carry <= i16::MAX) by (nonlinear_arith)
            requires
                total == carry * modulus + value,
                0 <= value < modulus,
                -65536 <= total <= 65535,
                modulus >= 28,
        ;
        assert(carry == 0 <==> 0 <= total < modulus) by (nonlinear_arith)
            requires
                total == carry * modulus + value,
                0 <= value < modulus,
        ;
    }
    if carry == 0 {
        AddEnum::SameUnit(value as u16, None)
    } else {
        AddEnum::NextUnit(value as u16, carry as i16, None)
    }
}

} // verus!
