//! The order of address ranges: by start address, then by end address.
use std::cmp::Ordering;
use vstd::prelude::*;

use crate::ip::{parse_ipv4, spec_ipv4};
use crate::network::IpRange;
use crate::text::string_from_chars;

verus! {

impl IpRange {
    /// The addresses of both ends, when both are addresses.
    pub open spec fn bounds(self) -> Option<(u32, u32)> {
        match (spec_ipv4(self.start@), spec_ipv4(self.end@)) {
            (Some(a), Some(b)) => Some((a, b)),
            _ => None,
        }
    }

    fn read_bounds(&self) -> (r: Option<(u32, u32)>)
        ensures
            r == self.bounds(),
    {
        match (parse_ipv4(self.start.as_str()), parse_ipv4(self.end.as_str())) {
            (Some(a), Some(b)) => Some((a, b)),
            _ => None,
        }
    }

    /// Whether both ends are IPv4 addresses and the start comes before the end.
    pub fn is_valid(&self) -> (b: bool)
        ensures
            b == crate::network::range_is_valid(*self),
    {
        match self.read_bounds() {
            Some((s, e)) => s < e,
            None => false,
        }
    }

    /// Compares two ranges: by start address, then end address; `Equal` when
    /// an end of either range is not an address.
    pub fn cmp(&self, other: &IpRange) -> (o: Ordering)
        ensures
            o == range_order(*self, *other),
    {
        match (self.read_bounds(), other.read_bounds()) {
            (Some((s1, e1)), Some((s2, e2))) => {
                if s1 < s2 {
                    Ordering::Less
                } else if s1 > s2 {
                    Ordering::Greater
                } else if e1 < e2 {
                    Ordering::Less
                } else if e1 > e2 {
                    Ordering::Greater
                } else {
                    Ordering::Equal
                }
            },
            _ => Ordering::Equal,
        }
    }

    /// `Some(self.cmp(other))`.
    pub fn partial_cmp(&self, other: &IpRange) -> (o: Option<Ordering>)
        ensures
            o == Some(range_order(*self, *other)),
    {
        Some(self.cmp(other))
    }

    /// The greater of two ranges; `other` when neither is greater.
    pub fn max(self, other: IpRange) -> (r: IpRange)
        ensures
            r == (if range_order(self, other) == Ordering::Greater {
                self
            } else {
                other
            }),
    {
        match self.cmp(&other) {
            Ordering::Greater => self,
            _ => other,
        }
    }

    /// The lesser of two ranges; `other` when neither is less.
    pub fn min(self, other: IpRange) -> (r: IpRange)
        ensures
            r == (if range_order(self, other) == Ordering::Less {
                self
            } else {
                other
            }),
    {
        match self.cmp(&other) {
            Ordering::Less => self,
            _ => other,
        }
    }

    /// `max` when `self` is greater than it, `min` when `self` is less than it,
    /// `self` otherwise.
    pub fn clamp(self, min: IpRange, max: IpRange) -> (r: IpRange)
        ensures
            r == (if range_order(self, max) == Ordering::Greater {
                max
            } else if range_order(self, min) == Ordering::Less {
                min
            } else {
                self
            }),
    {
        if let Ordering::Greater = self.cmp(&max) {
            max
        } else if let Ordering::Less = self.cmp(&min) {
            min
        } else {
            self
        }
    }
}

/// The order of two ranges.
pub open spec fn range_order(a: IpRange, b: IpRange) -> Ordering {
    match (a.bounds(), b.bounds()) {
        (Some((s1, e1)), Some((s2, e2))) => if s1 < s2 {
            Ordering::Less
        } else if s1 > s2 {
            Ordering::Greater
        } else if e1 < e2 {
            Ordering::Less
        } else if e1 > e2 {
            Ordering::Greater
        } else {
            Ordering::Equal
        },
        _ => Ordering::Equal,
    }
}

/// Two ranges that the range order puts at the same place.
pub open spec fn same_place(a: IpRange, b: IpRange) -> bool {
    range_order(a, b) == Ordering::Equal
}

impl IpRange {
    /// Whether the range order puts the two ranges at the same place.
    pub fn is_same_place(&self, other: &IpRange) -> (b: bool)
        ensures
            b == same_place(*self, *other),
    {
        match self.cmp(other) {
            Ordering::Equal => true,
            _ => false,
        }
    }
}

/// The opposite order.
pub open spec fn reversed(o: Ordering) -> Ordering {
    match o {
        Ordering::Less => Ordering::Greater,
        Ordering::Equal => Ordering::Equal,
        Ordering::Greater => Ordering::Less,
    }
}

/// Comparing in the other direction gives the opposite answer.
pub proof fn law_range_order_antisymmetric(a: IpRange, b: IpRange)
    ensures
        range_order(b, a) == reversed(range_order(a, b)),
{
}

/// Every range is equal to itself.
pub proof fn law_range_order_reflexive(a: IpRange)
    ensures
        range_order(a, a) == Ordering::Equal,
{
}

/// Among ranges whose ends are all addresses, the order is transitive.
pub proof fn law_range_order_transitive(a: IpRange, b: IpRange, c: IpRange)
    requires
        a.bounds() is Some,
        b.bounds() is Some,
        c.bounds() is Some,
        range_order(a, b) != Ordering::Greater,
        range_order(b, c) != Ordering::Greater,
    ensures
        range_order(a, c) != Ordering::Greater,
        range_order(a, b) == Ordering::Less || range_order(b, c) == Ordering::Less ==> range_order(
            a,
            c,
        ) == Ordering::Less,
{
}

/// Ranges that compare equal have the same end addresses.
pub proof fn law_range_order_equal_bounds(a: IpRange, b: IpRange)
    requires
        a.bounds() is Some,
        b.bounds() is Some,
        range_order(a, b) == Ordering::Equal,
    ensures
        a.bounds() == b.bounds(),
{
}

/// Ranges whose ends are addresses go by their start address, then by their
/// end address: the range starting lower comes first, and of two ranges
/// starting together the one ending lower does.
pub proof fn law_range_order_follows_addresses(a: IpRange, b: IpRange)
    requires
        a.bounds() is Some,
        b.bounds() is Some,
    ensures
        a.bounds().unwrap().0 < b.bounds().unwrap().0 ==> range_order(a, b) == Ordering::Less,
        (a.bounds().unwrap().0 == b.bounds().unwrap().0 && a.bounds().unwrap().1 < b.bounds().unwrap().1)
            ==> range_order(a, b) == Ordering::Less,
{
}

} // verus!