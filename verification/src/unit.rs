use vstd::prelude::*;
use crate::power::Power;
use crate::province::Province;
use crate::province::spec_code;

verus! {

/// An army (its marker).
#[derive(Debug, Clone, Copy, PartialEq, Eq, Structural)]
pub struct Army {}

/// A fleet (its marker).
#[derive(Debug, Clone, Copy, PartialEq, Eq, Structural)]
pub struct Fleet {}

/// The two kinds of unit.
#[derive(Debug, Clone, Copy, PartialEq, Eq, Structural)]
pub enum UnitKind {
    Army(Army),
    Fleet(Fleet),
}

/// A unit of a power on a province; `dislodged_from` is the province of the
/// attacker when the unit was dislodged by a unit that did not come by convoy.
#[derive(Debug, Clone, Copy, PartialEq, Eq, Structural)]
pub struct Unit {
    pub power: Power,
    pub province: Province,
    pub kind: UnitKind,
    pub dislodged_from: Option<Province>,
}

/// Letter of a unit kind (`"A"` or `"F"`).
pub open spec fn spec_kind_symbol(k: UnitKind) -> Seq<char> {
    match k {
        UnitKind::Army(_) => "A"@,
        UnitKind::Fleet(_) => "F"@,
    }
}

/// Label of a unit: its letter, a space and the code of its province.
pub open spec fn spec_unit_label(u: Unit) -> Seq<char> {
    spec_kind_symbol(u.kind) + " "@ + spec_code(u.province.index())
}

/// Whether two units are the same piece: same power, province and kind.
pub open spec fn same_piece(a: Unit, b: Unit) -> bool {
    a.power == b.power && a.province == b.province && a.kind == b.kind
}

impl Unit {
    /// A new army of `power` on `province`.
    pub fn new_army(power: Power, province: Province) -> (r: Unit)
        ensures
            r == (Unit { power, province, kind: UnitKind::Army(Army {  }), dislodged_from: None }),
    {
        Unit { power, province, kind: UnitKind::Army(Army {  }), dislodged_from: None }
    }

    /// A new fleet of `power` on `province`.
    pub fn new_fleet(power: Power, province: Province) -> (r: Unit)
        ensures
            r == (Unit { power, province, kind: UnitKind::Fleet(Fleet {  }), dislodged_from: None }),
    {
        Unit { power, province, kind: UnitKind::Fleet(Fleet {  }), dislodged_from: None }
    }

    /// The province where the unit stands.
    pub fn location(&self) -> (r: Province)
        ensures
            r == self.province,
    {
        self.province
    }

    /// The power that owns the unit.
    pub fn power(&self) -> (r: Power)
        ensures
            r == self.power,
    {
        self.power
    }

    /// Letter of the unit kind (`"A"` or `"F"`).
    pub fn symbol(&self) -> (r: &'static str)
        ensures
            r@ == spec_kind_symbol(self.kind),
    {
        match self.kind {
            UnitKind::Army(_) => "A",
            UnitKind::Fleet(_) => "F",
        }
    }

    /// Label of the unit, such as `"A par"`.
    pub fn label(&self) -> (r: String)
        ensures
            r@ == spec_unit_label(*self),
    {
        let mut s = String::from_str(self.symbol());
        s.append(" ");
        s.append(self.province.code());
        s
    }

    /// Whether the unit is an army.
    pub fn is_army(&self) -> (r: bool)
        ensures
            r == (self.kind is Army),
    {
        match self.kind {
            UnitKind::Army(_) => true,
            UnitKind::Fleet(_) => false,
        }
    }

    /// Whether the unit is a fleet.
    pub fn is_fleet(&self) -> (r: bool)
        ensures
            r == (self.kind is Fleet),
    {
        match self.kind {
            UnitKind::Army(_) => false,
            UnitKind::Fleet(_) => true,
        }
    }

    /// The same unit, dislodged by an attacker that came from `from`.
    pub fn dislodged_from(self, from: Province) -> (r: Unit)
        ensures
            r == (Unit { dislodged_from: Some(from), ..self }),
    {
        Unit { dislodged_from: Some(from), ..self }
    }

    /// The same unit, dislodged by an attacker that came by convoy (no province is barred to its retreat).
    pub fn dislodged_via_convoy(self) -> (r: Unit)
        ensures
            r == (Unit { dislodged_from: None, ..self }),
    {
        Unit { dislodged_from: None, ..self }
    }

    /// Whether `other` is the same piece as this unit (power, province and kind).
    pub fn same_piece(&self, other: &Unit) -> (r: bool)
        ensures
            r == same_piece(*self, *other),
    {
        proof {
            crate::province::lemma_index_injective(self.province, other.province);
        }
        self.power == other.power && self.province.id() == other.province.id() && self.is_army()
            == other.is_army()
    }
}

} // verus!
