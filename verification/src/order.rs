use vstd::prelude::*;
use crate::power::Power;
use crate::province::Province;
use crate::province::spec_code;
use crate::unit::Unit;
use crate::unit::same_piece;
use crate::unit::spec_unit_label;

verus! {

/// The state of an order in the course of its resolution.
#[derive(Debug, Clone, Copy, PartialEq, Eq, Structural)]
pub enum OrderStatus {
    Unresolved,
    Valid,
    Invalid,
    Success,
    Failure,
    Cut,
    Dislodged,
    Unreachable,
}

/// A move to `dest`.
#[derive(Debug, Clone, Copy, PartialEq, Eq, Structural)]
pub struct MoveOrder {
    pub dest: Province,
}

/// A support of `target`: to hold when `target_dest` is `None`, else to move there.
#[derive(Debug, Clone, Copy, PartialEq, Eq, Structural)]
pub struct SupportOrder {
    pub target: Unit,
    pub target_dest: Option<Province>,
}

/// A convoy of the army `target` to `target_dest`.
#[derive(Debug, Clone, Copy, PartialEq, Eq, Structural)]
pub struct ConvoyOrder {
    pub target: Unit,
    pub target_dest: Province,
}

/// A retreat to `dest`.
#[derive(Debug, Clone, Copy, PartialEq, Eq, Structural)]
pub struct RetreatOrder {
    pub dest: Province,
}

/// What an order tells its unit to do.
#[derive(Debug, Clone, Copy, PartialEq, Eq, Structural)]
pub enum OrderKind {
    Hold,
    Move(MoveOrder),
    Support(SupportOrder),
    Convoy(ConvoyOrder),
    Retreat(RetreatOrder),
    Build,
    Disband,
}

/// An order given by `power` to `unit`.  When `power` does not own the unit
/// the order is only assumed and takes no part in the resolution.
#[derive(Debug, Clone, Copy, PartialEq, Eq, Structural)]
pub struct Order {
    pub power: Power,
    pub unit: Unit,
    pub kind: OrderKind,
    pub status: OrderStatus,
    pub dislodged_from: Option<Province>,
}

/// An unresolved order of the owner of `unit`.
pub open spec fn new_order(unit: Unit, kind: OrderKind) -> Order {
    Order { power: unit.power, unit, kind, status: OrderStatus::Unresolved, dislodged_from: None }
}

/// Whether the order was given by a power that does not own the unit.
pub open spec fn spec_is_assumed(o: Order) -> bool {
    o.power != o.unit.power
}

/// Whether `target` is the order that the support or convoy `o` refers to.
pub open spec fn spec_matching_target(o: Order, target: Order) -> bool {
    match o.kind {
        OrderKind::Support(s) => same_piece(s.target, target.unit) && match s.target_dest {
            Some(d) => target.kind matches OrderKind::Move(m) && m.dest == d,
            None => !(target.kind is Move),
        },
        OrderKind::Convoy(c) => same_piece(c.target, target.unit) && (
        target.kind matches OrderKind::Move(m) && m.dest == c.target_dest),
        _ => false,
    }
}

/// Text of an order, such as `"A par - bur"` or `"Remove A par"`.
pub open spec fn spec_order_text(o: Order) -> Seq<char> {
    match o.kind {
        OrderKind::Hold => spec_unit_label(o.unit) + " Hold"@,
        OrderKind::Move(m) => spec_unit_label(o.unit) + " - "@ + spec_code(m.dest.index()),
        OrderKind::Support(s) => match s.target_dest {
            Some(d) => spec_unit_label(o.unit) + " Support "@ + spec_unit_label(s.target) + " - "@
                + spec_code(d.index()),
            None => spec_unit_label(o.unit) + " Support "@ + spec_unit_label(s.target),
        },
        OrderKind::Convoy(c) => spec_unit_label(o.unit) + " Convoy "@ + spec_unit_label(c.target)
            + " - "@ + spec_code(c.target_dest.index()),
        OrderKind::Retreat(r) => spec_unit_label(o.unit) + " Retreat "@ + spec_code(r.dest.index()),
        OrderKind::Build => "Build "@ + spec_unit_label(o.unit),
        OrderKind::Disband => "Remove "@ + spec_unit_label(o.unit),
    }
}

impl Unit {
    /// Order: hold.
    pub fn hold(&self) -> (r: Order)
        ensures
            r == new_order(*self, OrderKind::Hold),
    {
        Order {
            power: self.power,
            unit: *self,
            kind: OrderKind::Hold,
            status: OrderStatus::Unresolved,
            dislodged_from: None,
        }
    }

    /// Order: move to `dest`.
    pub fn move_to(&self, dest: Province) -> (r: Order)
        ensures
            r == new_order(*self, OrderKind::Move(MoveOrder { dest })),
    {
        Order {
            power: self.power,
            unit: *self,
            kind: OrderKind::Move(MoveOrder { dest }),
            status: OrderStatus::Unresolved,
            dislodged_from: None,
        }
    }

    /// Order: support `target` to hold.
    pub fn support_hold(&self, target: Unit) -> (r: Order)
        ensures
            r == new_order(*self, OrderKind::Support(SupportOrder { target, target_dest: None })),
    {
        Order {
            power: self.power,
            unit: *self,
            kind: OrderKind::Support(SupportOrder { target, target_dest: None }),
            status: OrderStatus::Unresolved,
            dislodged_from: None,
        }
    }

    /// Order: support `target` moving to `dest`.
    pub fn support_move(&self, target: Unit, dest: Province) -> (r: Order)
        ensures
            r == new_order(
                *self,
                OrderKind::Support(SupportOrder { target, target_dest: Some(dest) }),
            ),
    {
        Order {
            power: self.power,
            unit: *self,
            kind: OrderKind::Support(SupportOrder { target, target_dest: Some(dest) }),
            status: OrderStatus::Unresolved,
            dislodged_from: None,
        }
    }

    /// Order: convoy the army `target` to `dest`.
    pub fn convoy(&self, target: Unit, dest: Province) -> (r: Order)
        ensures
            r == new_order(*self, OrderKind::Convoy(ConvoyOrder { target, target_dest: dest })),
    {
        Order {
            power: self.power,
            unit: *self,
            kind: OrderKind::Convoy(ConvoyOrder { target, target_dest: dest }),
            status: OrderStatus::Unresolved,
            dislodged_from: None,
        }
    }

    /// Order: retreat to `dest`.
    pub fn retreat_to(&self, dest: Province) -> (r: Order)
        ensures
            r == new_order(*self, OrderKind::Retreat(RetreatOrder { dest })),
    {
        Order {
            power: self.power,
            unit: *self,
            kind: OrderKind::Retreat(RetreatOrder { dest }),
            status: OrderStatus::Unresolved,
            dislodged_from: None,
        }
    }

    /// Order: build this unit.
    pub fn build(&self) -> (r: Order)
        ensures
            r == new_order(*self, OrderKind::Build),
    {
        Order {
            power: self.power,
            unit: *self,
            kind: OrderKind::Build,
            status: OrderStatus::Unresolved,
            dislodged_from: None,
        }
    }

    /// Order: remove this unit.
    pub fn disband(&self) -> (r: Order)
        ensures
            r == new_order(*self, OrderKind::Disband),
    {
        Order {
            power: self.power,
            unit: *self,
            kind: OrderKind::Disband,
            status: OrderStatus::Unresolved,
            dislodged_from: None,
        }
    }
}

impl Order {
    /// The same order, as given by `power` instead of the owner.
    pub fn assumed_by(self, power: Power) -> (r: Order)
        ensures
            r == (Order { power, ..self }),
    {
        Order { power, ..self }
    }

    /// Whether the order was given by a power that does not own the unit.
    pub fn is_assumed(&self) -> (r: bool)
        ensures
            r == spec_is_assumed(*self),
    {
        self.power != self.unit.power
    }

    /// The province of the ordered unit.
    pub fn location(&self) -> (r: Province)
        ensures
            r == self.unit.province,
    {
        self.unit.province
    }

    /// Whether the order is still unresolved.
    pub fn is_unresolved(&self) -> (r: bool)
        ensures
            r == (self.status == OrderStatus::Unresolved),
    {
        self.status == OrderStatus::Unresolved
    }

    /// Whether the order was found valid.
    pub fn is_valid(&self) -> (r: bool)
        ensures
            r == (self.status == OrderStatus::Valid),
    {
        self.status == OrderStatus::Valid
    }

    /// Whether the order was found invalid.
    pub fn is_invalid(&self) -> (r: bool)
        ensures
            r == (self.status == OrderStatus::Invalid),
    {
        self.status == OrderStatus::Invalid
    }

    /// Whether the order succeeded.
    pub fn is_success(&self) -> (r: bool)
        ensures
            r == (self.status == OrderStatus::Success),
    {
        self.status == OrderStatus::Success
    }

    /// Whether the order failed.
    pub fn is_failure(&self) -> (r: bool)
        ensures
            r == (self.status == OrderStatus::Failure),
    {
        self.status == OrderStatus::Failure
    }

    /// Whether the support was cut.
    pub fn is_cut(&self) -> (r: bool)
        ensures
            r == (self.status == OrderStatus::Cut),
    {
        self.status == OrderStatus::Cut
    }

    /// Whether the ordered unit was dislodged.
    pub fn is_dislodged(&self) -> (r: bool)
        ensures
            r == (self.status == OrderStatus::Dislodged),
    {
        self.status == OrderStatus::Dislodged
    }

    /// Whether the move could not reach its destination (its convoy failed).
    pub fn is_unreachable(&self) -> (r: bool)
        ensures
            r == (self.status == OrderStatus::Unreachable),
    {
        self.status == OrderStatus::Unreachable
    }

    /// Sets the status.
    pub fn set_status(&mut self, status: OrderStatus)
        ensures
            *final(self) == (Order { status, ..*old(self) }),
    {
        self.status = status;
    }

    /// Marks the order valid.
    pub fn set_valid(&mut self)
        ensures
            *final(self) == (Order { status: OrderStatus::Valid, ..*old(self) }),
    {
        self.status = OrderStatus::Valid;
    }

    /// Marks the order invalid.
    pub fn set_invalid(&mut self)
        ensures
            *final(self) == (Order { status: OrderStatus::Invalid, ..*old(self) }),
    {
        self.status = OrderStatus::Invalid;
    }

    /// Marks the order successful.
    pub fn set_success(&mut self)
        ensures
            *final(self) == (Order { status: OrderStatus::Success, ..*old(self) }),
    {
        self.status = OrderStatus::Success;
    }

    /// Marks the order failed.
    pub fn set_failure(&mut self)
        ensures
            *final(self) == (Order { status: OrderStatus::Failure, ..*old(self) }),
    {
        self.status = OrderStatus::Failure;
    }

    /// Marks the support cut.
    pub fn set_cut(&mut self)
        ensures
            *final(self) == (Order { status: OrderStatus::Cut, ..*old(self) }),
    {
        self.status = OrderStatus::Cut;
    }

    /// Whether `other` is the order that this support or convoy refers to.
    pub fn is_matching_target(&self, other: &Order) -> (r: bool)
        ensures
            r == spec_matching_target(*self, *other),
    {
        match self.kind {
            OrderKind::Support(s) => {
                if !s.target.same_piece(&other.unit) {
                    return false;
                }
                match s.target_dest {
                    Some(d) => match other.kind {
                        OrderKind::Move(m) => m.dest == d,
                        _ => false,
                    },
                    None => match other.kind {
                        OrderKind::Move(_) => false,
                        _ => true,
                    },
                }
            },
            OrderKind::Convoy(c) => {
                if !c.target.same_piece(&other.unit) {
                    return false;
                }
                match other.kind {
                    OrderKind::Move(m) => m.dest == c.target_dest,
                    _ => false,
                }
            },
            _ => false,
        }
    }

    /// Text of the order, such as `"A par - bur"` or `"Remove A par"`.
    pub fn to_string(&self) -> (r: String)
        ensures
            r@ == spec_order_text(*self),
    {
        match self.kind {
            OrderKind::Hold => self.unit.label().concat(" Hold"),
            OrderKind::Move(m) => self.unit.label().concat(" - ").concat(m.dest.code()),
            OrderKind::Support(s) => match s.target_dest {
                Some(d) => self.unit.label().concat(" Support ").concat(
                    s.target.label().as_str(),
                ).concat(" - ").concat(d.code()),
                None => self.unit.label().concat(" Support ").concat(s.target.label().as_str()),
            },
            OrderKind::Convoy(c) => self.unit.label().concat(" Convoy ").concat(
                c.target.label().as_str(),
            ).concat(" - ").concat(c.target_dest.code()),
            OrderKind::Retreat(rt) => self.unit.label().concat(" Retreat ").concat(rt.dest.code()),
            OrderKind::Build => String::from_str("Build ").concat(self.unit.label().as_str()),
            OrderKind::Disband => String::from_str("Remove ").concat(self.unit.label().as_str()),
        }
    }
}

} // verus!
