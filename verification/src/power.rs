use vstd::prelude::*;
use crate::text::str_eq;

verus! {

/// The seven great powers of the standard map.
#[derive(Debug, Clone, Copy, PartialEq, Eq, Hash, Structural)]
pub enum Power {
    Austria,
    England,
    France,
    Germany,
    Italy,
    Russia,
    Turkey,
}

/// Position of a power in the canonical order (Austria first, Turkey last).
pub open spec fn power_index(p: Power) -> int {
    match p {
        Power::Austria => 0,
        Power::England => 1,
        Power::France => 2,
        Power::Germany => 3,
        Power::Italy => 4,
        Power::Russia => 5,
        Power::Turkey => 6,
    }
}

/// The power at a position of the canonical order.
pub open spec fn power_at(i: int) -> Power {
    if i == 0 {
        Power::Austria
    } else if i == 1 {
        Power::England
    } else if i == 2 {
        Power::France
    } else if i == 3 {
        Power::Germany
    } else if i == 4 {
        Power::Italy
    } else if i == 5 {
        Power::Russia
    } else {
        Power::Turkey
    }
}

/// One-letter symbol of a power.
pub open spec fn spec_symbol(p: Power) -> Seq<char> {
    match p {
        Power::Austria => "a"@,
        Power::England => "e"@,
        Power::France => "f"@,
        Power::Germany => "g"@,
        Power::Italy => "i"@,
        Power::Russia => "r"@,
        Power::Turkey => "t"@,
    }
}

/// Adjective of a power.
pub open spec fn spec_adjective(p: Power) -> Seq<char> {
    match p {
        Power::Austria => "Austrian"@,
        Power::England => "English"@,
        Power::France => "French"@,
        Power::Germany => "German"@,
        Power::Italy => "Italian"@,
        Power::Russia => "Russian"@,
        Power::Turkey => "Turkish"@,
    }
}

/// Name of a power.
pub open spec fn spec_name(p: Power) -> Seq<char> {
    match p {
        Power::Austria => "Austria"@,
        Power::England => "England"@,
        Power::France => "France"@,
        Power::Germany => "Germany"@,
        Power::Italy => "Italy"@,
        Power::Russia => "Russia"@,
        Power::Turkey => "Turkey"@,
    }
}

/// The power whose name is `s`, if there is one.
pub open spec fn power_named(s: Seq<char>) -> Option<Power> {
    if s == "Austria"@ {
        Some(Power::Austria)
    } else if s == "England"@ {
        Some(Power::England)
    } else if s == "France"@ {
        Some(Power::France)
    } else if s == "Germany"@ {
        Some(Power::Germany)
    } else if s == "Italy"@ {
        Some(Power::Italy)
    } else if s == "Russia"@ {
        Some(Power::Russia)
    } else if s == "Turkey"@ {
        Some(Power::Turkey)
    } else {
        None
    }
}

impl Power {
    /// All powers, in the canonical order.
    pub fn all() -> (r: Vec<Power>)
        ensures
            r@.len() == 7,
            forall|i: int| 0 <= i < 7 ==> #[trigger] r@[i] == power_at(i),
    {
        let mut r: Vec<Power> = Vec::new();
        r.push(Power::Austria);
        r.push(Power::England);
        r.push(Power::France);
        r.push(Power::Germany);
        r.push(Power::Italy);
        r.push(Power::Russia);
        r.push(Power::Turkey);
        r
    }

    /// Position of the power in the canonical order.
    pub fn index(&self) -> (r: usize)
        ensures
            r == power_index(*self),
            r < 7,
    {
        match self {
            Power::Austria => 0,
            Power::England => 1,
            Power::France => 2,
            Power::Germany => 3,
            Power::Italy => 4,
            Power::Russia => 5,
            Power::Turkey => 6,
        }
    }

    /// Number of the power in stored records: 1 for Austria up to 7 for Turkey.
    pub fn id(&self) -> (r: i64)
        ensures
            r == power_index(*self) + 1,
    {
        match self {
            Power::Austria => 1,
            Power::England => 2,
            Power::France => 3,
            Power::Germany => 4,
            Power::Italy => 5,
            Power::Russia => 6,
            Power::Turkey => 7,
        }
    }

    /// The power whose record number is `id` (1 for Austria up to 7 for Turkey).
    pub fn from_id(id: i64) -> (r: Power)
        requires
            1 <= id <= 7,
        ensures
            power_index(r) + 1 == id,
    {
        if id == 1 {
            Power::Austria
        } else if id == 2 {
            Power::England
        } else if id == 3 {
            Power::France
        } else if id == 4 {
            Power::Germany
        } else if id == 5 {
            Power::Italy
        } else if id == 6 {
            Power::Russia
        } else {
            Power::Turkey
        }
    }

    /// The power with the name `name` (`"Austria"`, ...), if there is one.
    pub fn from_name(name: &str) -> (r: Option<Power>)
        ensures
            r == power_named(name@),
    {
        if str_eq(name, "Austria") {
            Some(Power::Austria)
        } else if str_eq(name, "England") {
            Some(Power::England)
        } else if str_eq(name, "France") {
            Some(Power::France)
        } else if str_eq(name, "Germany") {
            Some(Power::Germany)
        } else if str_eq(name, "Italy") {
            Some(Power::Italy)
        } else if str_eq(name, "Russia") {
            Some(Power::Russia)
        } else if str_eq(name, "Turkey") {
            Some(Power::Turkey)
        } else {
            None
        }
    }

    /// One-letter symbol of the power (`"a"` for Austria, ...).
    pub fn symbol(&self) -> (r: &'static str)
        ensures
            r@ == spec_symbol(*self),
    {
        match self {
            Power::Austria => "a",
            Power::England => "e",
            Power::France => "f",
            Power::Germany => "g",
            Power::Italy => "i",
            Power::Russia => "r",
            Power::Turkey => "t",
        }
    }

    /// Adjective of the power (`"Austrian"`, ...).
    pub fn adjective(&self) -> (r: &'static str)
        ensures
            r@ == spec_adjective(*self),
    {
        match self {
            Power::Austria => "Austrian",
            Power::England => "English",
            Power::France => "French",
            Power::Germany => "German",
            Power::Italy => "Italian",
            Power::Russia => "Russian",
            Power::Turkey => "Turkish",
        }
    }

    /// Name of the power (`"Austria"`, ...).
    pub fn name(&self) -> (r: String)
        ensures
            r@ == spec_name(*self),
    {
        let s: &str = match self {
            Power::Austria => "Austria",
            Power::England => "England",
            Power::France => "France",
            Power::Germany => "Germany",
            Power::Italy => "Italy",
            Power::Russia => "Russia",
            Power::Turkey => "Turkey",
        };
        String::from_str(s)
    }
}

/// The canonical order lists every power once: each power is found at its
/// own position, and two positions hold different powers.
pub proof fn law_canonical_order(p: Power, i: int, j: int)
    ensures
        0 <= power_index(p) < 7,
        power_at(power_index(p)) == p,
        0 <= i < j < 7 ==> power_at(i) != power_at(j),
{
}

/// The name of a power reads back as that power, and the record number of a
/// power gives back that power.
pub proof fn law_power_round_trip(p: Power)
    ensures
        power_named(spec_name(p)) == Some(p),
        power_at(power_index(p)) == p,
{
    reveal_strlit("Austria");
    reveal_strlit("England");
    reveal_strlit("France");
    reveal_strlit("Germany");
    reveal_strlit("Italy");
    reveal_strlit("Russia");
    reveal_strlit("Turkey");
    match p {
        Power::Austria => {},
        Power::England => {
            assert("England"@[0] != "Austria"@[0]);
        },
        Power::France => {
            assert("France"@.len() != "Austria"@.len());
            assert("France"@.len() != "England"@.len());
        },
        Power::Germany => {
            assert("Germany"@[0] != "Austria"@[0]);
            assert("Germany"@[0] != "England"@[0]);
            assert("Germany"@.len() != "France"@.len());
        },
        Power::Italy => {
            assert("Italy"@.len() != "Austria"@.len());
            assert("Italy"@.len() != "England"@.len());
            assert("Italy"@.len() != "France"@.len());
            assert("Italy"@.len() != "Germany"@.len());
        },
        Power::Russia => {
            assert("Russia"@.len() != "Austria"@.len());
            assert("Russia"@.len() != "England"@.len());
            assert("Russia"@[0] != "France"@[0]);
            assert("Russia"@.len() != "Germany"@.len());
            assert("Russia"@.len() != "Italy"@.len());
        },
        Power::Turkey => {
            assert("Turkey"@.len() != "Austria"@.len());
            assert("Turkey"@.len() != "England"@.len());
            assert("Turkey"@[0] != "France"@[0]);
            assert("Turkey"@.len() != "Germany"@.len());
            assert("Turkey"@.len() != "Italy"@.len());
            assert("Turkey"@[0] != "Russia"@[0]);
        },
    }
}

} // verus!
