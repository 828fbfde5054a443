use vstd::prelude::*;
use vstd::string::StringExecFns;

verus! {

/// The two tables of the schema.
#[derive(Clone, Copy, Debug, PartialEq, Eq, Structural)]
pub enum Table {
    Bakery,
    Chef,
}

/// The name of a table, as it stands in SQL.
pub open spec fn table_name_spec(t: Table) -> Seq<char> {
    match t {
        Table::Bakery => "bakery"@,
        Table::Chef => "chef"@,
    }
}

/// The columns of a table, in declaration order. `id` is each table's
/// primary key; `chef.bakery_id` is the foreign key to `bakery.id`.
pub open spec fn columns_spec(t: Table) -> Seq<Seq<char>> {
    match t {
        Table::Bakery => seq!["id"@, "name"@, "profit_margin"@],
        Table::Chef => seq!["id"@, "name"@, "contact_details"@, "bakery_id"@],
    }
}

/// Whether `name` names a column of `t`.
pub open spec fn is_column_spec(t: Table, name: Seq<char>) -> bool {
    columns_spec(t).contains(name)
}

/// String equality against a literal.
fn str_eq(a: &String, b: &str) -> (r: bool)
    ensures
        r == (a@ == b@),
{
    *a == String::from_str(b)
}

impl Table {
    /// The table's name.
    pub fn name(&self) -> (r: &'static str)
        ensures
            r@ == table_name_spec(*self),
    {
        match self {
            Table::Bakery => "bakery",
            Table::Chef => "chef",
        }
    }

    /// The primary-key column, shared by both tables.
    pub fn primary_key(&self) -> (r: &'static str)
        ensures
            r@ == "id"@,
    {
        "id"
    }

    /// Checks a column name against the table's declaration.
    pub fn has_column(&self, name: &String) -> (r: bool)
        ensures
            r == is_column_spec(*self, name@),
    {
        let r = match self {
            Table::Bakery => str_eq(name, "id") || str_eq(name, "name") || str_eq(
                name,
                "profit_margin",
            ),
            Table::Chef => str_eq(name, "id") || str_eq(name, "name") || str_eq(
                name,
                "contact_details",
            ) || str_eq(name, "bakery_id"),
        };
        proof {
            let cols = columns_spec(*self);
            match *self {
                Table::Bakery => {
                    assert(cols[0] == "id"@ && cols[1] == "name"@ && cols[2] == "profit_margin"@);
                    if r {
                        assert(cols.contains(name@)) by {
                            if name@ == "id"@ {
                                assert(cols[0] == name@);
                            } else if name@ == "name"@ {
                                assert(cols[1] == name@);
                            } else {
                                assert(cols[2] == name@);
                            }
                        }
                    } else {
                        if cols.contains(name@) {
                            let i = choose|i: int| 0 <= i < cols.len() && cols[i] == name@;
                            assert(i == 0 || i == 1 || i == 2);
                        }
                    }
                },
                Table::Chef => {
                    assert(cols[0] == "id"@ && cols[1] == "name"@ && cols[2] == "contact_details"@
                        && cols[3] == "bakery_id"@);
                    if r {
                        assert(cols.contains(name@)) by {
                            if name@ == "id"@ {
                                assert(cols[0] == name@);
                            } else if name@ == "name"@ {
                                assert(cols[1] == name@);
                            } else if name@ == "contact_details"@ {
                                assert(cols[2] == name@);
                            } else {
                                assert(cols[3] == name@);
                            }
                        }
                    } else {
                        if cols.contains(name@) {
                            let i = choose|i: int| 0 <= i < cols.len() && cols[i] == name@;
                            assert(i == 0 || i == 1 || i == 2 || i == 3);
                        }
                    }
                },
            }
        }
        r
    }
}

} // verus!
