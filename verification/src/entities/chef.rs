use vstd::prelude::*;

verus! {

/// Mathematical view of a `chef` row.
pub struct ModelView {
    pub id: int,
    pub name: Seq<char>,
    pub contact_details: Option<Seq<char>>,
    pub bakery_id: int,
}

/// A `chef` row.
///
/// `id` is the primary key, assigned by the store on insert.
/// `contact_details` is a nullable text column; `bakery_id` is a required
/// foreign key naming the bakery the chef works for. Referential integrity
/// is the store's responsibility: the in-memory model does not check that
/// the bakery exists, and deleting a bakery leaves its chefs in place.
#[derive(Debug)]
pub struct Model {
    pub id: i32,
    pub name: String,
    pub contact_details: Option<String>,
    pub bakery_id: i32,
}

impl View for Model {
    type V = ModelView;

    open spec fn view(&self) -> ModelView {
        ModelView {
            id: self.id as int,
            name: self.name@,
            contact_details: match self.contact_details {
                Some(ref s) => Some(s@),
                None => None,
            },
            bakery_id: self.bakery_id as int,
        }
    }
}

impl DeepView for Model {
    type V = ModelView;

    open spec fn deep_view(&self) -> ModelView {
        self.view()
    }
}

impl Clone for Model {
    fn clone(&self) -> (r: Self)
        ensures
            r@ == self@,
    {
        Model {
            id: self.id,
            name: self.name.clone(),
            contact_details: match &self.contact_details {
                Some(s) => Some(s.clone()),
                None => None,
            },
            bakery_id: self.bakery_id,
        }
    }
}

impl PartialEq for Model {
    fn eq(&self, other: &Self) -> (r: bool) {
        self.id == other.id && self.name == other.name
            && (match (&self.contact_details, &other.contact_details) {
                (Some(a), Some(b)) => *a == *b,
                (None, None) => true,
                _ => false,
            }) && self.bakery_id == other.bakery_id
    }
}

impl vstd::std_specs::cmp::PartialEqSpecImpl for Model {
    open spec fn obeys_eq_spec() -> bool {
        true
    }

    open spec fn eq_spec(&self, other: &Self) -> bool {
        self@ == other@
    }
}

/// Mathematical view of a partial `chef` record.
pub struct ActiveModelView {
    pub name: Option<Seq<char>>,
    pub contact_details: Option<Option<Seq<char>>>,
    pub bakery_id: Option<i32>,
}

/// A partial `chef` record, as handed to insert and update.
///
/// Each field is explicitly marked set (`Some`) or unset (`None`). The
/// nullable `contact_details` column distinguishes "unset" (outer `None`)
/// from "explicitly null" (`Some(None)`). The primary key is not part of
/// the partial.
#[derive(Debug)]
pub struct ActiveModel {
    pub name: Option<String>,
    pub contact_details: Option<Option<String>>,
    pub bakery_id: Option<i32>,
}

impl View for ActiveModel {
    type V = ActiveModelView;

    open spec fn view(&self) -> ActiveModelView {
        ActiveModelView {
            name: match self.name {
                Some(ref s) => Some(s@),
                None => None,
            },
            contact_details: match self.contact_details {
                Some(Some(ref s)) => Some(Some(s@)),
                Some(None) => Some(None),
                None => None,
            },
            bakery_id: self.bakery_id,
        }
    }
}

impl Clone for ActiveModel {
    fn clone(&self) -> (r: Self)
        ensures
            r@ == self@,
    {
        ActiveModel {
            name: match &self.name {
                Some(s) => Some(s.clone()),
                None => None,
            },
            contact_details: match &self.contact_details {
                Some(Some(s)) => Some(Some(s.clone())),
                Some(None) => Some(None),
                None => None,
            },
            bakery_id: self.bakery_id,
        }
    }
}

impl ActiveModel {
    /// A wholly unset partial record.
    pub fn unset() -> (r: Self)
        ensures
            r@.name is None,
            r@.contact_details is None,
            r@.bakery_id is None,
    {
        ActiveModel { name: None, contact_details: None, bakery_id: None }
    }

    /// The partial the write API builds when creating a chef: the given
    /// name and bakery key set, the contact details left unset.
    pub fn with_name_and_bakery(name: String, bakery_id: i32) -> (r: Self)
        ensures
            r@.name == Some(name@),
            r@.contact_details is None,
            r@.bakery_id == Some(bakery_id),
    {
        ActiveModel { name: Some(name), contact_details: None, bakery_id: Some(bakery_id) }
    }

    /// Whether every field an insert requires is set: the name and the
    /// foreign key. The nullable contact column falls back to null.
    pub fn insertable(&self) -> (r: bool)
        ensures
            r == (self@.name is Some && self@.bakery_id is Some),
    {
        self.name.is_some() && self.bakery_id.is_some()
    }
}

/// Mathematical view of a chef filter.
pub enum FilterView {
    IdEq(i32),
    NameEq(Seq<char>),
    BakeryIdEq(i32),
}

/// A field-equals-literal predicate over chef rows: the minimal filter
/// language of the data-access layer. A lookup carries exactly one filter;
/// there is no conjunction or disjunction. Filtering by `BakeryIdEq` is
/// the relationship traversal from a bakery to its chefs.
#[derive(Debug)]
pub enum Filter {
    /// The primary key equals the literal.
    IdEq(i32),
    /// The name column equals the literal.
    NameEq(String),
    /// The foreign key to the owning bakery equals the literal.
    BakeryIdEq(i32),
}

impl View for Filter {
    type V = FilterView;

    open spec fn view(&self) -> FilterView {
        match self {
            Filter::IdEq(k) => FilterView::IdEq(*k),
            Filter::NameEq(n) => FilterView::NameEq(n@),
            Filter::BakeryIdEq(k) => FilterView::BakeryIdEq(*k),
        }
    }
}

/// Whether a row satisfies a filter.
pub open spec fn filter_matches(m: ModelView, f: FilterView) -> bool {
    match f {
        FilterView::IdEq(k) => m.id == k as int,
        FilterView::NameEq(n) => m.name == n,
        FilterView::BakeryIdEq(k) => m.bakery_id == k as int,
    }
}

/// The row an insert of the partial `am` creates under the store-assigned
/// key `id`: set fields keep their value, the unset nullable contact column
/// takes null.
pub open spec fn inserted_row(am: ActiveModelView, id: int) -> ModelView
    recommends
        am.name is Some,
        am.bakery_id is Some,
{
    ModelView {
        id: id,
        name: am.name.unwrap(),
        contact_details: match am.contact_details {
            Some(c) => c,
            None => None,
        },
        bakery_id: am.bakery_id.unwrap() as int,
    }
}

/// A partial update applied to an existing row: set fields overwrite, unset
/// fields leave the row's value unchanged, and the key never moves.
pub open spec fn apply_update(m: ModelView, am: ActiveModelView) -> ModelView {
    ModelView {
        id: m.id,
        name: match am.name {
            Some(n) => n,
            None => m.name,
        },
        contact_details: match am.contact_details {
            Some(c) => c,
            None => m.contact_details,
        },
        bakery_id: match am.bakery_id {
            Some(b) => b as int,
            None => m.bakery_id,
        },
    }
}

} // verus!
