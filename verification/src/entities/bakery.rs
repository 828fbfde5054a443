use vstd::prelude::*;

verus! {

/// The bit pattern of the floating-point zero that the store writes into
/// `profit_margin` when an insert leaves the field unset.
pub const DEFAULT_PROFIT_MARGIN_BITS: u64 = 0;

/// Mathematical view of a `bakery` row.
pub struct ModelView {
    pub id: int,
    pub name: Seq<char>,
    pub profit_margin_bits: u64,
}

/// A `bakery` row.
///
/// `id` is the primary key, assigned by the store on insert. The store's
/// `profit_margin` column is floating point; the verified core carries it
/// untouched as its IEEE-754 bit pattern (`profit_margin_bits`), and the
/// unverified boundary converts at the edge. Record equality is full
/// structural equality over all three fields.
#[derive(Debug)]
pub struct Model {
    pub id: i32,
    pub name: String,
    pub profit_margin_bits: u64,
}

impl View for Model {
    type V = ModelView;

    open spec fn view(&self) -> ModelView {
        ModelView {
            id: self.id as int,
            name: self.name@,
            profit_margin_bits: self.profit_margin_bits,
        }
    }
}

impl DeepView for Model {
    type V = ModelView;

    open spec fn deep_view(&self) -> ModelView {
        self.view()
    }
}

impl Clone for Model {
    fn clone(&self) -> (r: Self)
        ensures
            r@ == self@,
    {
        Model {
            id: self.id,
            name: self.name.clone(),
            profit_margin_bits: self.profit_margin_bits,
        }
    }
}

impl PartialEq for Model {
    fn eq(&self, other: &Self) -> (r: bool) {
        self.id == other.id && self.name == other.name
            && self.profit_margin_bits == other.profit_margin_bits
    }
}

impl vstd::std_specs::cmp::PartialEqSpecImpl for Model {
    open spec fn obeys_eq_spec() -> bool {
        true
    }

    open spec fn eq_spec(&self, other: &Self) -> bool {
        self@ == other@
    }
}

/// Mathematical view of a partial `bakery` record.
pub struct ActiveModelView {
    pub name: Option<Seq<char>>,
    pub profit_margin_bits: Option<u64>,
}

/// A partial `bakery` record, as handed to insert and update.
///
/// Each field is explicitly marked set (`Some`) or unset (`None`); an unset
/// field is *not provided*, never "provided as empty". The primary key is
/// not part of the partial: inserts receive their key from the store, and
/// updates address their row through a separate key argument.
#[derive(Debug)]
pub struct ActiveModel {
    pub name: Option<String>,
    pub profit_margin_bits: Option<u64>,
}

impl View for ActiveModel {
    type V = ActiveModelView;

    open spec fn view(&self) -> ActiveModelView {
        ActiveModelView {
            name: match self.name {
                Some(ref s) => Some(s@),
                None => None,
            },
            profit_margin_bits: self.profit_margin_bits,
        }
    }
}

impl Clone for ActiveModel {
    fn clone(&self) -> (r: Self)
        ensures
            r@ == self@,
    {
        ActiveModel {
            name: match &self.name {
                Some(s) => Some(s.clone()),
                None => None,
            },
            profit_margin_bits: self.profit_margin_bits,
        }
    }
}

impl ActiveModel {
    /// A wholly unset partial record.
    pub fn unset() -> (r: Self)
        ensures
            r@.name is None,
            r@.profit_margin_bits is None,
    {
        ActiveModel { name: None, profit_margin_bits: None }
    }

    /// The partial the write API builds when creating a bakery: the given
    /// name, and the profit margin explicitly set to the floating zero.
    pub fn with_name(name: String) -> (r: Self)
        ensures
            r@.name == Some(name@),
            r@.profit_margin_bits == Some(DEFAULT_PROFIT_MARGIN_BITS),
    {
        ActiveModel { name: Some(name), profit_margin_bits: Some(DEFAULT_PROFIT_MARGIN_BITS) }
    }

    /// Whether every field an insert requires is set. The name is the only
    /// required field: the profit margin falls back to the store default.
    pub fn insertable(&self) -> (r: bool)
        ensures
            r == self@.name is Some,
    {
        self.name.is_some()
    }
}

/// The row an insert of the partial `am` creates under the store-assigned
/// key `id`: set fields keep their value, the unset profit margin takes the
/// store's column default.
pub open spec fn inserted_row(am: ActiveModelView, id: int) -> ModelView
    recommends
        am.name is Some,
{
    ModelView {
        id: id,
        name: am.name.unwrap(),
        profit_margin_bits: match am.profit_margin_bits {
            Some(b) => b,
            None => DEFAULT_PROFIT_MARGIN_BITS,
        },
    }
}

/// A partial update applied to an existing row: set fields overwrite, unset
/// fields leave the row's value unchanged, and the key never moves.
pub open spec fn apply_update(m: ModelView, am: ActiveModelView) -> ModelView {
    ModelView {
        id: m.id,
        name: match am.name {
            Some(n) => n,
            None => m.name,
        },
        profit_margin_bits: match am.profit_margin_bits {
            Some(b) => b,
            None => m.profit_margin_bits,
        },
    }
}

/// Mathematical view of a bakery filter.
pub enum FilterView {
    IdEq(i32),
    NameEq(Seq<char>),
}

/// A field-equals-literal predicate over bakery rows: the minimal filter
/// language of the data-access layer. A lookup carries exactly one filter;
/// there is no conjunction or disjunction.
#[derive(Debug)]
pub enum Filter {
    /// The primary key equals the literal.
    IdEq(i32),
    /// The name column equals the literal.
    NameEq(String),
}

impl View for Filter {
    type V = FilterView;

    open spec fn view(&self) -> FilterView {
        match self {
            Filter::IdEq(k) => FilterView::IdEq(*k),
            Filter::NameEq(n) => FilterView::NameEq(n@),
        }
    }
}

/// Whether a row satisfies a filter.
pub open spec fn filter_matches(m: ModelView, f: FilterView) -> bool {
    match f {
        FilterView::IdEq(k) => m.id == k as int,
        FilterView::NameEq(n) => m.name == n,
    }
}

/// The declared relationships of the bakery entity.
#[derive(Clone, Copy, Debug, PartialEq, Eq, Structural)]
pub enum Relation {
    /// One bakery owns many chefs (one-to-many).
    Chef,
}

impl Relation {
    /// The related table's name.
    pub fn related_table(&self) -> (r: &'static str)
        ensures
            r@ == "chef"@,
    {
        "chef"
    }

    /// The column on the related table that implements the relationship:
    /// a chef points back at its bakery through `chef.bakery_id`.
    pub fn foreign_key_column(&self) -> (r: &'static str)
        ensures
            r@ == "bakery_id"@,
    {
        "bakery_id"
    }
}

} // verus!
