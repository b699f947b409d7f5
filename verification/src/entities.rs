//! The rows of the store, one struct per table.
//!
//! Quantities and prices are carried as fixed-point integers and timestamps
//! as seconds; the core never computes with them, it only stores and copies
//! them, so the scale is the caller's choice.

use vstd::prelude::*;

verus! {

/// The mathematical value of an optional text field.
pub open spec fn opt_text(o: Option<String>) -> Option<Seq<char>> {
    match o {
        Some(s) => Some(s@),
        None => None,
    }
}

/// An account. `password` holds the bcrypt digest of the peppered secret,
/// never the secret itself.
#[derive(Debug, PartialEq, Eq)]
pub struct User {
    pub id: i32,
    pub name: String,
    pub email: String,
    pub password: String,
}

/// The mathematical value of a `User` row.
pub ghost struct UserView {
    pub id: i32,
    pub name: Seq<char>,
    pub email: Seq<char>,
    pub password: Seq<char>,
}

impl View for User {
    type V = UserView;

    open spec fn view(&self) -> UserView {
        UserView { id: self.id, name: self.name@, email: self.email@, password: self.password@ }
    }
}

impl Clone for User {
    fn clone(&self) -> (r: Self)
        ensures
            r@ == self@,
            r.id == self.id,
    {
        User {
            id: self.id,
            name: self.name.clone(),
            email: self.email.clone(),
            password: self.password.clone(),
        }
    }
}

/// Per-user settings row; carries no fields beyond its key yet.
#[derive(Clone, Copy, Debug, PartialEq, Eq, Structural)]
pub struct Preference {
    pub user_id: i32,
}

/// The ten independent capability flags of one user.
#[derive(Clone, Copy, Debug, PartialEq, Eq, Structural)]
pub struct Permission {
    pub user_id: i32,
    pub admin: bool,
    pub view_pending: bool,
    pub view_received: bool,
    pub edit_pending: bool,
    pub create_orders: bool,
    pub edit_received: bool,
    pub remove_orders: bool,
    pub edit_products: bool,
    pub view_products: bool,
    pub view_suppliers: bool,
}

/// One named capability, used to ask a `Permission` row a boolean question.
#[derive(Clone, Copy, Debug, PartialEq, Eq, Structural)]
pub enum Capability {
    Admin,
    ViewPending,
    ViewReceived,
    EditPending,
    CreateOrders,
    EditReceived,
    RemoveOrders,
    EditProducts,
    ViewProducts,
    ViewSuppliers,
}

/// The flag of `p` that `c` names.
pub open spec fn cap_flag(p: Permission, c: Capability) -> bool {
    match c {
        Capability::Admin => p.admin,
        Capability::ViewPending => p.view_pending,
        Capability::ViewReceived => p.view_received,
        Capability::EditPending => p.edit_pending,
        Capability::CreateOrders => p.create_orders,
        Capability::EditReceived => p.edit_received,
        Capability::RemoveOrders => p.remove_orders,
        Capability::EditProducts => p.edit_products,
        Capability::ViewProducts => p.view_products,
        Capability::ViewSuppliers => p.view_suppliers,
    }
}

impl Permission {
    /// Read the one flag that `c` names; no hierarchy is applied, `admin`
    /// does not imply any other capability.
    pub fn grants(&self, c: Capability) -> (r: bool)
        ensures
            r == cap_flag(*self, c),
    {
        match c {
            Capability::Admin => self.admin,
            Capability::ViewPending => self.view_pending,
            Capability::ViewReceived => self.view_received,
            Capability::EditPending => self.edit_pending,
            Capability::CreateOrders => self.create_orders,
            Capability::EditReceived => self.edit_received,
            Capability::RemoveOrders => self.remove_orders,
            Capability::EditProducts => self.edit_products,
            Capability::ViewProducts => self.view_products,
            Capability::ViewSuppliers => self.view_suppliers,
        }
    }
}

/// A stocked product. `amount` is the current stock level.
#[derive(Debug, PartialEq, Eq)]
pub struct Product {
    pub id: i32,
    pub upc: String,
    pub name: String,
    pub description: String,
    pub amount: i64,
    pub case_size: Option<i32>,
    pub measure_by_weight: bool,
    pub cost_price_per_unit: i64,
    pub selling_price_per_unit: i64,
    pub sale_end: Option<i64>,
    pub buy_level: Option<i64>,
    pub sale_price: Option<i64>,
}

/// The mathematical value of a `Product` row.
pub ghost struct ProductView {
    pub id: i32,
    pub upc: Seq<char>,
    pub name: Seq<char>,
    pub description: Seq<char>,
    pub amount: i64,
    pub case_size: Option<i32>,
    pub measure_by_weight: bool,
    pub cost_price_per_unit: i64,
    pub selling_price_per_unit: i64,
    pub sale_end: Option<i64>,
    pub buy_level: Option<i64>,
    pub sale_price: Option<i64>,
}

impl View for Product {
    type V = ProductView;

    open spec fn view(&self) -> ProductView {
        ProductView {
            id: self.id,
            upc: self.upc@,
            name: self.name@,
            description: self.description@,
            amount: self.amount,
            case_size: self.case_size,
            measure_by_weight: self.measure_by_weight,
            cost_price_per_unit: self.cost_price_per_unit,
            selling_price_per_unit: self.selling_price_per_unit,
            sale_end: self.sale_end,
            buy_level: self.buy_level,
            sale_price: self.sale_price,
        }
    }
}

impl Clone for Product {
    fn clone(&self) -> (r: Self)
        ensures
            r@ == self@,
            r.id == self.id,
    {
        Product {
            id: self.id,
            upc: self.upc.clone(),
            name: self.name.clone(),
            description: self.description.clone(),
            amount: self.amount,
            case_size: self.case_size,
            measure_by_weight: self.measure_by_weight,
            cost_price_per_unit: self.cost_price_per_unit,
            selling_price_per_unit: self.selling_price_per_unit,
            sale_end: self.sale_end,
            buy_level: self.buy_level,
            sale_price: self.sale_price,
        }
    }
}

/// A category row; `products` is the array column that links products to it.
#[derive(Debug, PartialEq, Eq)]
pub struct Category {
    pub id: i32,
    pub products: Vec<Option<i32>>,
    pub name: String,
}

/// The mathematical value of a `Category` row.
pub ghost struct CategoryView {
    pub id: i32,
    pub products: Seq<Option<i32>>,
    pub name: Seq<char>,
}

impl View for Category {
    type V = CategoryView;

    open spec fn view(&self) -> CategoryView {
        CategoryView { id: self.id, products: self.products@, name: self.name@ }
    }
}

impl Clone for Category {
    fn clone(&self) -> (r: Self)
        ensures
            r@ == self@,
            r.id == self.id,
    {
        Category { id: self.id, products: copy_id_list(&self.products), name: self.name.clone() }
    }
}

/// A supplier row; `products` is the array column that links products to it.
#[derive(Debug, PartialEq, Eq)]
pub struct Supplier {
    pub id: i32,
    pub products: Vec<Option<i32>>,
    pub name: String,
    pub phone_number: Option<String>,
    pub email: Option<String>,
}

/// The mathematical value of a `Supplier` row.
pub ghost struct SupplierView {
    pub id: i32,
    pub products: Seq<Option<i32>>,
    pub name: Seq<char>,
    pub phone_number: Option<Seq<char>>,
    pub email: Option<Seq<char>>,
}

impl View for Supplier {
    type V = SupplierView;

    open spec fn view(&self) -> SupplierView {
        SupplierView {
            id: self.id,
            products: self.products@,
            name: self.name@,
            phone_number: opt_text(self.phone_number),
            email: opt_text(self.email),
        }
    }
}

impl Clone for Supplier {
    fn clone(&self) -> (r: Self)
        ensures
            r@ == self@,
            r.id == self.id,
    {
        Supplier {
            id: self.id,
            products: copy_id_list(&self.products),
            name: self.name.clone(),
            phone_number: copy_opt_string(&self.phone_number),
            email: copy_opt_string(&self.email),
        }
    }
}

/// A brand row; `products` is the array column that links products to it.
#[derive(Debug, PartialEq, Eq)]
pub struct Brand {
    pub id: i32,
    pub name: String,
    pub products: Vec<Option<i32>>,
}

/// The mathematical value of a `Brand` row.
pub ghost struct BrandView {
    pub id: i32,
    pub name: Seq<char>,
    pub products: Seq<Option<i32>>,
}

impl View for Brand {
    type V = BrandView;

    open spec fn view(&self) -> BrandView {
        BrandView { id: self.id, name: self.name@, products: self.products@ }
    }
}

impl Clone for Brand {
    fn clone(&self) -> (r: Self)
        ensures
            r@ == self@,
            r.id == self.id,
    {
        Brand { id: self.id, name: self.name.clone(), products: copy_id_list(&self.products) }
    }
}

/// An order that has been placed but not yet received.
#[derive(Clone, Copy, Debug, PartialEq, Eq, Structural)]
pub struct PendingOrder {
    pub id: i32,
    pub product_id: i32,
    pub amount: i64,
}

/// A terminal record of a received order. `gross_amount` is the quantity
/// originally ordered; `actually_received` and `damaged` record what arrived.
#[derive(Clone, Copy, Debug, PartialEq, Eq, Structural)]
pub struct ReceivedOrder {
    pub id: i32,
    pub received: Option<i64>,
    pub product_id: i32,
    pub gross_amount: i64,
    pub actually_received: i64,
    pub damaged: i64,
}

/// Copy a product-id array column.
pub fn copy_id_list(v: &Vec<Option<i32>>) -> (r: Vec<Option<i32>>)
    ensures
        r@ == v@,
{
    let mut r: Vec<Option<i32>> = Vec::new();
    let mut k: usize = 0;
    while k < v.len()
        invariant
            k <= v@.len(),
            r@ == v@.subrange(0, k as int),
        decreases v@.len() - k,
    {
        r.push(v[k]);
        proof {
            assert(v@.subrange(0, k + 1) =~= v@.subrange(0, k as int).push(v@[k as int]));
        }
        k += 1;
    }
    proof {
        assert(v@.subrange(0, v@.len() as int) =~= v@);
    }
    r
}

/// Copy an optional text field.
pub fn copy_opt_string(v: &Option<String>) -> (r: Option<String>)
    ensures
        r == *v,
{
    match v {
        Some(s) => Some(s.clone()),
        None => None,
    }
}

} // verus!
