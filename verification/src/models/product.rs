//! A product of the catalog, as snapshotted into carts, favorites and orders.

use vstd::prelude::*;
use crate::error::ErrorKind;
use crate::views::{
    clone_opt_string,
    clone_strings,
    first_match,
    has_match,
    is_first,
    lemma_first_match_is,
    opt_text,
    views_of,
};

verus! {

/// A catalog record. The library reads `uuid`, `price` and `discount`; the rest
/// is catalog metadata that a snapshot carries unchanged.
#[derive(Debug)]
pub struct Product {
    pub uuid: u128,
    pub pathurl: String,
    pub article: String,
    /// The price as the catalog writes it, with grouping and decimal separators.
    pub price: String,
    /// The catalog's rating, as the bits of its floating-point number.
    pub rating: u64,
    /// The catalog's review count, as the bits of its floating-point number.
    pub reviews: u64,
    pub currency: String,
    /// The product's own discount in basis points (hundredths of a percent).
    pub discount: Option<u32>,
    pub is_new: bool,
    pub image: String,
    pub name: String,
    pub brand: String,
    pub tags: Vec<String>,
    pub description: Option<String>,
}

pub struct ProductView {
    pub uuid: u128,
    pub pathurl: Seq<char>,
    pub article: Seq<char>,
    pub price: Seq<char>,
    pub rating: u64,
    pub reviews: u64,
    pub currency: Seq<char>,
    pub discount: Option<u32>,
    pub is_new: bool,
    pub image: Seq<char>,
    pub name: Seq<char>,
    pub brand: Seq<char>,
    pub tags: Seq<Seq<char>>,
    pub description: Option<Seq<char>>,
}

impl View for Product {
    type V = ProductView;

    open spec fn view(&self) -> ProductView {
        ProductView {
            uuid: self.uuid,
            pathurl: self.pathurl@,
            article: self.article@,
            price: self.price@,
            rating: self.rating,
            reviews: self.reviews,
            currency: self.currency@,
            discount: self.discount,
            is_new: self.is_new,
            image: self.image@,
            name: self.name@,
            brand: self.brand@,
            tags: views_of(self.tags@),
            description: opt_text(self.description),
        }
    }
}

impl Clone for Product {
    fn clone(&self) -> (copy: Self)
        ensures
            copy@ == self@,
    {
        Product {
            uuid: self.uuid,
            pathurl: self.pathurl.clone(),
            article: self.article.clone(),
            price: self.price.clone(),
            rating: self.rating,
            reviews: self.reviews,
            currency: self.currency.clone(),
            discount: self.discount,
            is_new: self.is_new,
            image: self.image.clone(),
            name: self.name.clone(),
            brand: self.brand.clone(),
            tags: clone_strings(&self.tags),
            description: clone_opt_string(&self.description),
        }
    }
}

/// The test that holds of the products with the id `uuid`.
pub open spec fn with_uuid(uuid: u128) -> spec_fn(ProductView) -> bool {
    |product: ProductView| product.uuid == uuid
}

/// Whether some product of `products` has the id `uuid`.
pub open spec fn has_product(products: Seq<ProductView>, uuid: u128) -> bool {
    has_match(products, with_uuid(uuid))
}

/// The first position of `products` whose product has the id `uuid`, where
/// there is one.
pub open spec fn product_position(products: Seq<ProductView>, uuid: u128) -> int {
    first_match(products, with_uuid(uuid))
}

/// The first position of `products` whose product has the id `uuid`.
pub fn position_of_product(products: &Vec<Product>, uuid: u128) -> (found: Option<usize>)
    ensures
        match found {
            Some(i) => is_first(views_of(products@), with_uuid(uuid), i as int),
            None => !has_product(views_of(products@), uuid),
        },
{
    let mut i: usize = 0;
    while i < products.len()
        invariant
            i <= products.len(),
            forall|j: int| 0 <= j < i ==> !with_uuid(uuid)(#[trigger] views_of(products@)[j]),
        decreases products.len() - i,
    {
        if products[i].uuid == uuid {
            return Some(i);
        }
        i = i + 1;
    }
    None
}

/// The view of a catalog, which is missing where it could not be read.
pub open spec fn opt_products(o: Option<Vec<Product>>) -> Option<Seq<ProductView>> {
    match o {
        Some(products) => Some(views_of(products@)),
        None => None,
    }
}

/// The product that the catalog has under `uuid`: the first with that id. A
/// catalog that could not be read has no product, so nothing is found in it.
pub open spec fn catalog_lookup(catalog: Option<Seq<ProductView>>, uuid: u128) -> Result<
    ProductView,
    ErrorKind,
> {
    match catalog {
        None => Err(ErrorKind::ProductNotFound),
        Some(products) => if has_product(products, uuid) {
            Ok(products[product_position(products, uuid)])
        } else {
            Err(ErrorKind::ProductNotFound)
        },
    }
}

/// The view of the outcome of a catalog lookup.
pub open spec fn product_result_view(r: Result<Product, ErrorKind>) -> Result<
    ProductView,
    ErrorKind,
> {
    match r {
        Ok(product) => Ok(product@),
        Err(e) => Err(e),
    }
}

/// A copy of the product that the products `catalog` have under `uuid`.
pub fn find_product(catalog: &Vec<Product>, uuid: u128) -> (r: Result<Product, ErrorKind>)
    ensures
        product_result_view(r) == catalog_lookup(Some(views_of(catalog@)), uuid),
        r matches Ok(product) ==> product.uuid == uuid,
{
    match position_of_product(catalog, uuid) {
        Some(i) => {
            proof {
                lemma_first_match_is(views_of(catalog@), with_uuid(uuid), i as int);
            }
            Ok(catalog[i].clone())
        },
        None => Err(ErrorKind::ProductNotFound),
    }
}

/// A copy of the product that the catalog has under `uuid`; the catalog is
/// missing where it could not be read, and then has no product.
pub fn load_product(catalog: &Option<Vec<Product>>, uuid: u128) -> (r: Result<Product, ErrorKind>)
    ensures
        product_result_view(r) == catalog_lookup(opt_products(*catalog), uuid),
        r matches Ok(product) ==> product.uuid == uuid,
{
    match catalog {
        Some(products) => find_product(products, uuid),
        None => Err(ErrorKind::ProductNotFound),
    }
}

/// A copy of each product of `products`, in order.
pub fn clone_products(products: &Vec<Product>) -> (copy: Vec<Product>)
    ensures
        views_of(copy@) == views_of(products@),
{
    let mut copy: Vec<Product> = Vec::new();
    let mut i: usize = 0;
    while i < products.len()
        invariant
            i <= products.len(),
            copy.len() == i,
            forall|j: int| 0 <= j < i ==> copy[j]@ == products[j]@,
        decreases products.len() - i,
    {
        copy.push(products[i].clone());
        i = i + 1;
    }
    assert(views_of(copy@) =~= views_of(products@));
    copy
}

} // verus!
