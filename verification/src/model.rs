//! Records of the marketplace and the errors its operations report.
//!
//! Identifiers are 128-bit numbers and timestamps are ticks of the store's
//! clock. Each record has a view in which text is a sequence of characters.
//!
//! A price is a double-precision number, carried as its bit pattern (what
//! `to_bits` gives of such a number and `from_bits` takes). Of two numbers
//! that are not negative the greater has the greater pattern, so prices are
//! compared as patterns; the patterns of negative numbers, and of what is no
//! number, lie above the pattern of infinity.

use vstd::prelude::*;
use vstd::string::*;

verus! {

/// Outcome of the automated verification of a product.
#[derive(Clone, Copy, Debug, PartialEq, Eq, Structural)]
pub enum VerificationStatus {
    /// Never evaluated, or submitted and awaiting evaluation.
    Unverified,
    Verified,
    Rejected,
}

/// Where a product stands between drafting and a verdict.
#[derive(Clone, Copy, Debug, PartialEq, Eq, Structural)]
pub enum LifecycleState {
    Draft,
    Pending,
    Verified,
    Rejected,
}

/// The required field that a product specification leaves out.
#[derive(Clone, Copy, Debug, PartialEq, Eq, Structural)]
pub enum Invalid {
    EmptyName,
    EmptyDescription,
    EmptyImage,
    /// The price is zero, negative, infinite or no number.
    NonPositivePrice,
}

/// The bit pattern of positive infinity.
pub const INFINITE_PRICE: u64 = 0x7FF0_0000_0000_0000;

/// The pattern is the one of a positive number: above the pattern of zero
/// and below the pattern of infinity.
pub open spec fn is_price(bits: u64) -> bool {
    0 < bits < INFINITE_PRICE
}

/// Whether the pattern is the one of a positive number.
pub fn is_positive_price(bits: u64) -> (r: bool)
    ensures
        r == is_price(bits),
{
    0 < bits && bits < INFINITE_PRICE
}

/// Why an operation did not take place.
#[derive(Clone, Copy, Debug, PartialEq, Eq, Structural)]
pub enum Error {
    /// The input is malformed; nothing was written.
    ValidationError(Invalid),
    /// The operation names a product that does not exist.
    NotFound,
    /// A link or notification refers to a row that does not exist, or a row
    /// that is still referred to would be removed.
    ConstraintViolation,
    /// The store could not carry out the statement.
    StoreError,
}

impl Error {
    /// The status with which a server answers a request that failed with
    /// this error: a client error for input that is not valid, for a
    /// product that does not exist and for a violated constraint, a server
    /// error for a failure of the store.
    pub open spec fn status_code_spec(self) -> u16 {
        match self {
            Error::ValidationError(_) => 400,
            Error::NotFound => 404,
            Error::ConstraintViolation => 409,
            Error::StoreError => 500,
        }
    }

    /// What a client is told about this error.
    pub open spec fn description(self) -> Seq<char> {
        match self {
            Error::ValidationError(Invalid::EmptyName) => "Product name must not be empty"@,
            Error::ValidationError(Invalid::EmptyDescription) =>
                "Product description must not be empty"@,
            Error::ValidationError(Invalid::EmptyImage) => "Product image must not be empty"@,
            Error::ValidationError(Invalid::NonPositivePrice) => "Product price must be positive"@,
            Error::NotFound => "Product not found"@,
            Error::ConstraintViolation => "Unknown category or tag"@,
            Error::StoreError => "The store failed"@,
        }
    }

    /// The status with which a server answers a request that failed with
    /// this error.
    pub fn status_code(&self) -> (code: u16)
        ensures
            code == self.status_code_spec(),
    {
        match self {
            Error::ValidationError(_) => 400,
            Error::NotFound => 404,
            Error::ConstraintViolation => 409,
            Error::StoreError => 500,
        }
    }

    /// What a client is told about this error.
    pub fn describe(&self) -> (text: String)
        ensures
            text@ == self.description(),
    {
        match self {
            Error::ValidationError(Invalid::EmptyName) => String::from_str(
                "Product name must not be empty",
            ),
            Error::ValidationError(Invalid::EmptyDescription) => String::from_str(
                "Product description must not be empty",
            ),
            Error::ValidationError(Invalid::EmptyImage) => String::from_str(
                "Product image must not be empty",
            ),
            Error::ValidationError(Invalid::NonPositivePrice) => String::from_str(
                "Product price must be positive",
            ),
            Error::NotFound => String::from_str("Product not found"),
            Error::ConstraintViolation => String::from_str("Unknown category or tag"),
            Error::StoreError => String::from_str("The store failed"),
        }
    }

    /// The error that a failure of a database stands for: a violated
    /// foreign key or a violated uniqueness is a constraint violation, any
    /// other failure is one of the store.
    pub fn of_database_failure(foreign_key_violation: bool, unique_violation: bool) -> (e: Error)
        ensures
            e == (if foreign_key_violation || unique_violation {
                Error::ConstraintViolation
            } else {
                Error::StoreError
            }),
    {
        if foreign_key_violation || unique_violation {
            Error::ConstraintViolation
        } else {
            Error::StoreError
        }
    }
}

/// A product listing.
#[derive(Clone, Debug, PartialEq, Eq)]
pub struct Product {
    pub id: u128,
    pub vendor_id: u128,
    pub name: String,
    pub description: String,
    /// The bit pattern of the price.
    pub price: u64,
    pub image_url: String,
    pub is_draft: bool,
    pub verification: VerificationStatus,
    pub created_at: u64,
    pub updated_at: u64,
}

/// A product with its texts as sequences of characters.
pub struct ProductView {
    pub id: u128,
    pub vendor_id: u128,
    pub name: Seq<char>,
    pub description: Seq<char>,
    /// The bit pattern of the price.
    pub price: u64,
    pub image_url: Seq<char>,
    pub is_draft: bool,
    pub verification: VerificationStatus,
    pub created_at: u64,
    pub updated_at: u64,
}

impl View for Product {
    type V = ProductView;

    open spec fn view(&self) -> ProductView {
        ProductView {
            id: self.id,
            vendor_id: self.vendor_id,
            name: self.name@,
            description: self.description@,
            price: self.price,
            image_url: self.image_url@,
            is_draft: self.is_draft,
            verification: self.verification,
            created_at: self.created_at,
            updated_at: self.updated_at,
        }
    }
}

impl ProductView {
    /// The lifecycle state that the draft flag and the verification status
    /// stand for.
    pub open spec fn state(self) -> LifecycleState {
        if self.is_draft {
            LifecycleState::Draft
        } else {
            match self.verification {
                VerificationStatus::Unverified => LifecycleState::Pending,
                VerificationStatus::Verified => LifecycleState::Verified,
                VerificationStatus::Rejected => LifecycleState::Rejected,
            }
        }
    }
}

impl Product {
    /// Where the product stands in its lifecycle.
    pub fn state(&self) -> (r: LifecycleState)
        ensures
            r == self@.state(),
    {
        if self.is_draft {
            LifecycleState::Draft
        } else {
            match self.verification {
                VerificationStatus::Unverified => LifecycleState::Pending,
                VerificationStatus::Verified => LifecycleState::Verified,
                VerificationStatus::Rejected => LifecycleState::Rejected,
            }
        }
    }

    /// A copy of the record.
    pub fn duplicate(&self) -> (r: Product)
        ensures
            r == *self,
    {
        Product {
            id: self.id,
            vendor_id: self.vendor_id,
            name: self.name.clone(),
            description: self.description.clone(),
            price: self.price,
            image_url: self.image_url.clone(),
            is_draft: self.is_draft,
            verification: self.verification,
            created_at: self.created_at,
            updated_at: self.updated_at,
        }
    }
}

/// What a caller supplies to create or overwrite a product. An absent list of
/// categories or tags means the same as an empty one: the product is left
/// with none.
#[derive(Clone, Debug, PartialEq, Eq)]
pub struct NewProduct {
    pub vendor_id: u128,
    pub name: String,
    pub description: String,
    /// The bit pattern of the price.
    pub price: u64,
    pub image_url: String,
    pub is_draft: bool,
    pub category_ids: Option<Vec<u128>>,
    pub tag_ids: Option<Vec<u128>>,
}

/// A product specification with its texts and lists as sequences.
pub struct NewProductView {
    pub vendor_id: u128,
    pub name: Seq<char>,
    pub description: Seq<char>,
    /// The bit pattern of the price.
    pub price: u64,
    pub image_url: Seq<char>,
    pub is_draft: bool,
    pub category_ids: Option<Seq<u128>>,
    pub tag_ids: Option<Seq<u128>>,
}

impl View for NewProduct {
    type V = NewProductView;

    open spec fn view(&self) -> NewProductView {
        NewProductView {
            vendor_id: self.vendor_id,
            name: self.name@,
            description: self.description@,
            price: self.price,
            image_url: self.image_url@,
            is_draft: self.is_draft,
            category_ids: match self.category_ids {
                Some(ids) => Some(ids@),
                None => None,
            },
            tag_ids: match self.tag_ids {
                Some(ids) => Some(ids@),
                None => None,
            },
        }
    }
}

impl NewProductView {
    /// The first requirement that the specification fails, in the order
    /// name, description, image, price.
    pub open spec fn defect(self) -> Option<Invalid> {
        if self.name.len() == 0 {
            Some(Invalid::EmptyName)
        } else if self.description.len() == 0 {
            Some(Invalid::EmptyDescription)
        } else if self.image_url.len() == 0 {
            Some(Invalid::EmptyImage)
        } else if !is_price(self.price) {
            Some(Invalid::NonPositivePrice)
        } else {
            None
        }
    }

    /// The categories asked for; none where the list is absent.
    pub open spec fn categories(self) -> Seq<u128> {
        match self.category_ids {
            Some(ids) => ids,
            None => Seq::empty(),
        }
    }

    /// The tags asked for; none where the list is absent.
    pub open spec fn tags(self) -> Seq<u128> {
        match self.tag_ids {
            Some(ids) => ids,
            None => Seq::empty(),
        }
    }

    /// The same specification, asking for a draft.
    pub open spec fn as_draft(self) -> NewProductView {
        NewProductView { is_draft: true, ..self }
    }
}

/// A copy of a list of identifiers.
pub fn duplicate_ids(ids: &Vec<u128>) -> (r: Vec<u128>)
    ensures
        r@ == ids@,
{
    let mut out: Vec<u128> = Vec::new();
    let mut i: usize = 0;
    while i < ids.len()
        invariant
            i <= ids.len(),
            out@ == ids@.take(i as int),
        decreases ids.len() - i,
    {
        out.push(ids[i]);
        proof {
            assert(ids@.take(i + 1) =~= ids@.take(i as int).push(ids@[i as int]));
        }
        i += 1;
    }
    proof {
        assert(ids@.take(ids.len() as int) =~= ids@);
    }
    out
}

impl NewProduct {
    /// Checks the requirements that every product row meets: name,
    /// description and image reference are not empty and the price is
    /// positive.
    pub fn validate(&self) -> (r: Result<(), Invalid>)
        ensures
            r == (match self@.defect() {
                Some(d) => Err::<(), Invalid>(d),
                None => Ok(()),
            }),
    {
        if self.name.as_str().is_empty() {
            Err(Invalid::EmptyName)
        } else if self.description.as_str().is_empty() {
            Err(Invalid::EmptyDescription)
        } else if self.image_url.as_str().is_empty() {
            Err(Invalid::EmptyImage)
        } else if !is_positive_price(self.price) {
            Err(Invalid::NonPositivePrice)
        } else {
            Ok(())
        }
    }

    /// The categories asked for; none where the list is absent.
    pub fn categories(&self) -> (r: Vec<u128>)
        ensures
            r@ == self@.categories(),
    {
        match &self.category_ids {
            Some(ids) => duplicate_ids(ids),
            None => Vec::new(),
        }
    }

    /// The tags asked for; none where the list is absent.
    pub fn tags(&self) -> (r: Vec<u128>)
        ensures
            r@ == self@.tags(),
    {
        match &self.tag_ids {
            Some(ids) => duplicate_ids(ids),
            None => Vec::new(),
        }
    }

    /// The same specification, asking for a draft.
    pub fn as_draft(&self) -> (r: NewProduct)
        ensures
            r@ == self@.as_draft(),
    {
        let mut copy = self.duplicate();
        copy.is_draft = true;
        copy
    }

    /// A copy of the specification.
    pub fn duplicate(&self) -> (r: NewProduct)
        ensures
            r@ == self@,
    {
        NewProduct {
            vendor_id: self.vendor_id,
            name: self.name.clone(),
            description: self.description.clone(),
            price: self.price,
            image_url: self.image_url.clone(),
            is_draft: self.is_draft,
            category_ids: match &self.category_ids {
                Some(ids) => Some(duplicate_ids(ids)),
                None => None,
            },
            tag_ids: match &self.tag_ids {
                Some(ids) => Some(duplicate_ids(ids)),
                None => None,
            },
        }
    }
}

/// A category that products are filed under.
#[derive(Clone, Debug, PartialEq, Eq)]
pub struct Category {
    pub id: u128,
    pub name: String,
    pub created_at: u64,
}

/// A category with its name as a sequence of characters.
pub struct CategoryView {
    pub id: u128,
    pub name: Seq<char>,
    pub created_at: u64,
}

impl View for Category {
    type V = CategoryView;

    open spec fn view(&self) -> CategoryView {
        CategoryView { id: self.id, name: self.name@, created_at: self.created_at }
    }
}

impl Category {
    /// A copy of the record.
    pub fn duplicate(&self) -> (r: Category)
        ensures
            r == *self,
    {
        Category { id: self.id, name: self.name.clone(), created_at: self.created_at }
    }
}

/// A tag that products are marked with.
#[derive(Clone, Debug, PartialEq, Eq)]
pub struct Tag {
    pub id: u128,
    pub name: String,
    pub created_at: u64,
}

/// A tag with its name as a sequence of characters.
pub struct TagView {
    pub id: u128,
    pub name: Seq<char>,
    pub created_at: u64,
}

impl View for Tag {
    type V = TagView;

    open spec fn view(&self) -> TagView {
        TagView { id: self.id, name: self.name@, created_at: self.created_at }
    }
}

impl Tag {
    /// A copy of the record.
    pub fn duplicate(&self) -> (r: Tag)
        ensures
            r == *self,
    {
        Tag { id: self.id, name: self.name.clone(), created_at: self.created_at }
    }
}

/// A link between a product and one of its categories.
#[derive(Clone, Copy, Debug, PartialEq, Eq, Structural)]
pub struct ProductCategory {
    pub product_id: u128,
    pub category_id: u128,
}

/// A link between a product and one of its tags.
#[derive(Clone, Copy, Debug, PartialEq, Eq, Structural)]
pub struct ProductTag {
    pub product_id: u128,
    pub tag_id: u128,
}

/// A message to a vendor about one of its products.
#[derive(Clone, Debug, PartialEq, Eq)]
pub struct Notification {
    pub id: u128,
    pub vendor_id: u128,
    pub product_id: u128,
    pub message: String,
    pub is_read: bool,
    pub created_at: u64,
}

/// A notification with its message as a sequence of characters.
pub struct NotificationView {
    pub id: u128,
    pub vendor_id: u128,
    pub product_id: u128,
    pub message: Seq<char>,
    pub is_read: bool,
    pub created_at: u64,
}

impl View for Notification {
    type V = NotificationView;

    open spec fn view(&self) -> NotificationView {
        NotificationView {
            id: self.id,
            vendor_id: self.vendor_id,
            product_id: self.product_id,
            message: self.message@,
            is_read: self.is_read,
            created_at: self.created_at,
        }
    }
}

impl Notification {
    /// A copy of the record.
    pub fn duplicate(&self) -> (r: Notification)
        ensures
            r == *self,
    {
        Notification {
            id: self.id,
            vendor_id: self.vendor_id,
            product_id: self.product_id,
            message: self.message.clone(),
            is_read: self.is_read,
            created_at: self.created_at,
        }
    }
}

} // verus!
