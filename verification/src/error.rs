//! Errors: a human message paired with a stable machine-readable code.

use vstd::prelude::*;
use vstd::string::StringExecFns;

verus! {

/// A message for people and a code for programs.
#[derive(Debug)]
pub struct CustomError {
    pub message: String,
    pub error_code: String,
}

/// What a [`CustomError`] holds, as mathematical sequences of characters.
pub struct CustomErrorView {
    pub message: Seq<char>,
    pub error_code: Seq<char>,
}

impl View for CustomError {
    type V = CustomErrorView;

    open spec fn view(&self) -> CustomErrorView {
        CustomErrorView { message: self.message@, error_code: self.error_code@ }
    }
}

impl Clone for CustomError {
    fn clone(&self) -> (copy: Self)
        ensures
            copy@ == self@,
    {
        CustomError { message: self.message.clone(), error_code: self.error_code.clone() }
    }
}

impl CustomError {
    pub fn new(message: &str, error_code: &str) -> (e: Self)
        ensures
            e@.message == message@,
            e@.error_code == error_code@,
    {
        CustomError { message: message.to_owned(), error_code: error_code.to_owned() }
    }

    /// The text shown for this error: the code, a colon and a space, the message.
    pub open spec fn display_text(self) -> Seq<char> {
        self.error_code@ + ": "@ + self.message@
    }

    pub fn to_string(&self) -> (text: String)
        ensures
            text@ == self.display_text(),
    {
        let mut text = self.error_code.clone();
        text.append(": ");
        text.append(self.message.as_str());
        text
    }
}

/// Every way in which an operation of this library can be refused.
#[derive(Clone, Copy, Debug, PartialEq, Eq, Structural)]
pub enum ErrorKind {
    /// No user has the given id.
    UserNotFound,
    /// The user has cards, none of them primary.
    PrimaryCardNotFound,
    /// The user has no list of cards.
    NoCreditCards,
    /// None of the selected products is in the cart.
    SelectedProductsNotFound,
    /// The user has no order with the given id.
    OrderNotFound,
    /// The catalog has no product with the given id.
    ProductNotFound,
    /// The cart has no line for the product.
    ProductNotInCart,
    /// The user has no cart.
    UserCartNotFound,
    /// The product is already among the user's favorites.
    ProductAlreadyInFavorites,
    /// The product is not among the user's favorites.
    ProductNotFoundInFavorites,
    /// The user has no list of favorites.
    UserFavoritesNotFound,
    /// The list of promo codes is empty.
    NoPromoCodesFound,
    /// No promo code has the given code.
    PromoCodeNotFound,
    /// The promo code's window has not opened yet.
    PromoCodeNotYetAvailable,
    /// The promo code's window has closed.
    PromoCodeExpired,
    /// The list of promo codes could not be read.
    PromoCodesUnavailable,
    /// A bound of the promo code's window is not a valid instant.
    PromoCodeWindowInvalid,
    /// A product's price is not a number of minor units.
    InvalidPrice,
    /// A sum of prices or discounts does not fit the amount type.
    AmountOutOfRange,
    /// A cart line already holds the largest count.
    CartCountLimit,
    /// The request carries no authenticated user.
    Unauthorized,
    /// A required sign-up field is empty.
    MissingFields,
    /// The username, login or email is taken.
    UserAlreadyExists,
    /// The password could not be hashed.
    HashingError,
    /// The request already carries an authenticated user.
    AlreadyLoggedIn,
    /// The login or the password is empty.
    EmptyFields,
    /// Unknown login or wrong password.
    InvalidCredentials,
    /// The card number is already on the user's list.
    CardAlreadyAdded,
    /// The user has no card with the given id.
    CardNotFound,
    /// The user has no list of cards to delete from.
    NoCardsFound,
}

impl ErrorKind {
    pub open spec fn message_text(self) -> Seq<char> {
        match self {
            ErrorKind::UserNotFound => "User not found"@,
            ErrorKind::PrimaryCardNotFound => "Primary credit card not found."@,
            ErrorKind::NoCreditCards => "No credit cards found for user."@,
            ErrorKind::SelectedProductsNotFound => "No selected products found in the cart."@,
            ErrorKind::OrderNotFound => "Order not found"@,
            ErrorKind::ProductNotFound => "Product not found"@,
            ErrorKind::ProductNotInCart => "Product not found in cart"@,
            ErrorKind::UserCartNotFound => "User cart not found"@,
            ErrorKind::ProductAlreadyInFavorites => "Product already in favorites"@,
            ErrorKind::ProductNotFoundInFavorites => "Product not found in favorites"@,
            ErrorKind::UserFavoritesNotFound => "User favorites not found"@,
            ErrorKind::NoPromoCodesFound => "No promo codes available"@,
            ErrorKind::PromoCodeNotFound => "Promo code not found"@,
            ErrorKind::PromoCodeNotYetAvailable => "Promo code is not yet available"@,
            ErrorKind::PromoCodeExpired => "Promo code has expired"@,
            ErrorKind::PromoCodesUnavailable => "Failed to load promo codes"@,
            ErrorKind::PromoCodeWindowInvalid => "Promo code window is not a valid instant"@,
            ErrorKind::InvalidPrice => "Failed to parse price for product"@,
            ErrorKind::AmountOutOfRange => "Order amount is out of range"@,
            ErrorKind::CartCountLimit => "Cart line count limit reached"@,
            ErrorKind::Unauthorized => "Unauthorized"@,
            ErrorKind::MissingFields => "All fields except avatar_url are required"@,
            ErrorKind::UserAlreadyExists => "User already exists"@,
            ErrorKind::HashingError => "Error hashing password"@,
            ErrorKind::AlreadyLoggedIn => "You are already logged in"@,
            ErrorKind::EmptyFields => "login/email and password cannot be empty"@,
            ErrorKind::InvalidCredentials => "Invalid credentials"@,
            ErrorKind::CardAlreadyAdded => "This credit card has already been added"@,
            ErrorKind::CardNotFound => "Credit card not found"@,
            ErrorKind::NoCardsFound => "No credit cards found for this user"@,
        }
    }

    pub open spec fn code_text(self) -> Seq<char> {
        match self {
            ErrorKind::UserNotFound => "USER_NOT_FOUND"@,
            ErrorKind::PrimaryCardNotFound => "PRIMARY_CREDIT_CARD_NOT_FOUND"@,
            ErrorKind::NoCreditCards => "CREDIT_CARDS_NOT_FOUND"@,
            ErrorKind::SelectedProductsNotFound => "SELECTED_PRODUCTS_NOT_FOUND"@,
            ErrorKind::OrderNotFound => "ORDER_NOT_FOUND"@,
            ErrorKind::ProductNotFound => "PRODUCT_NOT_FOUND"@,
            ErrorKind::ProductNotInCart => "PRODUCT_NOT_IN_CART"@,
            ErrorKind::UserCartNotFound => "USER_CART_NOT_FOUND"@,
            ErrorKind::ProductAlreadyInFavorites => "PRODUCT_ALREADY_IN_FAVORITES"@,
            ErrorKind::ProductNotFoundInFavorites => "PRODUCT_NOT_FOUND_IN_FAVORITES"@,
            ErrorKind::UserFavoritesNotFound => "USER_FAVORITES_NOT_FOUND"@,
            ErrorKind::NoPromoCodesFound => "NO_PROMO_CODES_FOUND"@,
            ErrorKind::PromoCodeNotFound => "PROMO_CODE_NOT_FOUND"@,
            ErrorKind::PromoCodeNotYetAvailable => "PROMO_CODE_NOT_YET_AVAILABLE"@,
            ErrorKind::PromoCodeExpired => "PROMO_CODE_EXPIRED"@,
            ErrorKind::PromoCodesUnavailable => "INTERNAL_SERVER_ERROR"@,
            ErrorKind::PromoCodeWindowInvalid => "PROMO_CODE_WINDOW_INVALID"@,
            ErrorKind::InvalidPrice => "INVALID_PRODUCT_PRICE"@,
            ErrorKind::AmountOutOfRange => "AMOUNT_OUT_OF_RANGE"@,
            ErrorKind::CartCountLimit => "CART_COUNT_LIMIT"@,
            ErrorKind::Unauthorized => "UNAUTHORIZED_ACCESS"@,
            ErrorKind::MissingFields => "MISSING_FIELDS"@,
            ErrorKind::UserAlreadyExists => "USER_ALREADY_EXISTS"@,
            ErrorKind::HashingError => "HASHING_ERROR"@,
            ErrorKind::AlreadyLoggedIn => "ALREADY_LOGGED_IN"@,
            ErrorKind::EmptyFields => "EMPTY_FIELDS"@,
            ErrorKind::InvalidCredentials => "INVALID_CREDENTIALS"@,
            ErrorKind::CardAlreadyAdded => "CARD_ALREADY_ADDED"@,
            ErrorKind::CardNotFound => "CARD_NOT_FOUND"@,
            ErrorKind::NoCardsFound => "NO_CARDS_FOUND"@,
        }
    }

    /// The human message of this kind of error.
    pub fn message(self) -> (text: &'static str)
        ensures
            text@ == self.message_text(),
    {
        match self {
            ErrorKind::UserNotFound => "User not found",
            ErrorKind::PrimaryCardNotFound => "Primary credit card not found.",
            ErrorKind::NoCreditCards => "No credit cards found for user.",
            ErrorKind::SelectedProductsNotFound => "No selected products found in the cart.",
            ErrorKind::OrderNotFound => "Order not found",
            ErrorKind::ProductNotFound => "Product not found",
            ErrorKind::ProductNotInCart => "Product not found in cart",
            ErrorKind::UserCartNotFound => "User cart not found",
            ErrorKind::ProductAlreadyInFavorites => "Product already in favorites",
            ErrorKind::ProductNotFoundInFavorites => "Product not found in favorites",
            ErrorKind::UserFavoritesNotFound => "User favorites not found",
            ErrorKind::NoPromoCodesFound => "No promo codes available",
            ErrorKind::PromoCodeNotFound => "Promo code not found",
            ErrorKind::PromoCodeNotYetAvailable => "Promo code is not yet available",
            ErrorKind::PromoCodeExpired => "Promo code has expired",
            ErrorKind::PromoCodesUnavailable => "Failed to load promo codes",
            ErrorKind::PromoCodeWindowInvalid => "Promo code window is not a valid instant",
            ErrorKind::InvalidPrice => "Failed to parse price for product",
            ErrorKind::AmountOutOfRange => "Order amount is out of range",
            ErrorKind::CartCountLimit => "Cart line count limit reached",
            ErrorKind::Unauthorized => "Unauthorized",
            ErrorKind::MissingFields => "All fields except avatar_url are required",
            ErrorKind::UserAlreadyExists => "User already exists",
            ErrorKind::HashingError => "Error hashing password",
            ErrorKind::AlreadyLoggedIn => "You are already logged in",
            ErrorKind::EmptyFields => "login/email and password cannot be empty",
            ErrorKind::InvalidCredentials => "Invalid credentials",
            ErrorKind::CardAlreadyAdded => "This credit card has already been added",
            ErrorKind::CardNotFound => "Credit card not found",
            ErrorKind::NoCardsFound => "No credit cards found for this user",
        }
    }

    /// The stable code of this kind of error.
    pub fn error_code(self) -> (text: &'static str)
        ensures
            text@ == self.code_text(),
    {
        match self {
            ErrorKind::UserNotFound => "USER_NOT_FOUND",
            ErrorKind::PrimaryCardNotFound => "PRIMARY_CREDIT_CARD_NOT_FOUND",
            ErrorKind::NoCreditCards => "CREDIT_CARDS_NOT_FOUND",
            ErrorKind::SelectedProductsNotFound => "SELECTED_PRODUCTS_NOT_FOUND",
            ErrorKind::OrderNotFound => "ORDER_NOT_FOUND",
            ErrorKind::ProductNotFound => "PRODUCT_NOT_FOUND",
            ErrorKind::ProductNotInCart => "PRODUCT_NOT_IN_CART",
            ErrorKind::UserCartNotFound => "USER_CART_NOT_FOUND",
            ErrorKind::ProductAlreadyInFavorites => "PRODUCT_ALREADY_IN_FAVORITES",
            ErrorKind::ProductNotFoundInFavorites => "PRODUCT_NOT_FOUND_IN_FAVORITES",
            ErrorKind::UserFavoritesNotFound => "USER_FAVORITES_NOT_FOUND",
            ErrorKind::NoPromoCodesFound => "NO_PROMO_CODES_FOUND",
            ErrorKind::PromoCodeNotFound => "PROMO_CODE_NOT_FOUND",
            ErrorKind::PromoCodeNotYetAvailable => "PROMO_CODE_NOT_YET_AVAILABLE",
            ErrorKind::PromoCodeExpired => "PROMO_CODE_EXPIRED",
            ErrorKind::PromoCodesUnavailable => "INTERNAL_SERVER_ERROR",
            ErrorKind::PromoCodeWindowInvalid => "PROMO_CODE_WINDOW_INVALID",
            ErrorKind::InvalidPrice => "INVALID_PRODUCT_PRICE",
            ErrorKind::AmountOutOfRange => "AMOUNT_OUT_OF_RANGE",
            ErrorKind::CartCountLimit => "CART_COUNT_LIMIT",
            ErrorKind::Unauthorized => "UNAUTHORIZED_ACCESS",
            ErrorKind::MissingFields => "MISSING_FIELDS",
            ErrorKind::UserAlreadyExists => "USER_ALREADY_EXISTS",
            ErrorKind::HashingError => "HASHING_ERROR",
            ErrorKind::AlreadyLoggedIn => "ALREADY_LOGGED_IN",
            ErrorKind::EmptyFields => "EMPTY_FIELDS",
            ErrorKind::InvalidCredentials => "INVALID_CREDENTIALS",
            ErrorKind::CardAlreadyAdded => "CARD_ALREADY_ADDED",
            ErrorKind::CardNotFound => "CARD_NOT_FOUND",
            ErrorKind::NoCardsFound => "NO_CARDS_FOUND",
        }
    }

    /// The message and code of this kind as one error value.
    pub fn to_custom_error(self) -> (e: CustomError)
        ensures
            e@.message == self.message_text(),
            e@.error_code == self.code_text(),
    {
        CustomError::new(self.message(), self.error_code())
    }
}

} // verus!
