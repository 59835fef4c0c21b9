//! Plain data of the PolishAPI account, payment and reference models.
//! Their JSON forms live with the transport, outside this library.

use vstd::prelude::*;

verus! {

/// Account identifier.
#[derive(Debug, Clone)]
pub struct AccountId {
    pub iban: Option<String>,
    pub bban: Option<String>,
    pub pan: Option<String>,
    pub masked_pan: Option<String>,
    pub msisdn: Option<String>,
}

/// Amount with currency; the amount is kept as decimal text.
#[derive(Debug, Clone)]
pub struct Amount {
    pub currency: String,
    pub amount: String,
}

/// Postal address.
#[derive(Debug, Clone)]
pub struct Address {
    pub street_name: Option<String>,
    pub building_number: Option<String>,
    pub town_name: Option<String>,
    pub post_code: Option<String>,
    pub country: String,
}

/// Status of a transaction.
#[derive(Debug, Clone, Copy, PartialEq, Eq, Structural)]
pub enum TransactionStatus {
    Booked,
    Pending,
    Rejected,
    Cancelled,
    Scheduled,
}

/// Status of a payment.
#[derive(Debug, Clone, Copy, PartialEq, Eq, Structural)]
pub enum PaymentStatus {
    Received,
    Pending,
    Accepted,
    AcceptedCustomerProfile,
    AcceptedTechnicalValidation,
    AcceptedWithChange,
    Rejected,
    Cancelled,
    Executed,
}

/// Status of a consent.
#[derive(Debug, Clone, Copy, PartialEq, Eq, Structural)]
pub enum ConsentStatus {
    Received,
    Rejected,
    Valid,
    RevokedByPsy,
    Expired,
    TerminatedByTPP,
}

/// How often a recurring transaction runs.
#[derive(Debug, Clone, Copy, PartialEq, Eq, Structural)]
pub enum FrequencyCode {
    Daily,
    Weekly,
    EveryTwoWeeks,
    Monthly,
    EveryTwoMonths,
    Quarterly,
    SemiAnnual,
    Annual,
}

/// Kind of an account balance.
#[derive(Debug, Clone, Copy, PartialEq, Eq, Structural)]
pub enum BalanceType {
    ClosingBooked,
    Expected,
    Authorised,
    OpeningBooked,
    InterimAvailable,
    InterimBooked,
    ForwardAvailable,
    NonInvoiced,
}

/// Creditor or debtor account.
#[derive(Debug, Clone)]
pub struct AccountReference {
    pub iban: Option<String>,
    pub bban: Option<String>,
    pub pan: Option<String>,
    pub masked_pan: Option<String>,
    pub msisdn: Option<String>,
    pub currency: Option<String>,
}

/// Remittance information, free text or structured.
#[derive(Debug, Clone)]
pub struct RemittanceInformation {
    pub unstructured: Option<Vec<String>>,
    pub structured: Option<Vec<StructuredRemittanceInformation>>,
}

/// Structured remittance reference.
#[derive(Debug, Clone)]
pub struct StructuredRemittanceInformation {
    pub reference: Option<String>,
    pub reference_type: Option<String>,
    pub reference_issuer: Option<String>,
}

/// Navigation links of a paged response.
#[derive(Debug, Clone)]
pub struct Links {
    pub self_link: Option<String>,
    pub first: Option<String>,
    pub prev: Option<String>,
    pub next: Option<String>,
    pub last: Option<String>,
}

/// Kind of payment.
#[derive(Debug, Clone, Copy, PartialEq, Eq, Structural)]
pub enum PaymentType {
    Domestic,
    Eea,
    NonEea,
    Tax,
}

/// Payment product.
#[derive(Debug, Clone, Copy, PartialEq, Eq, Structural)]
pub enum PaymentProduct {
    Sepa,
    InstantSepa,
    Target2,
    CrossBorderCreditTransfer,
}

/// Tax payer identification.
#[derive(Debug)]
pub struct TaxIdentification {
    pub tax_identification_number: String,
    pub tax_identification_type: String,
    pub issuer: Option<String>,
}

/// Exchange rate of a foreign-currency payment.
#[derive(Debug)]
pub struct ExchangeRateInformation {
    pub unit_currency: String,
    pub exchange_rate: Option<String>,
    pub rate_type: Option<String>,
    pub contract_identification: Option<String>,
}

} // verus!
