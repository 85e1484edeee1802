//! The token's descriptive metadata.

use vstd::prelude::*;

use crate::account::same_text;

verus! {

/// The version of the metadata format.
pub const FT_METADATA_SPEC: &'static str = "ft-1.0.0";

/// The icon of the default metadata, as a data URL.
pub const DATA_IMAGE_SVG_NEAR_ICON: &'static str =
    "data:image/svg+xml,%3Csvg xmlns='http://www.w3.org/2000/svg' viewBox='0 0 288 288'%3E%3Cg id='l' data-name='l'%3E%3Cpath d='M187.58,79.81l-30.1,44.69a3.2,3.2,0,0,0,4.75,4.2L191.86,103a1.2,1.2,0,0,1,2,.91v80.46a1.2,1.2,0,0,1-2.12.77L102.18,77.93A15.35,15.35,0,0,0,90.47,72.5H87.34A15.34,15.34,0,0,0,72,87.84V201.16A15.34,15.34,0,0,0,87.34,216.5h0a15.35,15.35,0,0,0,13.08-7.31l30.1-44.69a3.2,3.2,0,0,0-4.75-4.2L96.14,186a1.2,1.2,0,0,1-2-.91V104.61a1.2,1.2,0,0,1,2.12-.77l89.55,107.23a15.35,15.35,0,0,0,11.71,5.43h3.13A15.34,15.34,0,0,0,216,201.16V87.84A15.34,15.34,0,0,0,200.66,72.5h0A15.35,15.35,0,0,0,187.58,79.81Z'/%3E%3C/g%3E%3C/svg%3E";

/// The name of the default metadata.
pub const DEFAULT_NAME: &'static str = "Example NEAR fungible token";

/// The symbol of the default metadata.
pub const DEFAULT_SYMBOL: &'static str = "EXAMPLE";

/// The number of decimals of the default metadata.
pub const DEFAULT_DECIMALS: u8 = 24;

/// The length of a reference hash in bytes.
pub const REFERENCE_HASH_LEN: usize = 32;

/// What metadata say, as text and numbers.
pub struct MetadataView {
    pub spec: Seq<char>,
    pub name: Seq<char>,
    pub symbol: Seq<char>,
    pub icon: Option<Seq<char>>,
    pub reference: Option<Seq<char>>,
    pub reference_hash: Option<Seq<u8>>,
    pub decimals: u8,
}

impl MetadataView {
    /// Well-formed metadata name the known format version, and have a
    /// reference exactly when they have a hash for it, of 32 bytes.
    pub open spec fn valid(self) -> bool {
        &&& self.spec == FT_METADATA_SPEC@
        &&& (self.reference is Some <==> self.reference_hash is Some)
        &&& (self.reference_hash matches Some(hash) ==> hash.len() == REFERENCE_HASH_LEN)
    }

    /// What the default metadata hold.
    pub open spec fn is_default(self) -> bool {
        &&& self.spec == FT_METADATA_SPEC@
        &&& self.name == DEFAULT_NAME@
        &&& self.symbol == DEFAULT_SYMBOL@
        &&& self.icon == Some(DATA_IMAGE_SVG_NEAR_ICON@)
        &&& self.reference is None
        &&& self.reference_hash is None
        &&& self.decimals == DEFAULT_DECIMALS
    }
}

/// How the token describes itself. The ledger keeps it and hands it out; it
/// reads none of it but to see that it is well formed.
#[derive(Debug)]
pub struct TokenMetadata {
    pub spec: String,
    pub name: String,
    pub symbol: String,
    pub icon: Option<String>,
    pub reference: Option<String>,
    pub reference_hash: Option<Vec<u8>>,
    pub decimals: u8,
}

impl View for TokenMetadata {
    type V = MetadataView;

    open spec fn view(&self) -> MetadataView {
        MetadataView {
            spec: self.spec@,
            name: self.name@,
            symbol: self.symbol@,
            icon: match self.icon {
                Some(icon) => Some(icon@),
                None => None,
            },
            reference: match self.reference {
                Some(reference) => Some(reference@),
                None => None,
            },
            reference_hash: match self.reference_hash {
                Some(hash) => Some(hash@),
                None => None,
            },
            decimals: self.decimals,
        }
    }
}

/// A copy of an optional text.
fn copy_of(text: &Option<String>) -> (r: Option<String>)
    ensures
        r is Some <==> text is Some,
        r matches Some(copy) ==> copy@ == text->Some_0@,
{
    match text {
        Some(t) => Some(t.clone()),
        None => None,
    }
}

impl TokenMetadata {
    /// Whether the metadata are well formed.
    pub fn is_valid(&self) -> (r: bool)
        ensures
            r == self@.valid(),
    {
        if !same_text(self.spec.as_str(), FT_METADATA_SPEC) {
            return false;
        }
        if self.reference.is_some() != self.reference_hash.is_some() {
            return false;
        }
        match &self.reference_hash {
            Some(hash) => hash.len() == REFERENCE_HASH_LEN,
            None => true,
        }
    }

    /// Metadata for trying the ledger out.
    pub fn default_meta() -> (r: TokenMetadata)
        ensures
            r@.is_default(),
            r@.valid(),
    {
        TokenMetadata {
            spec: FT_METADATA_SPEC.to_owned(),
            name: DEFAULT_NAME.to_owned(),
            symbol: DEFAULT_SYMBOL.to_owned(),
            icon: Some(DATA_IMAGE_SVG_NEAR_ICON.to_owned()),
            reference: None,
            reference_hash: None,
            decimals: DEFAULT_DECIMALS,
        }
    }

    /// A copy that says the same.
    pub fn duplicate(&self) -> (r: TokenMetadata)
        ensures
            r@ == self@,
    {
        let reference_hash: Option<Vec<u8>> = match &self.reference_hash {
            Some(hash) => Some(hash.clone()),
            None => None,
        };
        TokenMetadata {
            spec: self.spec.clone(),
            name: self.name.clone(),
            symbol: self.symbol.clone(),
            icon: copy_of(&self.icon),
            reference: copy_of(&self.reference),
            reference_hash,
            decimals: self.decimals,
        }
    }
}

} // verus!
