//! The concrete types that the runtime binds every module to.

use vstd::prelude::*;

verus! {

/// Identifies an account.
pub type AccountId = String;

/// An amount of funds.
pub type Balance = u128;

/// Counts blocks.
pub type BlockNumber = u32;

/// Counts the extrinsics that an account has sent.
pub type Nonce = u32;

/// The content that a claim is about.
pub type Content = &'static str;

/// An extrinsic of the runtime.
pub type Extrinsic = crate::support::Extrinsic<AccountId, crate::runtime::RuntimeCall>;

/// A block header of the runtime.
pub type Header = crate::support::Header<BlockNumber>;

/// A block of the runtime.
pub type Block = crate::support::Block<Header, Extrinsic>;

} // verus!
