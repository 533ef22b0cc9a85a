//! Shared shapes: blocks, extrinsics and the uniform result of a call.

use vstd::prelude::*;

verus! {

/// The result of a dispatched call: success, or a static description of why
/// the call was refused.
pub type DispatchResult = Result<(), &'static str>;

/// Whether a result is the failure that carries this description.
pub open spec fn fails_with(r: DispatchResult, description: Seq<char>) -> bool {
    r is Err && r->Err_0@ == description
}

/// Whether a result reports a refusal as it is: the failure with the
/// refusal's description where there is one, success where there is none.
pub open spec fn reports(r: DispatchResult, refusal: Option<Seq<char>>) -> bool {
    match refusal {
        Some(why) => fails_with(r, why),
        None => r is Ok,
    }
}

/// What a block's producer declares about it.
#[derive(Debug)]
pub struct Header<BlockNumber> {
    pub block_number: BlockNumber,
}

/// An instruction submitted from outside: who sends it, and what is called.
#[derive(Debug)]
pub struct Extrinsic<Caller, Call> {
    pub caller: Caller,
    pub call: Call,
}

/// A header and the extrinsics to apply, in order.
#[derive(Debug)]
pub struct Block<Header, Extrinsic> {
    pub header: Header,
    pub extrinsics: Vec<Extrinsic>,
}

/// Routing of a caller and a call to the operation that the call names.
pub trait Dispatch {
    /// Who may send a call.
    type Caller;

    /// The calls that can be routed.
    type Call;

    /// Whether the state is well formed, as every call needs and keeps it.
    spec fn dispatch_ready(&self) -> bool;

    /// Performs the call on behalf of the caller.
    fn dispatch(&mut self, caller: Self::Caller, call: Self::Call) -> (r: DispatchResult)
        requires
            old(self).dispatch_ready(),
        ensures
            final(self).dispatch_ready(),
    ;
}

} // verus!
