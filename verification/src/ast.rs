//! The slice of the syntax tree this core reads: a function item, reduced
//! to the parts its compilation consults — its identity token, the spans
//! that locate it, and its argument list.

use vstd::prelude::*;

use crate::gen::Id;
use crate::span::{spec_join, Span};

verus! {

/// One argument of a function item: the reserved receiver, or a plain
/// named argument.
#[derive(Debug)]
pub enum FnArg {
    SelfValue,
    Ident(String),
}

/// A function item.
#[derive(Debug)]
pub struct ItemFn {
    /// Opaque identifier for the item; `None` until the compiler assigns
    /// one.
    pub id: Option<Id>,
    /// The span of the optional `async` keyword.
    pub async_token: Option<Span>,
    /// The span of the `fn` keyword.
    pub fn_token: Span,
    /// The name of the function.
    pub name: String,
    /// The arguments of the function.
    pub args: Vec<FnArg>,
    /// The span of the parenthesized argument list.
    pub args_span: Span,
}

impl ItemFn {
    /// Get the identifying span for this function: from the `async`
    /// keyword if present, otherwise from the `fn` keyword, through the
    /// argument list.
    pub fn item_span(&self) -> (s: Span)
        ensures
            s == match self.async_token {
                Some(a) => spec_join(a, self.args_span),
                None => spec_join(self.fn_token, self.args_span),
            },
    {
        if let Some(async_token) = &self.async_token {
            async_token.join(self.args_span)
        } else {
            self.fn_token.join(self.args_span)
        }
    }

    /// Test if the function is an instance function: its first argument
    /// is the reserved receiver.
    pub fn is_instance(&self) -> (r: bool)
        ensures
            r == (self.args@.len() > 0 && self.args@[0] is SelfValue),
    {
        if self.args.len() == 0 {
            false
        } else {
            matches!(&self.args[0], FnArg::SelfValue)
        }
    }
}

} // verus!
