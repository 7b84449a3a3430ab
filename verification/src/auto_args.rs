//! Arity rules of the positional parameters of a call: how many values a
//! handler takes, and the optional block selector that may follow them.

use crate::types::{BlockNumber, Error};
use vstd::prelude::*;

verus! {

/// The parameters of a call before they are decoded; `V` is the type of one
/// undecoded value.
#[derive(Debug, PartialEq, Eq)]
pub enum Params<V> {
    /// The call has no parameter list.
    Absent,
    /// The call has a list of positional parameters.
    Array(Vec<V>),
    /// The call names its parameters.
    Named,
}

/// The block selector that ends the parameters of a handler. A handler that
/// takes one accepts calls with and without it.
#[derive(Clone, Copy, Debug, PartialEq, Eq, Structural)]
pub struct BlockParam(pub BlockNumber);

/// The positional parameters of a call, if it has a list of them.
pub open spec fn positional<V>(params: Params<V>) -> Option<Seq<V>> {
    match params {
        Params::Array(values) => Some(values@),
        _ => None,
    }
}

/// What a handler with `required` parameters and the optional selector makes
/// of a list: the required values and the undecoded selector, if the list has
/// one. Any other list is refused.
pub open spec fn split<V>(values: Seq<V>, required: nat) -> Option<(Seq<V>, Option<V>)> {
    if values.len() == required {
        Some((values, None))
    } else if values.len() == required + 1 {
        Some((values.drop_last(), Some(values.last())))
    } else {
        None
    }
}

impl BlockParam {
    /// The selector of a call: the one it gave, or the latest block where it
    /// gave none.
    pub fn or_latest(given: Option<BlockNumber>) -> (param: BlockParam)
        ensures
            param == match given {
                Some(number) => BlockParam(number),
                None => BlockParam(BlockNumber::Latest),
            },
    {
        match given {
            Some(number) => BlockParam(number),
            None => BlockParam(BlockNumber::Latest),
        }
    }
}

/// Parameters of a handler that takes none: the list has to be absent or
/// empty.
pub fn expect_no_params<V>(params: &Params<V>) -> (r: Result<(), Error>)
    ensures
        r == match *params {
            Params::Absent => Ok::<(), Error>(()),
            Params::Array(values) => if values@.len() == 0 {
                Ok(())
            } else {
                Err(Error::InvalidParams)
            },
            Params::Named => Err(Error::InvalidParams),
        },
{
    match params {
        Params::Absent => Ok(()),
        Params::Array(values) => if values.len() == 0 {
            Ok(())
        } else {
            Err(Error::InvalidParams)
        },
        Params::Named => Err(Error::InvalidParams),
    }
}

/// Parameters of a handler that takes exactly `required` values and no
/// selector: the list with that many values.
pub fn expect_params<V>(params: Params<V>, required: usize) -> (r: Result<Vec<V>, Error>)
    ensures
        match positional(params) {
            Some(values) if values.len() == required => r matches Ok(list) && list@ == values,
            _ => r matches Err(e) && e == Error::InvalidParams,
        },
{
    match params {
        Params::Array(values) => if values.len() == required {
            Ok(values)
        } else {
            Err(Error::InvalidParams)
        },
        _ => Err(Error::InvalidParams),
    }
}

/// Parameters of a handler that takes `required` values and then,
/// optionally, a block selector. A list of `required` values has no
/// selector; a list with one value more ends in the selector; anything that
/// is not a list, and a list of any other length, is refused.
pub fn split_block_param<V>(params: Params<V>, required: usize) -> (r: Result<(Vec<V>, Option<V>), Error>)
    ensures
        match positional(params) {
            Some(values) => match split(values, required as nat) {
                Some((args, selector)) => r matches Ok(pair) && pair.0@ == args && pair.1 == selector,
                None => r matches Err(e) && e == Error::InvalidParams,
            },
            None => r matches Err(e) && e == Error::InvalidParams,
        },
{
    match params {
        Params::Array(values) => {
            let mut values = values;
            let len = values.len();
            if len == required {
                Ok((values, None))
            } else if len > 0 && len - 1 == required {
                let selector = values.pop();
                Ok((values, selector))
            } else {
                Err(Error::InvalidParams)
            }
        },
        _ => Err(Error::InvalidParams),
    }
}

/// Parameters of a handler that takes `required` values and then,
/// optionally, a block selector, with the selector decoded by `decode`. A
/// list of `required` values selects the latest block; a list with one value
/// more selects what `decode` makes of its last value, and fails as `decode`
/// does; anything else is refused.
pub fn with_block_param<V, F>(params: Params<V>, required: usize, decode: F) -> (r: Result<
    (Vec<V>, BlockParam),
    Error,
>) where F: FnOnce(V) -> Result<BlockNumber, Error>
    requires
        forall|value: V| decode.requires((value,)),
    ensures
        match positional(params) {
            Some(values) => if values.len() == required {
                r matches Ok(pair) && pair.0@ == values && pair.1 == BlockParam(BlockNumber::Latest)
            } else if values.len() == required + 1 {
                exists|decoded: Result<BlockNumber, Error>| #[trigger]
                    decode.ensures((values.last(),), decoded) && match decoded {
                        Ok(number) => r matches Ok(pair) && pair.0@ == values.drop_last() && pair.1
                            == BlockParam(number),
                        Err(e) => r matches Err(err) && err == e,
                    }
            } else {
                r matches Err(e) && e == Error::InvalidParams
            },
            None => r matches Err(e) && e == Error::InvalidParams,
        },
{
    match split_block_param(params, required) {
        Ok((args, None)) => Ok((args, BlockParam::or_latest(None))),
        Ok((args, Some(selector))) => {
            match decode(selector) {
                Ok(number) => Ok((args, BlockParam::or_latest(Some(number)))),
                Err(e) => Err(e),
            }
        },
        Err(e) => Err(e),
    }
}

/// A handler together with the rule by which its parameters are taken from a
/// call.
pub trait Wrap<B, V> {
    /// Whether the functions inside accept every input.
    spec fn callable(&self) -> bool;

    /// Whether `r` answers the call: the error of the parameters where they
    /// do not fit, and else what the handler gave for them.
    spec fn answers(&self, base: &B, params: Params<V>, r: Result<V, Error>) -> bool;

    /// Takes the parameters of a call apart and hands them to the handler.
    /// An error of the handler is the answer: nothing stands in for it.
    fn wrap_rpc(&self, base: &B, params: Params<V>) -> (r: Result<V, Error>)
        requires
            self.callable(),
        ensures
            self.answers(base, params, r),
    ;
}

/// A handler that takes no parameters.
pub struct NoParams<F>(pub F);

/// A handler that takes `required` values.
pub struct Positional<F> {
    /// The number of values.
    pub required: usize,
    /// The handler.
    pub handler: F,
}

/// A handler that takes `required` values and then, optionally, a block
/// selector.
pub struct WithBlockParam<D, F> {
    /// The number of values before the selector.
    pub required: usize,
    /// Decodes the selector.
    pub decode: D,
    /// The handler.
    pub handler: F,
}

impl<B, V, F: Fn(&B) -> Result<V, Error>> Wrap<B, V> for NoParams<F> {
    open spec fn callable(&self) -> bool {
        forall|base: &B| self.0.requires((base,))
    }

    open spec fn answers(&self, base: &B, params: Params<V>, r: Result<V, Error>) -> bool {
        let empty = match params {
            Params::Absent => true,
            Params::Array(values) => values@.len() == 0,
            Params::Named => false,
        };
        if empty {
            self.0.ensures((base,), r)
        } else {
            r matches Err(e) && e == Error::InvalidParams
        }
    }

    fn wrap_rpc(&self, base: &B, params: Params<V>) -> (r: Result<V, Error>) {
        match expect_no_params(&params) {
            Ok(_) => (self.0)(base),
            Err(e) => Err(e),
        }
    }
}

impl<B, V, F: Fn(&B, Vec<V>) -> Result<V, Error>> Wrap<B, V> for Positional<F> {
    open spec fn callable(&self) -> bool {
        forall|base: &B, args: Vec<V>| self.handler.requires((base, args))
    }

    open spec fn answers(&self, base: &B, params: Params<V>, r: Result<V, Error>) -> bool {
        match positional(params) {
            Some(values) if values.len() == self.required => exists|args: Vec<V>|
                args@ == values && #[trigger] self.handler.ensures((base, args), r),
            _ => r matches Err(e) && e == Error::InvalidParams,
        }
    }

    fn wrap_rpc(&self, base: &B, params: Params<V>) -> (r: Result<V, Error>) {
        match expect_params(params, self.required) {
            Ok(args) => (self.handler)(base, args),
            Err(e) => Err(e),
        }
    }
}

impl<B, V, D: Fn(V) -> Result<BlockNumber, Error>, F: Fn(&B, Vec<V>, BlockParam) -> Result<V, Error>> Wrap<
    B,
    V,
> for WithBlockParam<D, F> {
    open spec fn callable(&self) -> bool {
        &&& forall|value: V| self.decode.requires((value,))
        &&& forall|base: &B, args: Vec<V>, selector: BlockParam| self.handler.requires((base, args, selector))
    }

    open spec fn answers(&self, base: &B, params: Params<V>, r: Result<V, Error>) -> bool {
        match positional(params) {
            Some(values) => if values.len() == self.required {
                exists|args: Vec<V>|
                    args@ == values && #[trigger] self.handler.ensures(
                        (base, args, BlockParam(BlockNumber::Latest)),
                        r,
                    )
            } else if values.len() == self.required + 1 {
                exists|decoded: Result<BlockNumber, Error>| #[trigger]
                    self.decode.ensures((values.last(),), decoded) && match decoded {
                        Ok(number) => exists|args: Vec<V>|
                            args@ == values.drop_last() && #[trigger] self.handler.ensures(
                                (base, args, BlockParam(number)),
                                r,
                            ),
                        Err(e) => r matches Err(err) && err == e,
                    }
            } else {
                r matches Err(e) && e == Error::InvalidParams
            },
            None => r matches Err(e) && e == Error::InvalidParams,
        }
    }

    fn wrap_rpc(&self, base: &B, params: Params<V>) -> (r: Result<V, Error>) {
        match split_block_param(params, self.required) {
            Ok((args, None)) => (self.handler)(base, args, BlockParam::or_latest(None)),
            Ok((args, Some(selector))) => match (self.decode)(selector) {
                Ok(number) => (self.handler)(base, args, BlockParam::or_latest(Some(number))),
                Err(e) => Err(e),
            },
            Err(e) => Err(e),
        }
    }
}

} // verus!
